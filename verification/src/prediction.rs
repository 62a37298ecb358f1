//! The whole-number part of the disk usage forecast: which snapshots carry a
//! readable time and in what order they are taken, and the days ahead at
//! which the forecast is drawn. The regression over them works on fractions
//! and is done by the caller.
use vstd::prelude::*;
use crate::calendar::{datetime_seconds, parse_sqlite_datetime};

verus! {

/// Entries `(time, index)` ordered by time, and by index among equal times.
pub open spec fn time_ordered(r: Seq<(i64, usize)>) -> bool {
    forall|a: int, b: int|
        0 <= a < b < r.len() ==> (#[trigger] r[a]).0 < (#[trigger] r[b]).0 || (r[a].0 == r[b].0 && r[a].1 < r[b].1)
}

/// Insert `(t, i)` after every entry with a time at most `t`.
fn insert_timed(out: &mut Vec<(i64, usize)>, t: i64, i: usize)
    requires
        time_ordered(old(out)@),
        forall|k: int| 0 <= k < old(out)@.len() ==> (#[trigger] old(out)@[k]).1 < i,
    ensures
        time_ordered(final(out)@),
        exists|pos: int| 0 <= pos <= old(out)@.len() && final(out)@ == old(out)@.insert(pos, (t, i)),
{
    let mut pos: usize = out.len();
    while pos > 0 && out[pos - 1].0 > t
        invariant
            pos <= out@.len(),
            out@ == old(out)@,
            forall|k: int| pos <= k < out@.len() ==> (#[trigger] out@[k]).0 > t,
        decreases pos,
    {
        pos = pos - 1;
    }
    let ghost before = out@;
    out.insert(pos, (t, i));
    assert(out@ == before.insert(pos as int, (t, i)));
    assert forall|a: int, b: int|
        0 <= a < b < out@.len() implies (#[trigger] out@[a]).0 < (#[trigger] out@[b]).0 || (out@[a].0 == out@[b].0
            && out@[a].1 < out@[b].1) by {
        if b < pos {
            assert(out@[a] == before[a] && out@[b] == before[b]);
        } else if b == pos {
            assert(out@[a] == before[a]);
        } else if a == pos {
            assert(out@[b] == before[b - 1]);
        } else if a < pos {
            assert(out@[a] == before[a] && out@[b] == before[b - 1]);
        } else {
            assert(out@[a] == before[a - 1] && out@[b] == before[b - 1]);
        }
    }
}

/// The snapshots whose creation time can be read, each as its time in
/// seconds and its position, in order of time; snapshots with the same time
/// keep their order. Snapshots whose time cannot be read are left out.
pub fn timed_snapshots(created_at: &Vec<String>) -> (r: Vec<(i64, usize)>)
    ensures
        time_ordered(r@),
        forall|k: int|
            0 <= k < r@.len() ==> (#[trigger] r@[k]).1 < created_at@.len() && datetime_seconds(
                created_at@[r@[k].1 as int]@,
            ) == Some(r@[k].0 as int),
        forall|i: int|
            0 <= i < created_at@.len() && datetime_seconds(#[trigger] created_at@[i]@) is Some ==> exists|k: int|
                0 <= k < r@.len() && r@[k].1 == i,
{
    let mut out: Vec<(i64, usize)> = Vec::new();
    let mut i: usize = 0;
    while i < created_at.len()
        invariant
            i <= created_at@.len(),
            time_ordered(out@),
            forall|k: int|
                0 <= k < out@.len() ==> (#[trigger] out@[k]).1 < i && datetime_seconds(
                    created_at@[out@[k].1 as int]@,
                ) == Some(out@[k].0 as int),
            forall|j: int|
                0 <= j < i && datetime_seconds(#[trigger] created_at@[j]@) is Some ==> exists|k: int|
                    0 <= k < out@.len() && out@[k].1 == j,
        decreases created_at.len() - i,
    {
        match parse_sqlite_datetime(created_at[i].as_str()) {
            Some(t) => {
                let ghost before = out@;
                insert_timed(&mut out, t, i);
                let ghost pos = choose|pos: int| 0 <= pos <= before.len() && out@ == before.insert(pos, (t, i));
                assert forall|k: int| 0 <= k < out@.len() implies (#[trigger] out@[k]).1 < i + 1 && datetime_seconds(
                    created_at@[out@[k].1 as int]@,
                ) == Some(out@[k].0 as int) by {
                    if k < pos {
                        assert(out@[k] == before[k]);
                    } else if k > pos {
                        assert(out@[k] == before[k - 1]);
                    }
                }
                assert forall|j: int|
                    0 <= j < i + 1 && datetime_seconds(#[trigger] created_at@[j]@) is Some implies exists|k: int|
                        0 <= k < out@.len() && out@[k].1 == j by {
                    if j == i {
                        assert(out@[pos].1 == j);
                    } else {
                        let k0 = choose|k: int| 0 <= k < before.len() && before[k].1 == j;
                        if k0 < pos {
                            assert(out@[k0].1 == j);
                        } else {
                            assert(out@[k0 + 1].1 == j);
                        }
                    }
                }
            },
            None => {},
        }
        i = i + 1;
    }
    out
}

/// The days between two points of the drawn forecast: a sixth of the window,
/// which is taken between 30 and 180 days.
pub open spec fn forecast_step(days: u32) -> int {
    let horizon: int = if days < 30 { 30 } else if days > 180 { 180 } else { days as int };
    if horizon / 6 < 1 { 1 } else { horizon / 6 }
}

/// The days ahead of the latest snapshot at which the forecast is drawn:
/// six points, one step apart.
pub fn forecast_offsets(days: u32) -> (r: Vec<u32>)
    ensures
        r@.len() == 6,
        forall|k: int| 0 <= k < 6 ==> #[trigger] r@[k] == (k + 1) * forecast_step(days),
{
    let horizon: u32 = if days < 30 { 30 } else if days > 180 { 180 } else { days };
    let step: u32 = if horizon / 6 < 1 { 1 } else { horizon / 6 };
    let mut out: Vec<u32> = Vec::new();
    let mut k: u32 = 1;
    while k <= 6
        invariant
            1 <= k <= 7,
            step == forecast_step(days),
            1 <= step <= 30,
            out@.len() == k - 1,
            forall|j: int| 0 <= j < k - 1 ==> #[trigger] out@[j] == (j + 1) * step,
        decreases 7 - k,
    {
        assert(k * step <= 180) by (nonlinear_arith)
            requires
                1 <= k <= 6,
                1 <= step <= 30,
        ;
        out.push(k * step);
        k = k + 1;
    }
    out
}

} // verus!
