//! Anomaly detection over the snapshot history: the kinds of anomaly, the
//! state of the autoencoder, the confidence of a fused verdict, and the
//! directories that grew between two readings. The statistical detectors
//! themselves work on fractions and stay with the caller.
use vstd::prelude::*;
use crate::scanner::DirInfo;
use crate::text::{owned, str_eq};

verus! {

/// The version of the snapshot autoencoder.
pub const MODEL_VERSION: &'static str = "ae-6x4x6-v0.8.4";

/// The number of synthetic snapshots the autoencoder was trained on.
pub const SYNTHETIC_AE_TRAINING_SAMPLES: usize = 5400;

/// What kind of anomaly a detector reported.
#[derive(Debug, Clone, Copy, PartialEq, Eq, Structural)]
pub enum AnomalyType {
    RateAnomaly,
    BurstAnomaly,
    HotspotAnomaly,
    PatternDeviation,
    DriftAnomaly,
    AntiSeasonal,
}

/// How serious a reported anomaly is.
#[derive(Debug, Clone, Copy, PartialEq, Eq, Structural)]
pub enum AnomalySeverity {
    Warning,
    Critical,
}

/// Whether the autoencoder takes part in a fused verdict.
#[derive(Debug, Clone, Copy, PartialEq, Eq, Structural)]
pub enum AeStatus {
    Healthy,
    Degraded,
    Disabled,
}

/// The number of detectors that triggered.
pub open spec fn triggered_count(flags: Seq<bool>) -> nat
    decreases flags.len(),
{
    if flags.len() == 0 {
        0
    } else {
        triggered_count(flags.drop_last()) + if flags.last() {
            1nat
        } else {
            0nat
        }
    }
}

/// The confidence of a verdict on which `n` detectors agree.
pub open spec fn confidence_text(n: nat) -> Seq<char> {
    if n >= 2 {
        "high"@
    } else if n == 1 {
        "low"@
    } else {
        "none"@
    }
}

/// The confidence of a fused verdict, given which detectors triggered:
/// `high` for two or more, `low` for one, `none` for none.
pub fn fusion_confidence(triggered: &Vec<bool>) -> (r: String)
    ensures
        r@ == confidence_text(triggered_count(triggered@)),
{
    let mut n: usize = 0;
    let mut i: usize = 0;
    while i < triggered.len()
        invariant
            i <= triggered@.len(),
            n <= i,
            n == triggered_count(triggered@.take(i as int)),
        decreases triggered.len() - i,
    {
        assert(triggered@.take(i + 1).drop_last() =~= triggered@.take(i as int));
        if triggered[i] {
            n = n + 1;
        }
        i = i + 1;
    }
    assert(triggered@.take(i as int) =~= triggered@);
    if n >= 2 {
        owned("high")
    } else if n == 1 {
        owned("low")
    } else {
        owned("none")
    }
}

/// The size a reading records for a path: that of its last entry with it.
pub open spec fn last_size(dirs: Seq<DirInfo>, path: Seq<char>) -> Option<u64>
    decreases dirs.len(),
{
    if dirs.len() == 0 {
        None
    } else if dirs.last().path@ == path {
        Some(dirs.last().size_bytes)
    } else {
        last_size(dirs.drop_last(), path)
    }
}

/// The directories of the newer reading that grew since the older one, in
/// the newer reading's order: each one's position and its growth in bytes.
/// A directory the older reading does not hold is left out.
pub open spec fn growths(previous: Seq<DirInfo>, current: Seq<DirInfo>) -> Seq<(usize, u64)>
    decreases current.len(),
{
    if current.len() == 0 {
        Seq::empty()
    } else {
        let rest = growths(previous, current.drop_last());
        let d = current.last();
        match last_size(previous, d.path@) {
            Some(old) => if d.size_bytes > old {
                rest.push(((current.len() - 1) as usize, (d.size_bytes - old) as u64))
            } else {
                rest
            },
            None => rest,
        }
    }
}

fn find_last_size(dirs: &Vec<DirInfo>, path: &str) -> (r: Option<u64>)
    ensures
        r == last_size(dirs@, path@),
{
    let mut i: usize = dirs.len();
    assert(dirs@.take(i as int) =~= dirs@);
    while i > 0
        invariant
            i <= dirs@.len(),
            last_size(dirs@, path@) == last_size(dirs@.take(i as int), path@),
        decreases i,
    {
        assert(dirs@.take(i as int).drop_last() =~= dirs@.take(i - 1));
        if str_eq(dirs[i - 1].path.as_str(), path) {
            return Some(dirs[i - 1].size_bytes);
        }
        i = i - 1;
    }
    None
}

/// The directories that grew between two readings of a drive's top-level
/// directories: for each directory of `current` whose path `previous` holds
/// and whose size went up, its position in `current` and the growth.
pub fn hotspot_growths(previous: &Vec<DirInfo>, current: &Vec<DirInfo>) -> (r: Vec<(usize, u64)>)
    ensures
        r@ == growths(previous@, current@),
        forall|k: int|
            0 <= k < r@.len() ==> (#[trigger] r@[k]).0 < current@.len() && r@[k].1 > 0,
{
    let mut out: Vec<(usize, u64)> = Vec::new();
    let mut i: usize = 0;
    while i < current.len()
        invariant
            i <= current@.len(),
            out@ == growths(previous@, current@.take(i as int)),
            forall|k: int| 0 <= k < out@.len() ==> (#[trigger] out@[k]).0 < i && out@[k].1 > 0,
        decreases current.len() - i,
    {
        let ghost t = current@.take(i + 1);
        assert(t.drop_last() =~= current@.take(i as int));
        assert(t.last() == current@[i as int]);
        let d = &current[i];
        match find_last_size(previous, d.path.as_str()) {
            Some(old) => {
                if d.size_bytes > old {
                    out.push((i, d.size_bytes - old));
                }
            },
            None => {},
        }
        i = i + 1;
    }
    assert(current@.take(i as int) =~= current@);
    out
}

} // verus!
