//! The large-file finder's selection: candidates at or above a minimum size
//! are kept in a list of bounded length, largest first, so that after every
//! candidate the list holds the largest ones seen.
use vstd::prelude::*;
use crate::order::{lemma_text_le_total, text_le, text_less_eq};
use crate::scanner::{missing_drive_error, missing_drive_message, FileEntry};
use crate::text::{owned, str_eq};

verus! {

// ── The order of file entries ──────────────────────────────

/// `None` sorts before any size on disk.
pub open spec fn opt_lt(a: Option<u64>, b: Option<u64>) -> bool {
    match (a, b) {
        (None, Some(_)) => true,
        (Some(x), Some(y)) => x < y,
        _ => false,
    }
}

/// `a` sorts at or below `b`: by size, then modification time, hard-link
/// count, size on disk, path and name.
pub open spec fn file_le(a: FileEntry, b: FileEntry) -> bool {
    if a.size_bytes != b.size_bytes {
        a.size_bytes < b.size_bytes
    } else if a.modified_epoch_ms != b.modified_epoch_ms {
        a.modified_epoch_ms < b.modified_epoch_ms
    } else if a.hard_link_count != b.hard_link_count {
        a.hard_link_count < b.hard_link_count
    } else if a.size_on_disk_bytes != b.size_on_disk_bytes {
        opt_lt(a.size_on_disk_bytes, b.size_on_disk_bytes)
    } else if a.path@ != b.path@ {
        text_le(a.path@, b.path@)
    } else {
        text_le(a.name@, b.name@)
    }
}

proof fn lemma_text_le_refl(a: Seq<char>)
    ensures
        text_le(a, a),
    decreases a.len(),
{
    if a.len() > 0 {
        lemma_text_le_refl(a.drop_first());
    }
}

proof fn lemma_text_le_antisym(a: Seq<char>, b: Seq<char>)
    requires
        text_le(a, b),
        text_le(b, a),
    ensures
        a == b,
    decreases a.len(),
{
    if a.len() == 0 {
        assert(b.len() == 0);
        assert(a =~= b);
    } else {
        assert(b.len() > 0);
        if a[0] != b[0] {
            assert(false);
        }
        lemma_text_le_antisym(a.drop_first(), b.drop_first());
        assert(a =~= seq![a[0]] + a.drop_first());
        assert(b =~= seq![b[0]] + b.drop_first());
    }
}

proof fn lemma_text_le_trans(a: Seq<char>, b: Seq<char>, c: Seq<char>)
    requires
        text_le(a, b),
        text_le(b, c),
    ensures
        text_le(a, c),
    decreases a.len(),
{
    if a.len() > 0 && b.len() > 0 && c.len() > 0 {
        if a[0] == b[0] && b[0] == c[0] {
            lemma_text_le_trans(a.drop_first(), b.drop_first(), c.drop_first());
        } else {
            let x = a[0];
            let y = b[0];
            let z = c[0];
            vstd::utf8::char_u32_cast(x, x as u32);
            vstd::utf8::char_u32_cast(y, y as u32);
            vstd::utf8::char_u32_cast(z, z as u32);
        }
    }
}

/// The large-file order is total.
pub proof fn lemma_file_le_total(a: FileEntry, b: FileEntry)
    ensures
        file_le(a, b) || file_le(b, a),
{
    lemma_text_le_total(a.path@, b.path@);
    lemma_text_le_total(a.name@, b.name@);
}

/// The large-file order is transitive.
pub proof fn lemma_file_le_trans(a: FileEntry, b: FileEntry, c: FileEntry)
    requires
        file_le(a, b),
        file_le(b, c),
    ensures
        file_le(a, c),
{
    if a.path@ != b.path@ && text_le(a.path@, b.path@) && text_le(b.path@, a.path@) {
        lemma_text_le_antisym(a.path@, b.path@);
    }
    if b.path@ != c.path@ && text_le(b.path@, c.path@) && text_le(c.path@, b.path@) {
        lemma_text_le_antisym(b.path@, c.path@);
    }
    if a.path@ != c.path@ && text_le(a.path@, c.path@) && text_le(c.path@, a.path@) {
        lemma_text_le_antisym(a.path@, c.path@);
    }
    if text_le(a.path@, b.path@) && text_le(b.path@, c.path@) {
        lemma_text_le_trans(a.path@, b.path@, c.path@);
    }
    if text_le(a.name@, b.name@) && text_le(b.name@, c.name@) {
        lemma_text_le_trans(a.name@, b.name@, c.name@);
    }
    if text_le(a.path@, c.path@) && text_le(c.path@, a.path@) {
        lemma_text_le_antisym(a.path@, c.path@);
    }
    if text_le(a.path@, b.path@) && text_le(b.path@, c.path@) && text_le(c.path@, a.path@) {
        lemma_text_le_trans(c.path@, a.path@, b.path@);
        lemma_text_le_antisym(b.path@, c.path@);
        lemma_text_le_antisym(a.path@, b.path@);
    }
}

/// The large-file order on two entries.
pub fn file_at_most(a: &FileEntry, b: &FileEntry) -> (r: bool)
    ensures
        r == file_le(*a, *b),
{
    if a.size_bytes != b.size_bytes {
        return a.size_bytes < b.size_bytes;
    }
    if a.modified_epoch_ms != b.modified_epoch_ms {
        return a.modified_epoch_ms < b.modified_epoch_ms;
    }
    if a.hard_link_count != b.hard_link_count {
        return a.hard_link_count < b.hard_link_count;
    }
    match (a.size_on_disk_bytes, b.size_on_disk_bytes) {
        (None, Some(_)) => {
            return true;
        },
        (Some(_), None) => {
            return false;
        },
        (Some(x), Some(y)) => {
            if x != y {
                return x < y;
            }
        },
        (None, None) => {},
    }
    if !str_eq(a.path.as_str(), b.path.as_str()) {
        return text_less_eq(a.path.as_str(), b.path.as_str());
    }
    text_less_eq(a.name.as_str(), b.name.as_str())
}

// ── The bounded list ───────────────────────────────────────

/// Largest first.
pub open spec fn sorted_desc(s: Seq<FileEntry>) -> bool {
    forall|i: int, j: int| 0 <= i < j < s.len() ==> file_le(#[trigger] s[j], #[trigger] s[i])
}

/// Where a candidate goes in a list sorted largest first: after every entry
/// at or above it.
pub open spec fn insert_pos(s: Seq<FileEntry>, c: FileEntry) -> nat
    decreases s.len(),
{
    if s.len() == 0 {
        0
    } else if file_le(c, s[0]) {
        1 + insert_pos(s.drop_first(), c)
    } else {
        0
    }
}

proof fn lemma_insert_pos(s: Seq<FileEntry>, c: FileEntry)
    ensures
        insert_pos(s, c) <= s.len(),
        forall|i: int| 0 <= i < insert_pos(s, c) ==> file_le(c, #[trigger] s[i]),
        insert_pos(s, c) < s.len() ==> !file_le(c, s[insert_pos(s, c) as int]),
    decreases s.len(),
{
    if s.len() > 0 && file_le(c, s[0]) {
        let t = s.drop_first();
        lemma_insert_pos(t, c);
        assert forall|i: int| 0 <= i < insert_pos(s, c) implies file_le(c, #[trigger] s[i]) by {
            if i > 0 {
                assert(s[i] == t[i - 1]);
            }
        }
    }
}

/// Any position with the two properties of `insert_pos` is that position.
proof fn lemma_insert_pos_unique(s: Seq<FileEntry>, c: FileEntry, q: int)
    requires
        0 <= q <= s.len(),
        forall|i: int| 0 <= i < q ==> file_le(c, #[trigger] s[i]),
        q < s.len() ==> !file_le(c, s[q]),
    ensures
        insert_pos(s, c) == q,
{
    lemma_insert_pos(s, c);
    let p = insert_pos(s, c) as int;
    if p < q {
        assert(file_le(c, s[p]));
    }
    if q < p {
        assert(file_le(c, s[q]));
    }
}

/// The list with the candidate in its place.
pub open spec fn with_inserted(s: Seq<FileEntry>, c: FileEntry) -> Seq<FileEntry> {
    s.insert(insert_pos(s, c) as int, c)
}

pub open spec fn min_nat(a: nat, b: nat) -> nat {
    if a <= b {
        a
    } else {
        b
    }
}

/// The list after one candidate: unchanged when the candidate is below the
/// minimum size, else with the candidate in its place and cut to `limit`.
pub open spec fn pushed(t: Seq<FileEntry>, c: FileEntry, min_size: u64, limit: nat) -> Seq<FileEntry> {
    if c.size_bytes < min_size {
        t
    } else {
        with_inserted(t, c).take(min_nat(limit, t.len() + 1) as int)
    }
}

proof fn lemma_inserted_sorted(s: Seq<FileEntry>, c: FileEntry)
    requires
        sorted_desc(s),
    ensures
        sorted_desc(with_inserted(s, c)),
{
    lemma_insert_pos(s, c);
    let p = insert_pos(s, c) as int;
    let r = with_inserted(s, c);
    assert forall|i: int, j: int| 0 <= i < j < r.len() implies file_le(#[trigger] r[j], #[trigger] r[i]) by {
        if j < p {
            assert(r[i] == s[i] && r[j] == s[j]);
        } else if j == p {
            assert(r[i] == s[i] && r[j] == c);
        } else if i < p {
            assert(r[i] == s[i] && r[j] == s[j - 1]);
            assert(file_le(c, s[i]));
            lemma_file_le_total(c, s[p]);
            if j - 1 > p {
                lemma_file_le_trans(s[j - 1], s[p], c);
            }
            lemma_file_le_trans(s[j - 1], c, s[i]);
        } else if i == p {
            assert(r[i] == c && r[j] == s[j - 1]);
            lemma_file_le_total(c, s[p]);
            if j - 1 > p {
                lemma_file_le_trans(s[j - 1], s[p], c);
            }
        } else {
            assert(r[i] == s[i - 1] && r[j] == s[j - 1]);
        }
    }
}

proof fn lemma_take_sorted(s: Seq<FileEntry>, n: int)
    requires
        sorted_desc(s),
        0 <= n <= s.len(),
    ensures
        sorted_desc(s.take(n)),
{
    assert forall|i: int, j: int| 0 <= i < j < s.take(n).len() implies file_le(
        #[trigger] s.take(n)[j],
        #[trigger] s.take(n)[i],
    ) by {
        assert(s.take(n)[i] == s[i] && s.take(n)[j] == s[j]);
    }
}

/// Offer one candidate to the list of the largest files seen: one below
/// `min_size` is ignored; else it goes after every entry at or above it, and
/// the smallest entry leaves when the list would exceed `limit`.
pub fn push_file_candidate(top: &mut Vec<FileEntry>, candidate: FileEntry, min_size: u64, limit: usize)
    requires
        sorted_desc(old(top)@),
        old(top)@.len() <= limit,
    ensures
        final(top)@ == pushed(old(top)@, candidate, min_size, limit as nat),
        sorted_desc(final(top)@),
        final(top)@.len() <= limit,
{
    if candidate.size_bytes < min_size {
        return;
    }
    let ghost before = top@;
    let mut p: usize = 0;
    while p < top.len() && file_at_most(&candidate, &top[p])
        invariant
            top@ == before,
            p <= top@.len(),
            forall|i: int| 0 <= i < p ==> file_le(candidate, #[trigger] before[i]),
        decreases top.len() - p,
    {
        p = p + 1;
    }
    proof {
        lemma_insert_pos_unique(before, candidate, p as int);
        lemma_inserted_sorted(before, candidate);
    }
    top.insert(p, candidate);
    assert(top@ == with_inserted(before, candidate));
    if top.len() > limit {
        let _ = top.pop();
        assert(top@ =~= with_inserted(before, candidate).take(limit as int));
    } else {
        assert(top@ =~= with_inserted(before, candidate).take(top@.len() as int));
    }
    proof {
        lemma_take_sorted(with_inserted(before, candidate), top@.len() as int);
    }
}

// ── What the list holds ────────────────────────────────────

/// `srt` is `seen` sorted largest first.
pub open spec fn is_desc_sort_of(srt: Seq<FileEntry>, seen: Seq<FileEntry>) -> bool {
    sorted_desc(srt) && srt.to_multiset() == seen.to_multiset()
}

/// `t` holds the `limit` largest of `seen`, largest first: it is how a sorted
/// copy of `seen` begins.
pub open spec fn holds_largest(t: Seq<FileEntry>, seen: Seq<FileEntry>, limit: nat) -> bool {
    exists|srt: Seq<FileEntry>|
        #![trigger is_desc_sort_of(srt, seen)]
        is_desc_sort_of(srt, seen) && t == srt.take(min_nat(limit, seen.len()) as int)
}

/// The candidates that reach the minimum size, in order.
pub open spec fn admitted(seen: Seq<FileEntry>, min_size: u64) -> Seq<FileEntry> {
    seen.filter(|f: FileEntry| f.size_bytes >= min_size)
}

/// Offering the candidates one by one keeps the largest: when the list holds
/// the `limit` largest of the candidates admitted so far, it holds the `limit`
/// largest of those and the next candidate after it is offered (the candidate
/// counts only when it reaches the minimum size).
pub proof fn law_push_keeps_largest(
    t: Seq<FileEntry>,
    seen: Seq<FileEntry>,
    c: FileEntry,
    min_size: u64,
    limit: nat,
)
    requires
        holds_largest(t, seen, limit),
    ensures
        holds_largest(
            pushed(t, c, min_size, limit),
            if c.size_bytes >= min_size {
                seen.push(c)
            } else {
                seen
            },
            limit,
        ),
{
    if c.size_bytes >= min_size {
        let srt = choose|srt: Seq<FileEntry>|
            #![trigger is_desc_sort_of(srt, seen)]
            is_desc_sort_of(srt, seen) && t == srt.take(min_nat(limit, seen.len()) as int);
        let n = seen.len();
        assert(srt.len() == n) by {
            broadcast use vstd::seq_lib::group_to_multiset_ensures;
            assert(srt.to_multiset().len() == seen.to_multiset().len());
        }
        let m = min_nat(limit, n) as int;
        let seen2 = seen.push(c);
        let q = insert_pos(srt, c) as int;
        let srt2 = with_inserted(srt, c);
        lemma_insert_pos(srt, c);
        lemma_insert_pos(t, c);
        lemma_inserted_sorted(srt, c);
        assert(srt2.to_multiset() == seen2.to_multiset()) by {
            broadcast use vstd::seq_lib::group_to_multiset_ensures;
        }
        let p = insert_pos(t, c) as int;
        if p < m {
            assert forall|i: int| 0 <= i < p implies file_le(c, #[trigger] srt[i]) by {
                assert(srt[i] == t[i]);
            }
            assert(srt[p] == t[p]);
            lemma_insert_pos_unique(srt, c, p);
        } else {
            if q < m {
                assert(srt[q] == t[q]);
                assert(file_le(c, t[q]));
            }
        }
        let new_t = pushed(t, c, min_size, limit);
        let len2 = min_nat(limit, seen2.len()) as int;
        assert(new_t =~= srt2.take(len2));
        assert(is_desc_sort_of(srt2, seen2));
    }
}

proof fn lemma_holds_largest_shape(t: Seq<FileEntry>, seen: Seq<FileEntry>, limit: nat)
    requires
        holds_largest(t, seen, limit),
    ensures
        sorted_desc(t),
        t.len() <= limit,
{
    let srt = choose|srt: Seq<FileEntry>|
        #![trigger is_desc_sort_of(srt, seen)]
        is_desc_sort_of(srt, seen) && t == srt.take(min_nat(limit, seen.len()) as int);
    assert(srt.len() == seen.len()) by {
        broadcast use vstd::seq_lib::group_to_multiset_ensures;
        assert(srt.to_multiset().len() == seen.to_multiset().len());
    }
    lemma_take_sorted(srt, min_nat(limit, seen.len()) as int);
}

proof fn lemma_admitted_push(seen: Seq<FileEntry>, c: FileEntry, min_size: u64)
    ensures
        admitted(seen.push(c), min_size) == if c.size_bytes >= min_size {
            admitted(seen, min_size).push(c)
        } else {
            admitted(seen, min_size)
        },
{
    reveal(Seq::filter);
    assert(seen.push(c).drop_last() =~= seen);
}

/// The message of a cancelled large-file scan.
pub open spec fn large_scan_cancelled_message() -> Seq<char> {
    "Large file scan cancelled"@
}

/// The largest files of a drive, largest first, from the files found on it.
///
/// `drive_exists` is what the file system reported for the drive root,
/// `candidates` the files found under it in walking order, and `cancelled`
/// whether the walk was cancelled.
pub fn find_large_files_with_progress_and_cancel(
    drive_letter: &str,
    drive_exists: bool,
    min_size: u64,
    limit: usize,
    candidates: Vec<FileEntry>,
    cancelled: bool,
) -> (r: Result<Vec<FileEntry>, String>)
    ensures
        !drive_exists ==> (r matches Err(e) && e@ == missing_drive_message(drive_letter@)),
        drive_exists && limit == 0 ==> (r matches Ok(v) && v@.len() == 0),
        drive_exists && limit > 0 && cancelled ==> (r matches Err(e) && e@
            == large_scan_cancelled_message()),
        drive_exists && limit > 0 && !cancelled ==> (r matches Ok(v) && holds_largest(
            v@,
            admitted(candidates@, min_size),
            limit as nat,
        )),
{
    if !drive_exists {
        return Err(missing_drive_error(drive_letter));
    }
    if limit == 0 {
        return Ok(Vec::new());
    }
    if cancelled {
        return Err(owned("Large file scan cancelled"));
    }
    let mut top: Vec<FileEntry> = Vec::new();
    proof {
        let e = Seq::<FileEntry>::empty();
        assert(admitted(candidates@.take(0), min_size) =~= e) by {
            reveal(Seq::filter);
        }
        assert(is_desc_sort_of(e, e));
        assert(top@ =~= e.take(0));
    }
    let mut i: usize = 0;
    while i < candidates.len()
        invariant
            i <= candidates@.len(),
            holds_largest(top@, admitted(candidates@.take(i as int), min_size), limit as nat),
        decreases candidates.len() - i,
    {
        let c = candidates[i].copied();
        let ghost seen = admitted(candidates@.take(i as int), min_size);
        let ghost before = top@;
        proof {
            lemma_holds_largest_shape(before, seen, limit as nat);
        }
        push_file_candidate(&mut top, c, min_size, limit);
        proof {
            law_push_keeps_largest(before, seen, c, min_size, limit as nat);
            assert(candidates@.take(i + 1) =~= candidates@.take(i as int).push(c));
            lemma_admitted_push(candidates@.take(i as int), c, min_size);
        }
        i = i + 1;
    }
    assert(candidates@.take(candidates@.len() as int) =~= candidates@);
    Ok(top)
}

} // verus!
