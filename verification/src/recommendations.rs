//! Cleanup recommendations: the keys under which items, categories and paths
//! are compared, the tallies that weigh a category, and the pre-cleanup
//! selection taken from a ranked list.
use vstd::prelude::*;
use crate::cleaner::{CleanItem, CleanItemResult};
use crate::risk::{level_name, RiskLevel};
use crate::text::{
    ascii_lower, chars_of, concat3, contains_chars, has_sub, owned, replace, replace_char,
    str_eq, string_of, to_ascii_lower, to_lowercase, trim, trimmed, unicode_lower,
};

verus! {

/// The part of a ranked recommendation that names the item.
#[derive(Debug, Clone)]
pub struct RecommendationItem {
    pub name: String,
    pub path: String,
    pub category: String,
    pub size_bytes: u64,
    pub risk_level: String,
    pub safe_to_delete: bool,
}

// ── Keys ───────────────────────────────────────────────────

/// The category under which cleanups are counted: the trimmed, lower-cased
/// name, folded onto `cache`, `temp`, `logs` or `duplicates` where it mentions
/// one of them, and `unknown` where it is empty.
pub open spec fn category_key(category: Seq<char>) -> Seq<char> {
    let c = ascii_lower(trimmed(category));
    if has_sub(c, "cache"@) {
        "cache"@
    } else if has_sub(c, "temp"@) || has_sub(c, "tmp"@) {
        "temp"@
    } else if has_sub(c, "log"@) {
        "logs"@
    } else if has_sub(c, "duplicate"@) {
        "duplicates"@
    } else if c.len() == 0 {
        "unknown"@
    } else {
        c
    }
}

/// The category key of a cleanup category name.
pub fn normalize_category(category: &str) -> (r: String)
    ensures
        r@ == category_key(category@),
{
    let chars = chars_of(category);
    let t = trim(chars.as_slice());
    let c = to_ascii_lower(t.as_slice());
    let cache = chars_of("cache");
    if contains_chars(c.as_slice(), cache.as_slice()) {
        return owned("cache");
    }
    let temp = chars_of("temp");
    let tmp = chars_of("tmp");
    if contains_chars(c.as_slice(), temp.as_slice()) || contains_chars(c.as_slice(), tmp.as_slice()) {
        return owned("temp");
    }
    let log = chars_of("log");
    if contains_chars(c.as_slice(), log.as_slice()) {
        return owned("logs");
    }
    let duplicate = chars_of("duplicate");
    if contains_chars(c.as_slice(), duplicate.as_slice()) {
        return owned("duplicates");
    }
    if c.len() == 0 {
        return owned("unknown");
    }
    string_of(c.as_slice())
}

/// The category of a cleaned item, read from its folder and name together.
pub open spec fn inferred_category(path: Seq<char>, name: Seq<char>) -> Seq<char> {
    category_key(path + "\\"@ + name)
}

/// The category key of a cleaned item, from `path\name`.
pub fn infer_category(path: &str, name: &str) -> (r: String)
    ensures
        r@ == inferred_category(path@, name@),
{
    let joined = concat3(path, "\\", name);
    normalize_category(joined.as_str())
}

/// Trailing `\` and `/` removed.
pub open spec fn trim_end_seps(s: Seq<char>) -> Seq<char>
    decreases s.len(),
{
    if s.len() > 0 && (s.last() == '\\' || s.last() == '/') {
        trim_end_seps(s.drop_last())
    } else {
        s
    }
}

/// The key under which paths are compared: trimmed, without trailing
/// separators, with back slashes, in lower case.
pub open spec fn path_key(path: Seq<char>) -> Seq<char> {
    unicode_lower(replace_char(trim_end_seps(trimmed(path)), '/', '\\'))
}

pub(crate) fn without_trailing_seps(s: &[char]) -> (r: Vec<char>)
    ensures
        r@ == trim_end_seps(s@),
{
    let mut j: usize = s.len();
    assert(s@.take(j as int) =~= s@);
    while j > 0 && (s[j - 1] == '\\' || s[j - 1] == '/')
        invariant
            j <= s@.len(),
            trim_end_seps(s@) == trim_end_seps(s@.take(j as int)),
        decreases j,
    {
        assert(s@.take(j as int).drop_last() =~= s@.take(j - 1));
        j = j - 1;
    }
    let mut out: Vec<char> = Vec::new();
    let mut k: usize = 0;
    while k < j
        invariant
            k <= j <= s@.len(),
            out@ == s@.take(k as int),
        decreases j - k,
    {
        out.push(s[k]);
        assert(s@.take(k + 1) =~= s@.take(k as int).push(s@[k as int]));
        k = k + 1;
    }
    out
}

/// The comparison key of a path.
pub fn normalize_path_key(path: &str) -> (r: String)
    ensures
        r@ == path_key(path@),
{
    let chars = chars_of(path);
    let t = trim(chars.as_slice());
    let u = without_trailing_seps(t.as_slice());
    let v = replace(u.as_slice(), '/', '\\');
    let s = string_of(v.as_slice());
    to_lowercase(s.as_str())
}

/// The lower-case name of a risk level.
pub fn risk_level_to_string(level: &RiskLevel) -> (r: String)
    ensures
        r@ == level_name(*level),
{
    owned(level.as_str())
}

// ── Pre-cleanup selection ──────────────────────────────────

/// At most this many items are offered for cleanup before a scan.
pub const PRE_CLEANUP_LIMIT: usize = 20;

/// A ranked item that may be cleaned without review: marked safe and of low risk.
pub open spec fn low_and_safe(item: RecommendationItem) -> bool {
    item.safe_to_delete && item.risk_level@ == "low"@
}

/// The low-risk, safe items of a ranked list, in rank order.
pub open spec fn low_safe_items(s: Seq<RecommendationItem>) -> Seq<RecommendationItem>
    decreases s.len(),
{
    if s.len() == 0 {
        Seq::empty()
    } else {
        let r = low_safe_items(s.drop_last());
        if low_and_safe(s.last()) {
            r.push(s.last())
        } else {
            r
        }
    }
}

/// The cleanup entry for a recommended item.
pub open spec fn candidate_of(item: RecommendationItem) -> CleanItem {
    CleanItem {
        name: item.name,
        path: item.path,
        size_bytes: item.size_bytes,
        risk_level: RiskLevel::Low,
        safe_to_delete: true,
    }
}

pub open spec fn min_nat(a: nat, b: nat) -> nat {
    if a <= b {
        a
    } else {
        b
    }
}

/// The cleanup candidates of a ranked recommendation list: the first twenty
/// items, in rank order, that are marked safe and of low risk.
pub fn get_pre_cleanup_candidates(ranked: &Vec<RecommendationItem>) -> (r: Vec<CleanItem>)
    ensures
        r@.len() == min_nat(PRE_CLEANUP_LIMIT as nat, low_safe_items(ranked@).len()),
        forall|i: int| 0 <= i < r@.len() ==> #[trigger] r@[i] == candidate_of(low_safe_items(ranked@)[i]),
{
    let mut out: Vec<CleanItem> = Vec::new();
    let mut i: usize = 0;
    while i < ranked.len()
        invariant
            i <= ranked@.len(),
            out@.len() == min_nat(PRE_CLEANUP_LIMIT as nat, low_safe_items(ranked@.take(i as int)).len()),
            forall|k: int| 0 <= k < out@.len() ==> #[trigger] out@[k] == candidate_of(
                low_safe_items(ranked@.take(i as int))[k],
            ),
        decreases ranked.len() - i,
    {
        let item = &ranked[i];
        let ghost before = low_safe_items(ranked@.take(i as int));
        assert(ranked@.take(i + 1).drop_last() =~= ranked@.take(i as int));
        assert(ranked@.take(i + 1).last() == ranked@[i as int]);
        let low = str_eq(item.risk_level.as_str(), "low");
        if item.safe_to_delete && low && out.len() < PRE_CLEANUP_LIMIT {
            out.push(CleanItem {
                name: item.name.clone(),
                path: item.path.clone(),
                size_bytes: item.size_bytes,
                risk_level: RiskLevel::Low,
                safe_to_delete: true,
            });
            assert(low_safe_items(ranked@.take(i + 1)) == before.push(ranked@[i as int]));
        }
        i = i + 1;
    }
    assert(ranked@.take(ranked@.len() as int) =~= ranked@);
    out
}

// ── Category tallies ───────────────────────────────────────

/// How often `k` occurs in `s`.
pub open spec fn occurrences(s: Seq<Seq<char>>, k: Seq<char>) -> nat
    decreases s.len(),
{
    if s.len() == 0 {
        0
    } else {
        occurrences(s.drop_last(), k) + if s.last() == k {
            1nat
        } else {
            0nat
        }
    }
}

/// The categories of cleaned items, in order.
pub open spec fn categories_of(items: Seq<CleanItemResult>) -> Seq<Seq<char>> {
    items.map_values(|it: CleanItemResult| inferred_category(it.path@, it.name@))
}

/// `t` counts the values of `s`: each value once, with how often it occurs.
pub open spec fn is_tally(t: Seq<(String, usize)>, s: Seq<Seq<char>>) -> bool {
    &&& forall|a: int, b: int| 0 <= a < b < t.len() ==> t[a].0@ != t[b].0@
    &&& forall|a: int|
        0 <= a < t.len() ==> (#[trigger] t[a]).1 == occurrences(s, t[a].0@) && t[a].1 > 0
    &&& forall|i: int| 0 <= i < s.len() ==> exists|a: int| 0 <= a < t.len() && t[a].0@ == #[trigger] s[i]
}

proof fn lemma_occurrences_absent(s: Seq<Seq<char>>, k: Seq<char>)
    requires
        forall|i: int| 0 <= i < s.len() ==> s[i] != k,
    ensures
        occurrences(s, k) == 0,
    decreases s.len(),
{
    if s.len() > 0 {
        lemma_occurrences_absent(s.drop_last(), k);
    }
}

proof fn lemma_occurrences_bound(s: Seq<Seq<char>>, k: Seq<char>)
    ensures
        occurrences(s, k) <= s.len(),
    decreases s.len(),
{
    if s.len() > 0 {
        lemma_occurrences_bound(s.drop_last(), k);
    }
}

/// How many cleaned items fell under each category, each category listed once
/// in the order of its first item.
pub fn category_counts(items: &Vec<CleanItemResult>) -> (r: Vec<(String, usize)>)
    ensures
        is_tally(r@, categories_of(items@)),
{
    let ghost cats = categories_of(items@);
    let mut tally: Vec<(String, usize)> = Vec::new();
    let mut i: usize = 0;
    while i < items.len()
        invariant
            i <= items@.len(),
            cats == categories_of(items@),
            is_tally(tally@, cats.take(i as int)),
        decreases items.len() - i,
    {
        let cat = infer_category(items[i].path.as_str(), items[i].name.as_str());
        let ghost prev = cats.take(i as int);
        let ghost next = cats.take(i + 1);
        assert(cat@ == cats[i as int]);
        assert(next.drop_last() =~= prev);
        assert(next.last() == cat@);
        assert forall|t: int| 0 <= t < prev.len() implies next[t] == prev[t] by {}
        let mut j: usize = 0;
        let mut found = false;
        while j < tally.len()
            invariant_except_break
                j <= tally@.len(),
                !found,
                forall|b: int| 0 <= b < j ==> tally@[b].0@ != cat@,
            ensures
                found ==> j < tally@.len() && tally@[j as int].0@ == cat@,
                !found ==> forall|b: int| 0 <= b < tally@.len() ==> tally@[b].0@ != cat@,
            decreases tally.len() - j,
        {
            if str_eq(tally[j].0.as_str(), cat.as_str()) {
                found = true;
                break;
            }
            j = j + 1;
        }
        if found {
            let n = tally[j].1;
            proof {
                lemma_occurrences_bound(prev, cat@);
            }
            let ghost old = tally@;
            tally.set(j, (cat, n + 1));
            assert forall|a: int| 0 <= a < tally@.len() implies (#[trigger] tally@[a]).1
                == occurrences(next, tally@[a].0@) && tally@[a].1 > 0 by {
                if a != j {
                    assert(old[a].0@ != old[j as int].0@ || a == j);
                }
            }
            assert forall|t: int| 0 <= t < next.len() implies exists|a: int|
                0 <= a < tally@.len() && tally@[a].0@ == #[trigger] next[t] by {
                if t < prev.len() {
                    assert(prev[t] == next[t]);
                    let a = choose|a: int| 0 <= a < old.len() && old[a].0@ == prev[t];
                    assert(tally@[a].0@ == old[a].0@);
                } else {
                    assert(tally@[j as int].0@ == next[t]);
                }
            }
        } else {
            proof {
                assert forall|t: int| 0 <= t < prev.len() implies prev[t] != cat@ by {
                    if prev[t] == cat@ {
                        let a = choose|a: int| 0 <= a < tally@.len() && tally@[a].0@ == prev[t];
                        assert(tally@[a].0@ != cat@);
                    }
                }
                lemma_occurrences_absent(prev, cat@);
            }
            let ghost old = tally@;
            tally.push((cat, 1));
            assert forall|a: int| 0 <= a < tally@.len() implies (#[trigger] tally@[a]).1
                == occurrences(next, tally@[a].0@) && tally@[a].1 > 0 by {
                if a < old.len() {
                    assert(old[a] == tally@[a]);
                }
            }
            assert forall|t: int| 0 <= t < next.len() implies exists|a: int|
                0 <= a < tally@.len() && tally@[a].0@ == #[trigger] next[t] by {
                if t < prev.len() {
                    assert(prev[t] == next[t]);
                    let a = choose|a: int| 0 <= a < old.len() && old[a].0@ == prev[t];
                    assert(tally@[a] == old[a]);
                } else {
                    assert(tally@[old.len() as int].0@ == next[t]);
                }
            }
        }
        i = i + 1;
    }
    assert(cats.take(items@.len() as int) =~= cats);
    tally
}

// ── Per-path maps ──────────────────────────────────────────

/// The first position of a key among the keys of a map held as a list.
pub open spec fn key_index<V>(m: Seq<(String, V)>, k: Seq<char>) -> Option<int>
    decreases m.len(),
{
    if m.len() == 0 {
        None
    } else {
        match key_index(m.drop_last(), k) {
            Some(i) => Some(i),
            None => if m.last().0@ == k {
                Some(m.len() - 1)
            } else {
                None
            },
        }
    }
}

proof fn lemma_key_index<V>(m: Seq<(String, V)>, k: Seq<char>, i: int)
    requires
        0 <= i <= m.len(),
        forall|j: int| 0 <= j < i ==> (#[trigger] m[j]).0@ != k,
        i < m.len() ==> m[i].0@ == k,
    ensures
        key_index(m, k) == if i < m.len() {
            Some(i)
        } else {
            None::<int>
        },
    decreases m.len(),
{
    if m.len() > 0 {
        let d = m.drop_last();
        if i < m.len() - 1 {
            assert(d[i] == m[i]);
            assert forall|j: int| 0 <= j < i implies (#[trigger] d[j]).0@ != k by {
                assert(d[j] == m[j]);
            }
            lemma_key_index(d, k, i);
        } else {
            assert forall|j: int| 0 <= j < d.len() implies (#[trigger] d[j]).0@ != k by {
                assert(d[j] == m[j]);
            }
            lemma_key_index(d, k, d.len() as int);
        }
    }
}

fn find_key<V>(m: &Vec<(String, V)>, k: &str) -> (r: Option<usize>)
    ensures
        match r {
            Some(i) => key_index(m@, k@) == Some(i as int) && i < m@.len(),
            None => key_index(m@, k@) is None,
        },
{
    let mut i: usize = 0;
    while i < m.len()
        invariant
            i <= m@.len(),
            forall|j: int| 0 <= j < i ==> (#[trigger] m@[j]).0@ != k@,
        decreases m.len() - i,
    {
        if str_eq(m[i].0.as_str(), k) {
            proof {
                lemma_key_index(m@, k@, i as int);
            }
            return Some(i);
        }
        i = i + 1;
    }
    proof {
        lemma_key_index(m@, k@, i as int);
    }
    None
}

/// The age map after a file's age: under the file's path key, the larger of
/// the recorded age and this one; nothing for a path whose key is empty.
pub open spec fn with_max_age(m: Seq<(String, u64)>, key: String, age: u64) -> Seq<(String, u64)> {
    if key@.len() == 0 {
        m
    } else {
        match key_index(m, key@) {
            Some(i) => m.update(i, (m[i].0, if m[i].1 >= age { m[i].1 } else { age })),
            None => m.push((key, age)),
        }
    }
}

/// Record an age under a path's key, keeping the largest age seen.
pub fn insert_max_age(age_map: &mut Vec<(String, u64)>, path: &str, age_days: u64)
    ensures
        exists|key: String| key@ == path_key(path@) && final(age_map)@ == with_max_age(old(age_map)@, key, age_days),
{
    let key = normalize_path_key(path);
    let key_chars = chars_of(key.as_str());
    if key_chars.len() == 0 {
        assert(final(age_map)@ == with_max_age(old(age_map)@, key, age_days));
        return;
    }
    let ghost k = key;
    match find_key(age_map, key.as_str()) {
        Some(i) => {
            if age_map[i].1 < age_days {
                let name = age_map[i].0.clone();
                age_map.set(i, (name, age_days));
            } else {
                assert(age_map@ =~= age_map@.update(i as int, (age_map@[i as int].0, age_map@[i as int].1)));
            }
        },
        None => {
            age_map.push((key, age_days));
        },
    }
    assert(age_map@ == with_max_age(old(age_map)@, k, age_days));
}

/// A detector's hit on a path key: counted once more, at most four.
pub open spec fn bumped(m: Seq<(String, u8)>, key: String) -> Seq<(String, u8)> {
    match key_index(m, key@) {
        Some(i) => m.update(i, (m[i].0, if m[i].1 >= 3 { 4u8 } else { (m[i].1 + 1) as u8 })),
        None => m.push((key, 1u8)),
    }
}

/// The hits after a detector's keys, in order.
pub open spec fn bumped_all(m: Seq<(String, u8)>, keys: Seq<String>) -> Seq<(String, u8)>
    decreases keys.len(),
{
    if keys.len() == 0 {
        m
    } else {
        bumped(bumped_all(m, keys.drop_last()), keys.last())
    }
}

/// Count one detector's hits: every path key it reports gains one hit, up
/// to four per key. The keys are those of a set: a key listed twice gains
/// two hits.
pub fn merge_detector_source(hits: &mut Vec<(String, u8)>, source: &Vec<String>)
    ensures
        final(hits)@ == bumped_all(old(hits)@, source@),
{
    let ghost start = hits@;
    let mut i: usize = 0;
    while i < source.len()
        invariant
            i <= source@.len(),
            hits@ == bumped_all(start, source@.take(i as int)),
        decreases source.len() - i,
    {
        assert(source@.take(i + 1).drop_last() =~= source@.take(i as int));
        let key = source[i].clone();
        let ghost before = hits@;
        match find_key(hits, key.as_str()) {
            Some(k) => {
                let count = hits[k].1;
                let name = hits[k].0.clone();
                let next: u8 = if count >= 3 { 4 } else { count + 1 };
                hits.set(k, (name, next));
            },
            None => {
                hits.push((key, 1));
            },
        }
        assert(hits@ == bumped(before, source@[i as int]));
        i = i + 1;
    }
    assert(source@.take(source@.len() as int) =~= source@);
}

/// The detectors counted for an item: those recorded for its path (one
/// where none is), and at least two where its age or fragmentation
/// corroborates it.
pub fn detector_hit_count(recorded: Option<u8>, corroborated: bool) -> (r: u8)
    ensures
        r == ({
            let base: u8 = match recorded {
                Some(n) => n,
                None => 1u8,
            };
            let floor: u8 = if corroborated { 2u8 } else { 1u8 };
            if base >= floor { base } else { floor }
        }),
{
    let base: u8 = match recorded {
        Some(n) => n,
        None => 1,
    };
    let floor: u8 = if corroborated { 2 } else { 1 };
    if base >= floor {
        base
    } else {
        floor
    }
}

/// The bytes a recommendation is expected to free: its duplicate waste, or
/// its whole size where it is safe to delete, whichever is more.
pub fn recommendation_estimate(duplicate_waste_bytes: u64, size_bytes: u64, safe_to_delete: bool) -> (r: u64)
    ensures
        r == ({
            let whole: u64 = if safe_to_delete { size_bytes } else { 0u64 };
            if duplicate_waste_bytes >= whole { duplicate_waste_bytes } else { whole }
        }),
{
    let whole: u64 = if safe_to_delete { size_bytes } else { 0 };
    if duplicate_waste_bytes >= whole {
        duplicate_waste_bytes
    } else {
        whole
    }
}

/// What a recommendation offers: a cleanup preview for an item safe to
/// delete, else a review.
pub fn recommendation_action(safe_to_delete: bool) -> (r: String)
    ensures
        r@ == (if safe_to_delete { "preview_cleanup"@ } else { "review"@ }),
{
    if safe_to_delete {
        owned("preview_cleanup")
    } else {
        owned("review")
    }
}

} // verus!
