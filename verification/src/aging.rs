//! File aging: how much data was last modified in each age range, which
//! files have not been accessed for a long time, and where recent writes
//! concentrate.
use vstd::prelude::*;
use crate::order::{adjacent_text, is_index_perm, is_stable_order, stable_order, string_views, text_order};
use crate::scanner::FileEntry;
use crate::text::{concat3, owned, str_eq, to_uppercase, unicode_upper};

verus! {

pub const DAY_SECONDS: u64 = 86400;

pub const ZOMBIE_THRESHOLD_DAYS: u64 = 180;

pub const HOTSPOT_THRESHOLD_DAYS: u64 = 30;

#[derive(Debug, Clone)]
pub struct AgeBucket {
    pub id: String,
    pub label: String,
    pub min_days: u64,
    pub max_days: Option<u64>,
    pub total_bytes: u64,
    pub file_count: usize,
}

#[derive(Debug, Clone)]
pub struct Hotspot {
    pub path: String,
    pub recent_bytes: u64,
    pub file_count: usize,
}

#[derive(Debug, Clone)]
pub struct FileAge {
    pub path: String,
    pub age_days: u64,
}

#[derive(Debug, Clone)]
pub struct AgingReport {
    pub drive_letter: String,
    pub buckets: Vec<AgeBucket>,
    pub zombies_total_size: u64,
    pub zombie_files: Vec<FileEntry>,
    pub hotspots: Vec<Hotspot>,
    pub file_ages: Vec<FileAge>,
}

#[derive(Debug, Clone)]
pub struct AgingScanProgress {
    pub drive_letter: String,
    pub files_processed: usize,
    pub buckets: Vec<AgeBucket>,
    pub current_path: Option<String>,
}

/// The times of a file, in seconds since the Unix epoch.
#[derive(Debug, Clone)]
pub struct FileTimeRecord {
    pub path: String,
    pub size_bytes: u64,
    pub created: u64,
    pub modified: u64,
    pub accessed: u64,
}

/// Whole days from `then` to `now`; zero when `then` is later.
pub open spec fn age_days_of(now: u64, then: u64) -> u64 {
    if now >= then { ((now - then) / (DAY_SECONDS as int)) as u64 } else { 0 }
}

pub fn age_days(now: u64, then: u64) -> (r: u64)
    ensures
        r == age_days_of(now, then),
{
    if now >= then {
        (now - then) / DAY_SECONDS
    } else {
        0
    }
}

impl FileTimeRecord {
    /// A file is a zombie when it was last accessed at least
    /// `threshold_days` days before `now`.
    pub fn is_zombie(&self, now: u64, threshold_days: u64) -> (r: bool)
        ensures
            r == (age_days_of(now, self.accessed) >= threshold_days),
    {
        age_days(now, self.accessed) >= threshold_days
    }
}

/// The position of the age range that `days` falls in.
pub open spec fn bucket_index(days: u64) -> int {
    if days <= 6 {
        0
    } else if days <= 30 {
        1
    } else if days <= 90 {
        2
    } else if days <= 180 {
        3
    } else if days <= 365 {
        4
    } else if days <= 1095 {
        5
    } else {
        6
    }
}

/// The identifier, label and day range of each age range.
pub open spec fn bucket_row(i: int) -> (Seq<char>, Seq<char>, u64, Option<u64>) {
    if i == 0 {
        ("lt_7d"@, "<7d"@, 0, Some(6u64))
    } else if i == 1 {
        ("d7_30"@, "7-30d"@, 7, Some(30u64))
    } else if i == 2 {
        ("m1_3"@, "1-3mo"@, 31, Some(90u64))
    } else if i == 3 {
        ("m3_6"@, "3-6mo"@, 91, Some(180u64))
    } else if i == 4 {
        ("m6_12"@, "6-12mo"@, 181, Some(365u64))
    } else if i == 5 {
        ("y1_3"@, "1-3yr"@, 366, Some(1095u64))
    } else {
        ("gt_3y"@, ">3yr"@, 1096, None)
    }
}

/// The buckets are the seven age ranges, in order.
pub open spec fn buckets_shaped(b: Seq<AgeBucket>) -> bool {
    &&& b.len() == 7
    &&& forall|i: int|
        0 <= i < 7 ==> {
            let (id, label, lo, hi) = bucket_row(i);
            &&& (#[trigger] b[i]).id@ == id
            &&& b[i].label@ == label
            &&& b[i].min_days == lo
            &&& b[i].max_days == hi
        }
}

/// The identifier of the age range that `days` falls in.
pub fn bucket_for_age_days(days: u64) -> (r: &'static str)
    ensures
        r@ == bucket_row(bucket_index(days)).0,
{
    proof {
        reveal_strlit("lt_7d");
        reveal_strlit("d7_30");
        reveal_strlit("m1_3");
        reveal_strlit("m3_6");
        reveal_strlit("m6_12");
        reveal_strlit("y1_3");
        reveal_strlit("gt_3y");
    }
    if days <= 6 {
        "lt_7d"
    } else if days <= 30 {
        "d7_30"
    } else if days <= 90 {
        "m1_3"
    } else if days <= 180 {
        "m3_6"
    } else if days <= 365 {
        "m6_12"
    } else if days <= 1095 {
        "y1_3"
    } else {
        "gt_3y"
    }
}

fn bucket(id: &str, label: &str, min_days: u64, max_days: Option<u64>) -> (b: AgeBucket)
    ensures
        b.id@ == id@,
        b.label@ == label@,
        b.min_days == min_days,
        b.max_days == max_days,
        b.total_bytes == 0,
        b.file_count == 0,
{
    AgeBucket { id: owned(id), label: owned(label), min_days, max_days, total_bytes: 0, file_count: 0 }
}

/// The seven age ranges, empty.
pub fn empty_buckets() -> (r: Vec<AgeBucket>)
    ensures
        buckets_shaped(r@),
        forall|i: int| 0 <= i < 7 ==> (#[trigger] r@[i]).total_bytes == 0 && r@[i].file_count == 0,
{
    proof {
        reveal_strlit("lt_7d");
        reveal_strlit("d7_30");
        reveal_strlit("m1_3");
        reveal_strlit("m3_6");
        reveal_strlit("m6_12");
        reveal_strlit("y1_3");
        reveal_strlit("gt_3y");
        reveal_strlit("<7d");
        reveal_strlit("7-30d");
        reveal_strlit("1-3mo");
        reveal_strlit("3-6mo");
        reveal_strlit("6-12mo");
        reveal_strlit("1-3yr");
        reveal_strlit(">3yr");
    }
    let mut r: Vec<AgeBucket> = Vec::new();
    r.push(bucket("lt_7d", "<7d", 0, Some(6)));
    r.push(bucket("d7_30", "7-30d", 7, Some(30)));
    r.push(bucket("m1_3", "1-3mo", 31, Some(90)));
    r.push(bucket("m3_6", "3-6mo", 91, Some(180)));
    r.push(bucket("m6_12", "6-12mo", 181, Some(365)));
    r.push(bucket("y1_3", "1-3yr", 366, Some(1095)));
    r.push(bucket("gt_3y", ">3yr", 1096, None));
    r
}

pub open spec fn sat_add(a: u64, b: u64) -> u64 {
    if a + b > u64::MAX { u64::MAX } else { (a + b) as u64 }
}

/// Count a file of `size_bytes` last modified `days` ago in its age range.
pub fn add_to_bucket(buckets: &mut Vec<AgeBucket>, days: u64, size_bytes: u64)
    requires
        buckets_shaped(old(buckets)@),
        old(buckets)@[bucket_index(days)].file_count < usize::MAX,
    ensures
        buckets_shaped(final(buckets)@),
        final(buckets)@.len() == 7,
        forall|i: int|
            0 <= i < 7 && i != bucket_index(days) ==> #[trigger] final(buckets)@[i] == old(buckets)@[i],
        final(buckets)@[bucket_index(days)].total_bytes == sat_add(
            old(buckets)@[bucket_index(days)].total_bytes,
            size_bytes,
        ),
        final(buckets)@[bucket_index(days)].file_count == old(buckets)@[bucket_index(days)].file_count + 1,
{
    let i: usize = if days <= 6 {
        0
    } else if days <= 30 {
        1
    } else if days <= 90 {
        2
    } else if days <= 180 {
        3
    } else if days <= 365 {
        4
    } else if days <= 1095 {
        5
    } else {
        6
    };
    let mut b = buckets.remove(i);
    b.total_bytes = b.total_bytes.saturating_add(size_bytes);
    b.file_count = b.file_count + 1;
    buckets.insert(i, b);
    assert(buckets_shaped(buckets@)) by {
        assert forall|j: int| 0 <= j < 7 implies {
            let (id, label, lo, hi) = bucket_row(j);
            &&& (#[trigger] buckets@[j]).id@ == id
            &&& buckets@[j].label@ == label
            &&& buckets@[j].min_days == lo
            &&& buckets@[j].max_days == hi
        } by {
            assert(buckets@[j].id == old(buckets)@[j].id);
            assert(buckets@[j].label == old(buckets)@[j].label);
        }
    }
}

/// A file found by the aging walk: its times, the directory it lies in,
/// and its entry as reported when it is a zombie.
#[derive(Debug, Clone)]
pub struct AgedFile {
    pub record: FileTimeRecord,
    pub parent_dir: String,
    pub entry: FileEntry,
}

/// Bytes and number of the first `n` files in age range `b`.
pub open spec fn bucket_bytes(fs: Seq<AgedFile>, now: u64, n: int, b: int) -> u64
    decreases n,
{
    if n <= 0 {
        0
    } else if bucket_index(age_days_of(now, fs[n - 1].record.modified)) == b {
        sat_add(bucket_bytes(fs, now, n - 1, b), fs[n - 1].record.size_bytes)
    } else {
        bucket_bytes(fs, now, n - 1, b)
    }
}

pub open spec fn bucket_count(fs: Seq<AgedFile>, now: u64, n: int, b: int) -> nat
    decreases n,
{
    if n <= 0 {
        0
    } else if bucket_index(age_days_of(now, fs[n - 1].record.modified)) == b {
        bucket_count(fs, now, n - 1, b) + 1
    } else {
        bucket_count(fs, now, n - 1, b)
    }
}

proof fn lemma_bucket_count_le(fs: Seq<AgedFile>, now: u64, n: int, b: int)
    ensures
        bucket_count(fs, now, n, b) <= if n < 0 { 0 } else { n },
    decreases n,
{
    if n > 0 {
        lemma_bucket_count_le(fs, now, n - 1, b);
    }
}

/// The age of each file, by last modification.
pub open spec fn ages_of(fs: Seq<AgedFile>, now: u64) -> Seq<(Seq<char>, u64)> {
    fs.map_values(|f: AgedFile| (f.record.path@, age_days_of(now, f.record.modified)))
}

/// The entries of the zombie files among the first `n`, in order.
pub open spec fn zombies_of(fs: Seq<AgedFile>, now: u64, threshold: u64, n: int) -> Seq<FileEntry>
    decreases n,
{
    if n <= 0 {
        Seq::empty()
    } else if age_days_of(now, fs[n - 1].record.accessed) >= threshold {
        zombies_of(fs, now, threshold, n - 1).push(fs[n - 1].entry)
    } else {
        zombies_of(fs, now, threshold, n - 1)
    }
}

pub open spec fn entries_bytes(es: Seq<FileEntry>) -> nat
    decreases es.len(),
{
    if es.len() == 0 {
        0
    } else {
        entries_bytes(es.drop_last()) + es.last().size_bytes as nat
    }
}

pub open spec fn entry_size_keys(es: Seq<FileEntry>) -> Seq<u128> {
    Seq::new(es.len(), |i: int| (u64::MAX - es[i].size_bytes) as u128)
}

/// Where the first `n` files last modified within the hotspot window put
/// their bytes: one entry per directory, in order of first appearance.
pub open spec fn hotspot_groups(fs: Seq<AgedFile>, now: u64, n: int) -> Seq<(Seq<char>, u64, nat)>
    decreases n,
{
    if n <= 0 {
        Seq::empty()
    } else {
        let g = hotspot_groups(fs, now, n - 1);
        let f = fs[n - 1];
        if age_days_of(now, f.record.modified) <= HOTSPOT_THRESHOLD_DAYS {
            match group_slot(g, f.parent_dir@) {
                Some(i) => g.update(i, (g[i].0, sat_add(g[i].1, f.record.size_bytes), g[i].2 + 1)),
                None => g.push((f.parent_dir@, f.record.size_bytes, 1nat)),
            }
        } else {
            g
        }
    }
}

pub open spec fn group_slot(g: Seq<(Seq<char>, u64, nat)>, dir: Seq<char>) -> Option<int>
    decreases g.len(),
{
    if g.len() == 0 {
        None
    } else if g.last().0 == dir {
        Some(g.len() - 1)
    } else {
        group_slot(g.drop_last(), dir)
    }
}

pub open spec fn hotspot_view(h: Hotspot) -> (Seq<char>, u64, nat) {
    (h.path@, h.recent_bytes, h.file_count as nat)
}

pub open spec fn hotspot_views(hs: Seq<Hotspot>) -> Seq<(Seq<char>, u64, nat)> {
    hs.map_values(|h: Hotspot| hotspot_view(h))
}

pub open spec fn hotspot_keys(g: Seq<(Seq<char>, u64, nat)>) -> Seq<u128> {
    Seq::new(g.len(), |i: int| (u64::MAX - g[i].1) as u128)
}

/// `r` is the aging report of `files` at `now`.
pub open spec fn is_aging_report(
    r: AgingReport,
    drive_letter: Seq<char>,
    fs: Seq<AgedFile>,
    now: u64,
    threshold: u64,
) -> bool {
    let n = fs.len() as int;
    let zs = zombies_of(fs, now, threshold, n);
    let hs = hotspot_groups(fs, now, n);
    &&& r.drive_letter@ == unicode_upper(drive_letter)
    &&& buckets_shaped(r.buckets@)
    &&& forall|b: int|
        0 <= b < 7 ==> (#[trigger] r.buckets@[b]).total_bytes == bucket_bytes(fs, now, n, b)
            && r.buckets@[b].file_count == bucket_count(fs, now, n, b)
    &&& r.zombies_total_size == entries_bytes(zs)
    &&& exists|p: Seq<usize>|
        #![trigger is_stable_order(entry_size_keys(zs), p)]
        is_stable_order(entry_size_keys(zs), p) && r.zombie_files@.len() == p.len() && forall|k: int|
            0 <= k < p.len() ==> #[trigger] r.zombie_files@[k] == zs[p[k] as int]
    &&& exists|p: Seq<usize>|
        #![trigger is_stable_order(hotspot_keys(hs), p)]
        is_stable_order(hotspot_keys(hs), p) && r.hotspots@.len() == p.len() && forall|k: int|
            0 <= k < p.len() ==> hotspot_view(#[trigger] r.hotspots@[k]) == hs[p[k] as int]
    &&& exists|p: Seq<usize>|
        #![trigger is_index_perm(p, fs.len())]
        is_index_perm(p, fs.len()) && r.file_ages@.len() == p.len() && (forall|k: int|
            0 <= k < p.len() ==> (#[trigger] r.file_ages@[k]).path@ == ages_of(fs, now)[p[k] as int].0
                && r.file_ages@[k].age_days == ages_of(fs, now)[p[k] as int].1) && forall|k: int|
            0 <= k < p.len() - 1 ==> crate::order::text_le(
                #[trigger] r.file_ages@[k].path@,
                r.file_ages@[k + 1].path@,
            )
}

fn count_buckets(files: &Vec<AgedFile>, now: u64) -> (r: Vec<AgeBucket>)
    ensures
        buckets_shaped(r@),
        forall|b: int|
            0 <= b < 7 ==> (#[trigger] r@[b]).total_bytes == bucket_bytes(files@, now, files@.len() as int, b)
                && r@[b].file_count == bucket_count(files@, now, files@.len() as int, b),
{
    let mut buckets = empty_buckets();
    let mut i: usize = 0;
    while i < files.len()
        invariant
            i <= files@.len(),
            buckets_shaped(buckets@),
            forall|b: int|
                0 <= b < 7 ==> (#[trigger] buckets@[b]).total_bytes == bucket_bytes(files@, now, i as int, b)
                    && buckets@[b].file_count == bucket_count(files@, now, i as int, b),
        decreases files.len() - i,
    {
        let days = age_days(now, files[i].record.modified);
        proof {
            lemma_bucket_count_le(files@, now, i as int, bucket_index(days));
        }
        add_to_bucket(&mut buckets, days, files[i].record.size_bytes);
        i = i + 1;
    }
    buckets
}

fn sorted_ages(files: &Vec<AgedFile>, now: u64) -> (r: Vec<FileAge>)
    ensures
        exists|p: Seq<usize>|
            #![trigger is_index_perm(p, files@.len())]
            is_index_perm(p, files@.len()) && r@.len() == p.len() && (forall|k: int|
                0 <= k < p.len() ==> (#[trigger] r@[k]).path@ == ages_of(files@, now)[p[k] as int].0
                    && r@[k].age_days == ages_of(files@, now)[p[k] as int].1) && forall|k: int|
                0 <= k < p.len() - 1 ==> crate::order::text_le(#[trigger] r@[k].path@, r@[k + 1].path@),
{
    let mut paths: Vec<String> = Vec::new();
    let mut i: usize = 0;
    while i < files.len()
        invariant
            i <= files@.len(),
            paths@.len() == i,
            forall|k: int| 0 <= k < i ==> #[trigger] paths@[k]@ == files@[k].record.path@,
        decreases files.len() - i,
    {
        paths.push(files[i].record.path.clone());
        i = i + 1;
    }
    let order = text_order(&paths);
    let mut out: Vec<FileAge> = Vec::new();
    let mut k: usize = 0;
    while k < order.len()
        invariant
            paths@.len() == files@.len(),
            forall|j: int| 0 <= j < files@.len() ==> #[trigger] paths@[j]@ == files@[j].record.path@,
            is_index_perm(order@, files@.len()),
            adjacent_text(string_views(paths@), order@),
            k <= order@.len(),
            out@.len() == k,
            forall|j: int|
                0 <= j < k ==> (#[trigger] out@[j]).path@ == ages_of(files@, now)[order@[j] as int].0
                    && out@[j].age_days == ages_of(files@, now)[order@[j] as int].1,
        decreases order.len() - k,
    {
        let f = &files[order[k]];
        out.push(FileAge { path: f.record.path.clone(), age_days: age_days(now, f.record.modified) });
        k = k + 1;
    }
    assert forall|j: int| 0 <= j < out@.len() - 1 implies crate::order::text_le(
        #[trigger] out@[j].path@,
        out@[j + 1].path@,
    ) by {
        assert(string_views(paths@)[order@[j] as int] == paths@[order@[j] as int]@);
        assert(string_views(paths@)[order@[j + 1] as int] == paths@[order@[j + 1] as int]@);
    }
    out
}

impl FileEntry {
    /// A field-by-field copy.
    pub fn copied(&self) -> (r: FileEntry)
        ensures
            r == *self,
    {
        FileEntry {
            name: self.name.clone(),
            path: self.path.clone(),
            size_bytes: self.size_bytes,
            modified_epoch_ms: self.modified_epoch_ms,
            hard_link_count: self.hard_link_count,
            size_on_disk_bytes: self.size_on_disk_bytes,
            file_category: match &self.file_category {
                Some(c) => Some(c.clone()),
                None => None,
            },
        }
    }
}

/// Entries ordered largest first; equal sizes keep their order.
pub fn sort_entries_by_size_desc(es: &Vec<FileEntry>) -> (r: Vec<FileEntry>)
    ensures
        exists|p: Seq<usize>|
            #![trigger is_stable_order(entry_size_keys(es@), p)]
            is_stable_order(entry_size_keys(es@), p) && r@.len() == p.len() && forall|k: int|
                0 <= k < p.len() ==> #[trigger] r@[k] == es@[p[k] as int],
{
    let mut keys: Vec<u128> = Vec::new();
    let mut i: usize = 0;
    while i < es.len()
        invariant
            i <= es@.len(),
            keys@ == entry_size_keys(es@).take(i as int),
        decreases es.len() - i,
    {
        keys.push((u64::MAX - es[i].size_bytes) as u128);
        assert(entry_size_keys(es@).take(i + 1) =~= entry_size_keys(es@).take(i as int).push(
            (u64::MAX - es@[i as int].size_bytes) as u128,
        ));
        i = i + 1;
    }
    assert(keys@ =~= entry_size_keys(es@));
    let p = stable_order(&keys);
    let mut out: Vec<FileEntry> = Vec::new();
    let mut k: usize = 0;
    while k < p.len()
        invariant
            is_stable_order(entry_size_keys(es@), p@),
            k <= p@.len(),
            out@.len() == k,
            forall|j: int| 0 <= j < k ==> #[trigger] out@[j] == es@[p@[j] as int],
        decreases p.len() - k,
    {
        out.push(es[p[k]].copied());
        k = k + 1;
    }
    out
}

proof fn lemma_entries_bytes_push(es: Seq<FileEntry>, e: FileEntry)
    ensures
        entries_bytes(es.push(e)) == entries_bytes(es) + e.size_bytes,
{
    assert(es.push(e).drop_last() =~= es);
}

proof fn lemma_zombie_bytes_prefix(fs: Seq<AgedFile>, now: u64, threshold: u64, i: int)
    requires
        0 <= i <= fs.len(),
    ensures
        entries_bytes(zombies_of(fs, now, threshold, i)) <= entries_bytes(zombies_of(fs, now, threshold, fs.len() as int)),
    decreases fs.len() - i,
{
    if i < fs.len() {
        lemma_zombie_bytes_prefix(fs, now, threshold, i + 1);
        if age_days_of(now, fs[i].record.accessed) >= threshold {
            lemma_entries_bytes_push(zombies_of(fs, now, threshold, i), fs[i].entry);
        }
    }
}

fn collect_zombies(files: &Vec<AgedFile>, now: u64, threshold: u64) -> (r: (Vec<FileEntry>, u64))
    requires
        entries_bytes(zombies_of(files@, now, threshold, files@.len() as int)) <= u64::MAX,
    ensures
        r.0@ == zombies_of(files@, now, threshold, files@.len() as int),
        r.1 == entries_bytes(r.0@),
{
    let mut out: Vec<FileEntry> = Vec::new();
    let mut total: u64 = 0;
    let mut i: usize = 0;
    while i < files.len()
        invariant
            i <= files@.len(),
            out@ == zombies_of(files@, now, threshold, i as int),
            total == entries_bytes(out@),
            entries_bytes(zombies_of(files@, now, threshold, files@.len() as int)) <= u64::MAX,
        decreases files.len() - i,
    {
        proof {
            lemma_zombie_bytes_prefix(files@, now, threshold, i + 1);
        }
        if files[i].record.is_zombie(now, threshold) {
            proof {
                lemma_entries_bytes_push(out@, files@[i as int].entry);
            }
            total = total + files[i].entry.size_bytes;
            out.push(files[i].entry.copied());
        }
        i = i + 1;
    }
    (out, total)
}

proof fn lemma_group_slot(g: Seq<(Seq<char>, u64, nat)>, dir: Seq<char>)
    ensures
        group_slot(g, dir) matches Some(i) ==> 0 <= i < g.len() && g[i].0 == dir,
    decreases g.len(),
{
    if g.len() > 0 && g.last().0 != dir {
        lemma_group_slot(g.drop_last(), dir);
    }
}

proof fn lemma_group_counts(fs: Seq<AgedFile>, now: u64, n: int)
    ensures
        forall|k: int| 0 <= k < hotspot_groups(fs, now, n).len() ==> #[trigger] hotspot_groups(fs, now, n)[k].2 <= if n < 0 { 0 } else { n },
    decreases n,
{
    if n > 0 {
        lemma_group_counts(fs, now, n - 1);
        lemma_group_slot(hotspot_groups(fs, now, n - 1), fs[n - 1].parent_dir@);
    }
}

fn find_hotspot(hs: &Vec<Hotspot>, dir: &str) -> (r: Option<usize>)
    ensures
        match r {
            Some(i) => group_slot(hotspot_views(hs@), dir@) == Some(i as int),
            None => group_slot(hotspot_views(hs@), dir@) is None,
        },
{
    let ghost gv = hotspot_views(hs@);
    let mut i = hs.len();
    assert(gv.take(i as int) =~= gv);
    while i > 0
        invariant
            i <= hs@.len(),
            gv == hotspot_views(hs@),
            group_slot(gv, dir@) == group_slot(gv.take(i as int), dir@),
        decreases i,
    {
        assert(gv.take(i as int).drop_last() =~= gv.take(i - 1));
        assert(gv.take(i as int).last() == gv[i - 1]);
        if str_eq(hs[i - 1].path.as_str(), dir) {
            return Some(i - 1);
        }
        i = i - 1;
    }
    None
}

fn collect_hotspots(files: &Vec<AgedFile>, now: u64) -> (r: Vec<Hotspot>)
    ensures
        hotspot_views(r@) == hotspot_groups(files@, now, files@.len() as int),
{
    let mut hs: Vec<Hotspot> = Vec::new();
    let n = files.len();
    let mut i: usize = 0;
    while i < files.len()
        invariant
            i <= files@.len(),
            n == files@.len(),
            hotspot_views(hs@) == hotspot_groups(files@, now, i as int),
        decreases files.len() - i,
    {
        let f = &files[i];
        let ghost before = hotspot_views(hs@);
        proof {
            lemma_group_counts(files@, now, i as int);
            lemma_group_slot(before, f.parent_dir@);
        }
        if age_days(now, f.record.modified) <= HOTSPOT_THRESHOLD_DAYS {
            match find_hotspot(&hs, f.parent_dir.as_str()) {
                Some(k) => {
                    let mut h = hs.remove(k);
                    assert(h.file_count as nat == before[k as int].2);
                    h.recent_bytes = h.recent_bytes.saturating_add(f.record.size_bytes);
                    h.file_count = h.file_count + 1;
                    hs.insert(k, h);
                    assert(hotspot_views(hs@) =~= before.update(
                        k as int,
                        (before[k as int].0, sat_add(before[k as int].1, f.record.size_bytes), before[k as int].2 + 1),
                    ));
                },
                None => {
                    hs.push(Hotspot { path: f.parent_dir.clone(), recent_bytes: f.record.size_bytes, file_count: 1 });
                    assert(hotspot_views(hs@) =~= before.push(
                        (f.parent_dir@, f.record.size_bytes, 1nat),
                    ));
                },
            }
        }
        i = i + 1;
    }
    hs
}

fn sort_hotspots(hs: Vec<Hotspot>) -> (r: Vec<Hotspot>)
    ensures
        exists|p: Seq<usize>|
            #![trigger is_stable_order(hotspot_keys(hotspot_views(hs@)), p)]
            is_stable_order(hotspot_keys(hotspot_views(hs@)), p) && r@.len() == p.len()
                && forall|k: int|
                0 <= k < p.len() ==> hotspot_view(#[trigger] r@[k]) == hotspot_views(hs@)[p[k] as int],
{
    let ghost gv = hotspot_views(hs@);
    let mut keys: Vec<u128> = Vec::new();
    let mut i: usize = 0;
    while i < hs.len()
        invariant
            i <= hs@.len(),
            gv == hotspot_views(hs@),
            keys@ == hotspot_keys(gv).take(i as int),
        decreases hs.len() - i,
    {
        keys.push((u64::MAX - hs[i].recent_bytes) as u128);
        assert(hotspot_keys(gv).take(i + 1) =~= hotspot_keys(gv).take(i as int).push(
            (u64::MAX - gv[i as int].1) as u128,
        ));
        i = i + 1;
    }
    assert(keys@ =~= hotspot_keys(gv));
    let p = stable_order(&keys);
    let mut out: Vec<Hotspot> = Vec::new();
    let mut k: usize = 0;
    while k < p.len()
        invariant
            gv == hotspot_views(hs@),
            is_stable_order(hotspot_keys(gv), p@),
            k <= p@.len(),
            out@.len() == k,
            forall|j: int| 0 <= j < k ==> hotspot_view(#[trigger] out@[j]) == gv[p@[j] as int],
        decreases p.len() - k,
    {
        let h = &hs[p[k]];
        out.push(Hotspot { path: h.path.clone(), recent_bytes: h.recent_bytes, file_count: h.file_count });
        k = k + 1;
    }
    out
}

/// The aging report of the files found under a drive, at time `now`
/// (seconds since the epoch), with files not accessed for
/// `zombie_threshold_days` days reported as zombies.
pub fn aging_report(drive_letter: &str, zombie_threshold_days: u64, now: u64, files: Vec<AgedFile>) -> (r: AgingReport)
    requires
        entries_bytes(zombies_of(files@, now, zombie_threshold_days, files@.len() as int)) <= u64::MAX,
    ensures
        is_aging_report(r, drive_letter@, files@, now, zombie_threshold_days),
{
    let buckets = count_buckets(&files, now);
    let (zombies, zombies_total_size) = collect_zombies(&files, now, zombie_threshold_days);
    let zombie_files = sort_entries_by_size_desc(&zombies);
    let file_ages = sorted_ages(&files, now);
    let spots = collect_hotspots(&files, now);
    let hotspots = sort_hotspots(spots);
    AgingReport {
        drive_letter: to_uppercase(drive_letter),
        buckets,
        zombies_total_size,
        zombie_files,
        hotspots,
        file_ages,
    }
}

pub open spec fn cancelled_message() -> Seq<char> {
    "Aging scan cancelled"@
}

pub open spec fn no_drive_message(drive_letter: Seq<char>) -> Seq<char> {
    "Drive "@ + drive_letter + " does not exist"@
}

/// Analyze file aging under a drive with an explicit zombie threshold.
/// `drive_exists` says whether the drive root exists, `cancelled` whether
/// the walk was cancelled, and `files` holds what the walk found.
pub fn analyze_file_aging_with_threshold_and_cancel(
    drive_letter: &str,
    drive_exists: bool,
    zombie_threshold_days: u64,
    now: u64,
    files: Vec<AgedFile>,
    cancelled: bool,
) -> (r: Result<AgingReport, String>)
    requires
        entries_bytes(zombies_of(files@, now, zombie_threshold_days, files@.len() as int)) <= u64::MAX,
    ensures
        !drive_exists ==> (r matches Err(e) && e@ == no_drive_message(drive_letter@)),
        drive_exists && cancelled ==> (r matches Err(e) && e@ == cancelled_message()),
        drive_exists && !cancelled ==> (r matches Ok(rep) && is_aging_report(
            rep,
            drive_letter@,
            files@,
            now,
            zombie_threshold_days,
        )),
{
    if !drive_exists {
        let e = concat3("Drive ", drive_letter, " does not exist");
        return Err(e);
    }
    if cancelled {
        return Err(owned("Aging scan cancelled"));
    }
    Ok(aging_report(drive_letter, zombie_threshold_days, now, files))
}

/// The zombie threshold: the configured one, or 180 days.
pub open spec fn threshold_or_default(configured: Option<u64>) -> u64 {
    match configured {
        Some(t) => t,
        None => ZOMBIE_THRESHOLD_DAYS,
    }
}

/// Analyze file aging with the configured zombie threshold.
pub fn analyze_file_aging_with_progress_and_cancel(
    drive_letter: &str,
    drive_exists: bool,
    configured_threshold: Option<u64>,
    now: u64,
    files: Vec<AgedFile>,
    cancelled: bool,
) -> (r: Result<AgingReport, String>)
    requires
        entries_bytes(
            zombies_of(files@, now, threshold_or_default(configured_threshold), files@.len() as int),
        ) <= u64::MAX,
    ensures
        !drive_exists ==> (r matches Err(e) && e@ == no_drive_message(drive_letter@)),
        drive_exists && cancelled ==> (r matches Err(e) && e@ == cancelled_message()),
        drive_exists && !cancelled ==> (r matches Ok(rep) && is_aging_report(
            rep,
            drive_letter@,
            files@,
            now,
            threshold_or_default(configured_threshold),
        )),
{
    let threshold = match configured_threshold {
        Some(t) => t,
        None => ZOMBIE_THRESHOLD_DAYS,
    };
    analyze_file_aging_with_threshold_and_cancel(drive_letter, drive_exists, threshold, now, files, cancelled)
}

/// Analyze file aging with the configured zombie threshold; the walk runs
/// to its end.
pub fn analyze_file_aging(
    drive_letter: &str,
    drive_exists: bool,
    configured_threshold: Option<u64>,
    now: u64,
    files: Vec<AgedFile>,
) -> (r: Result<AgingReport, String>)
    requires
        entries_bytes(
            zombies_of(files@, now, threshold_or_default(configured_threshold), files@.len() as int),
        ) <= u64::MAX,
    ensures
        !drive_exists ==> (r matches Err(e) && e@ == no_drive_message(drive_letter@)),
        drive_exists ==> (r matches Ok(rep) && is_aging_report(
            rep,
            drive_letter@,
            files@,
            now,
            threshold_or_default(configured_threshold),
        )),
{
    analyze_file_aging_with_progress_and_cancel(drive_letter, drive_exists, configured_threshold, now, files, false)
}

/// A file is counted in exactly the age range its modification age falls
/// in: the ranges cover every age and do not overlap.
pub proof fn law_bucket_covers_age(days: u64)
    ensures
        0 <= bucket_index(days) < 7,
        bucket_row(bucket_index(days)).2 <= days,
        bucket_row(bucket_index(days)).3 matches Some(hi) ==> days <= hi,
{
}

} // verus!
