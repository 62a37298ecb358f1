//! Drive and directory scan records, and the decisions of the scan pipeline
//! that do not touch the file system: which root entries are skipped, how a
//! drive overview is assembled from measured directories, and how scan results
//! are ordered.
use vstd::prelude::*;
use crate::order::{is_stable_order, stable_order};
use crate::text::{chars_of, concat, owned, to_uppercase, unicode_upper};

verus! {

/// Phase of the drive scan pipeline.
#[derive(Debug, Clone, Copy, PartialEq, Eq, Structural)]
pub enum ScanPhase {
    Walking,
    Measuring,
    Complete,
}

/// Scan progress snapshot emitted during long scans.
#[derive(Debug, Clone)]
pub struct ScanProgress {
    pub drive_letter: String,
    pub processed: usize,
    pub total: usize,
    pub current_path: Option<String>,
    pub phase: ScanPhase,
    pub partial_results: Option<Vec<DirInfo>>,
}

/// Fast drive metadata returned before the expensive directory walk finishes.
#[derive(Debug, Clone)]
pub struct DriveMeta {
    pub drive_letter: String,
    pub total_bytes: u64,
    pub used_bytes: u64,
    pub free_bytes: u64,
    pub cached_top_dirs: Option<Vec<DirInfo>>,
    pub cache_age_ms: Option<u64>,
}

/// Drive overview information.
#[derive(Debug, Clone)]
pub struct DriveInfo {
    pub drive_letter: String,
    pub total_bytes: u64,
    pub used_bytes: u64,
    pub free_bytes: u64,
    pub top_dirs: Vec<DirInfo>,
}

/// Directory size information.
#[derive(Debug, Clone, PartialEq, Eq)]
pub struct DirInfo {
    pub name: String,
    pub path: String,
    pub size_bytes: u64,
    pub file_count: u64,
    pub dir_count: u64,
    pub risk_level: Option<String>,
}

/// Common output for directory measurement stages.
#[derive(Debug, Clone, Copy, PartialEq, Eq, Structural)]
pub struct ScanOutput {
    pub size_bytes: u64,
    pub file_count: u64,
    pub dir_count: u64,
}

/// Individual file candidate returned by the large file finder, the duplicate
/// finder and the aging analysis.
#[derive(Debug, Clone, PartialEq, Eq)]
pub struct FileEntry {
    pub name: String,
    pub path: String,
    pub size_bytes: u64,
    pub modified_epoch_ms: u64,
    pub hard_link_count: u64,
    pub size_on_disk_bytes: Option<u64>,
    pub file_category: Option<String>,
}

/// Progress snapshot emitted by the large file finder.
#[derive(Debug, Clone)]
pub struct LargeFileProgress {
    pub drive_letter: String,
    pub dirs_processed: usize,
    pub dirs_total: usize,
    pub files_found: usize,
    pub current_path: Option<String>,
}

/// The fields of a directory record, as plain values.
pub open spec fn same_dir(a: DirInfo, b: DirInfo) -> bool {
    &&& a.name@ == b.name@
    &&& a.path@ == b.path@
    &&& a.size_bytes == b.size_bytes
    &&& a.file_count == b.file_count
    &&& a.dir_count == b.dir_count
    &&& opt_str_view(a.risk_level) == opt_str_view(b.risk_level)
}

pub open spec fn opt_str_view(o: Option<String>) -> Option<Seq<char>> {
    match o {
        Some(s) => Some(s@),
        None => None,
    }
}

pub fn copy_opt_string(o: &Option<String>) -> (r: Option<String>)
    ensures
        opt_str_view(r) == opt_str_view(*o),
{
    match o {
        Some(s) => Some(s.clone()),
        None => None,
    }
}

impl DirInfo {
    /// A field-by-field copy.
    pub fn copied(&self) -> (r: DirInfo)
        ensures
            same_dir(r, *self),
    {
        DirInfo {
            name: self.name.clone(),
            path: self.path.clone(),
            size_bytes: self.size_bytes,
            file_count: self.file_count,
            dir_count: self.dir_count,
            risk_level: copy_opt_string(&self.risk_level),
        }
    }
}

/// Directories are listed largest first; equal sizes keep their order.
pub open spec fn size_desc_key(size: u64) -> u128 {
    (u64::MAX - size) as u128
}

pub open spec fn dir_size_keys(dirs: Seq<DirInfo>) -> Seq<u128> {
    Seq::new(dirs.len(), |i: int| size_desc_key(dirs[i].size_bytes))
}

/// `dirs` listed largest first, by a stable sort.
pub open spec fn sorted_by_size_desc(dirs: Seq<DirInfo>, res: Seq<DirInfo>) -> bool {
    exists|p: Seq<usize>|
        #![trigger is_stable_order(dir_size_keys(dirs), p)]
        is_stable_order(dir_size_keys(dirs), p) && res.len() == p.len() && forall|k: int|
            0 <= k < res.len() ==> same_dir(#[trigger] res[k], dirs[p[k] as int])
}

/// Directories ordered largest first (a stable sort by descending size).
pub fn sort_dirs_by_size_desc(dirs: &Vec<DirInfo>) -> (res: Vec<DirInfo>)
    ensures
        sorted_by_size_desc(dirs@, res@),
{
    let mut keys: Vec<u128> = Vec::new();
    let mut i: usize = 0;
    while i < dirs.len()
        invariant
            i <= dirs@.len(),
            keys@ == dir_size_keys(dirs@).take(i as int),
        decreases dirs.len() - i,
    {
        keys.push((u64::MAX - dirs[i].size_bytes) as u128);
        assert(dir_size_keys(dirs@).take(i + 1) == dir_size_keys(dirs@).take(i as int).push(
            size_desc_key(dirs@[i as int].size_bytes),
        ));
        i = i + 1;
    }
    assert(keys@ == dir_size_keys(dirs@));
    let p = stable_order(&keys);
    let mut out: Vec<DirInfo> = Vec::new();
    let mut k: usize = 0;
    while k < p.len()
        invariant
            is_stable_order(dir_size_keys(dirs@), p@),
            k <= p@.len(),
            out@.len() == k,
            forall|j: int| 0 <= j < k ==> same_dir(#[trigger] out@[j], dirs@[p@[j] as int]),
        decreases p.len() - k,
    {
        out.push(dirs[p[k]].copied());
        k = k + 1;
    }
    out
}

/// Root entries that the drive scan never measures.
pub open spec fn protected_root_name(name: Seq<char>) -> bool {
    name == "System Volume Information"@ || name == "$Recycle.Bin"@
}

/// Whether a root entry name is one that the scan skips.
pub fn is_protected_root_dir(name: &str) -> (r: bool)
    ensures
        r == protected_root_name(name@),
{
    crate::text::str_eq(name, "System Volume Information") || crate::text::str_eq(name, "$Recycle.Bin")
}

/// An entry of a drive root as the file system lists it.
#[derive(Debug, Clone)]
pub struct RootEntry {
    pub name: String,
    pub is_dir: bool,
    pub is_symlink: bool,
}

/// A root entry is measured when it is a directory, not a symbolic link, and
/// not one of the protected system folders.
pub open spec fn measured_root_entry(e: RootEntry) -> bool {
    e.is_dir && !e.is_symlink && !protected_root_name(e.name@)
}

/// The root entries that a drive scan measures, in the order listed.
pub open spec fn root_entries_to_measure(entries: Seq<RootEntry>) -> Seq<RootEntry>
    decreases entries.len(),
{
    if entries.len() == 0 {
        Seq::empty()
    } else if measured_root_entry(entries.last()) {
        root_entries_to_measure(entries.drop_last()).push(entries.last())
    } else {
        root_entries_to_measure(entries.drop_last())
    }
}

/// The root entries that a drive scan measures: directories that are not
/// symbolic links, without System Volume Information and `$Recycle.Bin`.
pub fn root_dirs_to_measure(entries: Vec<RootEntry>) -> (r: Vec<RootEntry>)
    ensures
        r@ == root_entries_to_measure(entries@),
{
    let mut out: Vec<RootEntry> = Vec::new();
    let mut k: usize = 0;
    while k < entries.len()
        invariant
            k <= entries@.len(),
            out@ == root_entries_to_measure(entries@.take(k as int)),
        decreases entries.len() - k,
    {
        let e = &entries[k];
        let keep = e.is_dir && !e.is_symlink && !is_protected_root_dir(e.name.as_str());
        proof {
            assert(entries@.take(k + 1).drop_last() =~= entries@.take(k as int));
        }
        if keep {
            let name = e.name.clone();
            assert(name == e.name);
            out.push(RootEntry { name, is_dir: e.is_dir, is_symlink: e.is_symlink });
        }
        k = k + 1;
    }
    assert(entries@.take(entries@.len() as int) =~= entries@);
    out
}

/// The drive letter as the scan reports it (ASCII upper case).
pub fn upper_drive_letter(drive_letter: &str) -> (r: String)
    ensures
        r@ == unicode_upper(drive_letter@),
{
    to_uppercase(drive_letter)
}

/// The error a scan reports when the drive root does not exist.
pub open spec fn missing_drive_message(drive_letter: Seq<char>) -> Seq<char> {
    "Drive "@ + drive_letter + " does not exist"@
}

pub(crate) fn missing_drive_error(drive_letter: &str) -> (r: String)
    ensures
        r@ == missing_drive_message(drive_letter@),
{
    let mut s = concat("Drive ", drive_letter);
    s.append(" does not exist");
    s
}

/// Used space is total minus free, never below zero.
pub open spec fn used_of(total: u64, free: u64) -> u64 {
    if total >= free { (total - free) as u64 } else { 0 }
}

/// Drive metadata from the measured drive space.
///
/// `drive_exists` and the two byte counts are what the file system reported
/// for the drive root.
pub fn scan_drive_meta(
    drive_letter: &str,
    drive_exists: bool,
    total_space: u64,
    free_space: u64,
    cached_top_dirs: Option<Vec<DirInfo>>,
    cache_age_ms: Option<u64>,
) -> (res: Result<DriveMeta, String>)
    ensures
        !drive_exists <==> res is Err,
        res matches Err(e) ==> e@ == missing_drive_message(drive_letter@),
        res matches Ok(m) ==> {
            &&& m.drive_letter@ == unicode_upper(drive_letter@)
            &&& m.total_bytes == total_space
            &&& m.free_bytes == free_space
            &&& m.used_bytes == used_of(total_space, free_space)
            &&& m.cached_top_dirs == cached_top_dirs
            &&& m.cache_age_ms == cache_age_ms
        },
{
    if !drive_exists {
        return Err(missing_drive_error(drive_letter));
    }
    let used = if total_space >= free_space { total_space - free_space } else { 0 };
    Ok(DriveMeta {
        drive_letter: upper_drive_letter(drive_letter),
        total_bytes: total_space,
        used_bytes: used,
        free_bytes: free_space,
        cached_top_dirs,
        cache_age_ms,
    })
}

/// The drive overview assembled from the measured top-level directories,
/// which are listed largest first; a failed measurement is the scan's error.
///
/// `drive_exists` and the two byte counts are what the file system reported
/// for the drive root, `measured` the outcome of measuring its top-level
/// directories.
pub fn scan_drive_with_progress_and_cancel(
    drive_letter: &str,
    drive_exists: bool,
    total_space: u64,
    free_space: u64,
    measured: Result<Vec<DirInfo>, String>,
) -> (res: Result<DriveInfo, String>)
    ensures
        !drive_exists ==> (res matches Err(e) && e@ == missing_drive_message(drive_letter@)),
        drive_exists ==> (measured is Err <==> res is Err),
        drive_exists ==> (measured matches Err(m) ==> (res matches Err(e) && e@ == m@)),
        drive_exists ==> (measured matches Ok(dirs) ==> (res matches Ok(d) && {
            &&& d.drive_letter@ == unicode_upper(drive_letter@)
            &&& d.total_bytes == total_space
            &&& d.free_bytes == free_space
            &&& d.used_bytes == used_of(total_space, free_space)
            &&& sorted_by_size_desc(dirs@, d.top_dirs@)
        })),
{
    if !drive_exists {
        return Err(missing_drive_error(drive_letter));
    }
    let used = if total_space >= free_space { total_space - free_space } else { 0 };
    match measured {
        Err(e) => Err(e),
        Ok(dirs) => {
            let top_dirs = sort_dirs_by_size_desc(&dirs);
            Ok(DriveInfo {
                drive_letter: upper_drive_letter(drive_letter),
                total_bytes: total_space,
                used_bytes: used,
                free_bytes: free_space,
                top_dirs,
            })
        },
    }
}

/// A drive scan without a cancellation flag.
pub fn scan_drive_with_progress(
    drive_letter: &str,
    drive_exists: bool,
    total_space: u64,
    free_space: u64,
    measured: Result<Vec<DirInfo>, String>,
) -> (res: Result<DriveInfo, String>)
    ensures
        !drive_exists ==> (res matches Err(e) && e@ == missing_drive_message(drive_letter@)),
        drive_exists ==> (measured is Err <==> res is Err),
        drive_exists ==> (measured matches Err(m) ==> (res matches Err(e) && e@ == m@)),
        drive_exists ==> (measured matches Ok(dirs) ==> (res matches Ok(d) && {
            &&& d.drive_letter@ == unicode_upper(drive_letter@)
            &&& d.total_bytes == total_space
            &&& d.free_bytes == free_space
            &&& d.used_bytes == used_of(total_space, free_space)
            &&& sorted_by_size_desc(dirs@, d.top_dirs@)
        })),
{
    scan_drive_with_progress_and_cancel(drive_letter, drive_exists, total_space, free_space, measured)
}

/// The drive overview assembled from the measured top-level directories,
/// which are listed largest first.
pub fn scan_drive(
    drive_letter: &str,
    drive_exists: bool,
    total_space: u64,
    free_space: u64,
    measured_dirs: Vec<DirInfo>,
) -> (res: Result<DriveInfo, String>)
    ensures
        !drive_exists <==> res is Err,
        res matches Err(e) ==> e@ == missing_drive_message(drive_letter@),
        res matches Ok(d) ==> {
            &&& d.drive_letter@ == unicode_upper(drive_letter@)
            &&& d.total_bytes == total_space
            &&& d.free_bytes == free_space
            &&& d.used_bytes == used_of(total_space, free_space)
            &&& sorted_by_size_desc(measured_dirs@, d.top_dirs@)
        },
{
    scan_drive_with_progress(drive_letter, drive_exists, total_space, free_space, Ok(measured_dirs))
}

/// Whether a cancellation was requested; never without a flag. A set flag is
/// read as another thread left it, so the answer is not determined here.
pub fn is_cancelled(cancel: Option<&std::sync::atomic::AtomicBool>) -> (r: bool)
    ensures
        cancel is None ==> !r,
{
    match cancel {
        Some(flag) => flag.load(std::sync::atomic::Ordering::Relaxed),
        None => false,
    }
}

pub open spec fn scan_cancelled_message() -> Seq<char> {
    "Scan cancelled"@
}

/// The error of a cancelled scan.
pub fn scan_cancelled() -> (r: String)
    ensures
        r@ == scan_cancelled_message(),
{
    owned("Scan cancelled")
}

// ── Measuring one directory ────────────────────────────────

/// One entry of a directory walk, as the measurement reads it: its kind,
/// whether it is the walk's root, and its length (zero where it could not be
/// read).
#[derive(Debug, Clone, Copy, PartialEq, Eq, Structural)]
pub struct WalkEntry {
    pub is_file: bool,
    pub is_dir: bool,
    pub is_root: bool,
    pub len: u64,
}

/// Total length of the files of a walk.
pub open spec fn walk_bytes(s: Seq<WalkEntry>) -> nat
    decreases s.len(),
{
    if s.len() == 0 {
        0
    } else {
        walk_bytes(s.drop_last()) + if s.last().is_file {
            s.last().len as nat
        } else {
            0
        }
    }
}

/// Number of files of a walk.
pub open spec fn walk_files(s: Seq<WalkEntry>) -> nat
    decreases s.len(),
{
    if s.len() == 0 {
        0
    } else {
        walk_files(s.drop_last()) + if s.last().is_file {
            1nat
        } else {
            0
        }
    }
}

/// Number of directories of a walk below its root.
pub open spec fn walk_dirs(s: Seq<WalkEntry>) -> nat
    decreases s.len(),
{
    if s.len() == 0 {
        0
    } else {
        walk_dirs(s.drop_last()) + if s.last().is_dir && !s.last().is_root {
            1nat
        } else {
            0
        }
    }
}

proof fn lemma_walk_bytes_prefix(s: Seq<WalkEntry>, i: int)
    requires
        0 <= i <= s.len(),
    ensures
        walk_bytes(s.take(i)) <= walk_bytes(s),
        walk_files(s.take(i)) <= i,
        walk_dirs(s.take(i)) <= i,
    decreases s.len() - i,
{
    lemma_walk_counts(s.take(i));
    if i < s.len() {
        lemma_walk_bytes_prefix(s, i + 1);
        assert(s.take(i + 1).drop_last() =~= s.take(i));
    } else {
        assert(s.take(i) =~= s);
        lemma_walk_counts(s);
    }
}

proof fn lemma_walk_counts(s: Seq<WalkEntry>)
    ensures
        walk_files(s) <= s.len(),
        walk_dirs(s) <= s.len(),
    decreases s.len(),
{
    if s.len() > 0 {
        lemma_walk_counts(s.drop_last());
    }
}

/// The size, file count and subdirectory count of a walked directory, or the
/// cancellation error when the walk was cancelled.
pub fn calculate_dir_size(entries: &Vec<WalkEntry>, cancelled: bool) -> (r: Result<ScanOutput, String>)
    requires
        walk_bytes(entries@) <= u64::MAX,
    ensures
        cancelled ==> (r matches Err(e) && e@ == scan_cancelled_message()),
        !cancelled ==> (r matches Ok(o) && o.size_bytes == walk_bytes(entries@) && o.file_count
            == walk_files(entries@) && o.dir_count == walk_dirs(entries@)),
{
    if cancelled {
        return Err(scan_cancelled());
    }
    let mut size: u64 = 0;
    let mut files: u64 = 0;
    let mut dirs: u64 = 0;
    let mut i: usize = 0;
    while i < entries.len()
        invariant
            i <= entries@.len(),
            walk_bytes(entries@) <= u64::MAX,
            size == walk_bytes(entries@.take(i as int)),
            files == walk_files(entries@.take(i as int)),
            dirs == walk_dirs(entries@.take(i as int)),
        decreases entries.len() - i,
    {
        let e = entries[i];
        proof {
            assert(entries@.take(i + 1).drop_last() =~= entries@.take(i as int));
            lemma_walk_bytes_prefix(entries@, i + 1);
        }
        if e.is_file {
            size = size + e.len;
            files = files + 1;
        }
        if e.is_dir && !e.is_root {
            dirs = dirs + 1;
        }
        i = i + 1;
    }
    assert(entries@.take(entries@.len() as int) =~= entries@);
    Ok(ScanOutput { size_bytes: size, file_count: files, dir_count: dirs })
}

// ── Re-scanning one directory ──────────────────────────────

pub open spec fn missing_dir_message(path: Seq<char>) -> Seq<char> {
    "Directory does not exist: "@ + path
}

pub open spec fn not_a_dir_message(path: Seq<char>) -> Seq<char> {
    "Not a directory: "@ + path
}

pub open spec fn no_dir_name_message(path: Seq<char>) -> Seq<char> {
    "Cannot determine directory name: "@ + path
}

/// One cached top-level directory measured again.
///
/// `exists` and `is_dir` are what the file system reported for the path,
/// `name` its last component, and `measured` the outcome of measuring it.
pub fn scan_top_level_dir(
    path: &str,
    exists: bool,
    is_dir: bool,
    name: Option<String>,
    measured: Result<ScanOutput, String>,
) -> (r: Result<DirInfo, String>)
    ensures
        !exists ==> (r matches Err(e) && e@ == missing_dir_message(path@)),
        exists && !is_dir ==> (r matches Err(e) && e@ == not_a_dir_message(path@)),
        exists && is_dir && name is None ==> (r matches Err(e) && e@ == no_dir_name_message(path@)),
        exists && is_dir && name is Some ==> (measured is Err <==> r is Err),
        exists && is_dir && name is Some ==> (measured matches Err(m) ==> (r matches Err(e) && e@
            == m@)),
        exists && is_dir ==> (name matches Some(n) ==> (measured matches Ok(o) ==> (r matches Ok(d)
            && d.name@ == n@ && d.path@ == path@ && d.size_bytes == o.size_bytes && d.file_count
            == o.file_count && d.dir_count == o.dir_count && d.risk_level is None))),
{
    if !exists {
        return Err(concat("Directory does not exist: ", path));
    }
    if !is_dir {
        return Err(concat("Not a directory: ", path));
    }
    let name = match name {
        Some(n) => n,
        None => return Err(concat("Cannot determine directory name: ", path)),
    };
    match measured {
        Err(e) => Err(e),
        Ok(o) => Ok(DirInfo {
            name,
            path: owned(path),
            size_bytes: o.size_bytes,
            file_count: o.file_count,
            dir_count: o.dir_count,
            risk_level: None,
        }),
    }
}

// ── Listing a directory ────────────────────────────────────

/// One entry of a directory being listed: a subdirectory with the outcome of
/// measuring it, or a file with its length where it could be read.
#[derive(Debug)]
pub enum ListedEntry {
    Dir { name: String, path: String, measured: Result<ScanOutput, String> },
    File { len: Option<u64> },
}

/// Subdirectories that a listing leaves out: system folders whose names start
/// with `$`, and `System Volume Information`.
pub open spec fn hidden_subdir(name: Seq<char>) -> bool {
    (name.len() > 0 && name[0] == '$') || name == "System Volume Information"@
}

/// Whether a listing leaves the subdirectory out (it is then not measured).
pub fn is_hidden_subdir(name: &str) -> (r: bool)
    ensures
        r == hidden_subdir(name@),
{
    let chars = chars_of(name);
    (chars.len() > 0 && chars[0] == '$') || crate::text::str_eq(name, "System Volume Information")
}

/// A directory record as plain values: name, path, size, file and
/// subdirectory counts (listings carry no risk level).
pub type DirView = (Seq<char>, Seq<char>, u64, u64, u64);

pub open spec fn dir_view(d: DirInfo) -> DirView {
    (d.name@, d.path@, d.size_bytes, d.file_count, d.dir_count)
}

pub open spec fn dir_views(s: Seq<DirInfo>) -> Seq<DirView> {
    s.map_values(|x: DirInfo| dir_view(x))
}

/// `pre` holds the records of a listing: its views, and no risk levels.
pub open spec fn is_listing(pre: Seq<DirInfo>, views: Seq<DirView>) -> bool {
    dir_views(pre) == views && forall|k: int| 0 <= k < pre.len() ==> (#[trigger] pre[k]).risk_level is None
}

/// `v` is a listing's records sorted largest first.
pub open spec fn sorted_listing(v: Seq<DirInfo>, views: Seq<DirView>) -> bool {
    exists|pre: Seq<DirInfo>| #![trigger is_listing(pre, views)] is_listing(pre, views) && sorted_by_size_desc(pre, v)
}

/// The subdirectories, the total length and the number of the files of a
/// listing, in order; or the first failed measurement.
pub open spec fn listing_of(s: Seq<ListedEntry>) -> Result<(Seq<DirView>, nat, nat), Seq<char>>
    decreases s.len(),
{
    if s.len() == 0 {
        Ok((Seq::empty(), 0, 0))
    } else {
        match listing_of(s.drop_last()) {
            Err(e) => Err(e),
            Ok((dirs, bytes, count)) => match s.last() {
                ListedEntry::Dir { name, path, measured } => if hidden_subdir(name@) {
                    Ok((dirs, bytes, count))
                } else {
                    match measured {
                        Err(e) => Err(e@),
                        Ok(o) => Ok(
                            (dirs.push((name@, path@, o.size_bytes, o.file_count, o.dir_count)), bytes, count),
                        ),
                    }
                },
                ListedEntry::File { len } => match len {
                    Some(n) => Ok((dirs, bytes + n as nat, count + 1)),
                    None => Ok((dirs, bytes, count)),
                },
            },
        }
    }
}

/// Total length of the readable files of a listing.
pub open spec fn listed_file_bytes(s: Seq<ListedEntry>) -> nat
    decreases s.len(),
{
    if s.len() == 0 {
        0
    } else {
        listed_file_bytes(s.drop_last()) + match s.last() {
            ListedEntry::File { len: Some(n) } => n as nat,
            _ => 0,
        }
    }
}

/// The records of a listing before sorting: the subdirectories, then a
/// `(files)` record for the directory's own files when it has any.
pub open spec fn listing_views(path: Seq<char>, dirs: Seq<DirView>, bytes: nat, count: nat) -> Seq<DirView> {
    if count > 0 {
        dirs.push(("(files)"@, path, bytes as u64, count as u64, 0u64))
    } else {
        dirs
    }
}

proof fn lemma_listing_bounds(s: Seq<ListedEntry>)
    ensures
        listing_of(s) matches Ok((d, b, c)) ==> b <= listed_file_bytes(s) && c <= s.len() && d.len()
            <= s.len(),
    decreases s.len(),
{
    if s.len() > 0 {
        lemma_listing_bounds(s.drop_last());
    }
}

proof fn lemma_file_bytes_prefix(s: Seq<ListedEntry>, i: int)
    requires
        0 <= i <= s.len(),
    ensures
        listed_file_bytes(s.take(i)) <= listed_file_bytes(s),
    decreases s.len() - i,
{
    if i < s.len() {
        lemma_file_bytes_prefix(s, i + 1);
        assert(s.take(i + 1).drop_last() =~= s.take(i));
    } else {
        assert(s.take(i) =~= s);
    }
}

proof fn lemma_listing_err_persists(s: Seq<ListedEntry>, i: int)
    requires
        0 <= i <= s.len(),
        listing_of(s.take(i)) is Err,
    ensures
        listing_of(s) == listing_of(s.take(i)),
    decreases s.len() - i,
{
    if i < s.len() {
        assert(s.take(i + 1).drop_last() =~= s.take(i));
        lemma_listing_err_persists(s, i + 1);
    } else {
        assert(s.take(i) =~= s);
    }
}

/// The records of a directory listing, before sorting.
fn listing_records(path: &str, entries: &Vec<ListedEntry>) -> (r: Result<Vec<DirInfo>, String>)
    requires
        listed_file_bytes(entries@) <= u64::MAX,
    ensures
        listing_of(entries@) is Err <==> r is Err,
        listing_of(entries@) matches Err(m) ==> (r matches Err(e) && e@ == m),
        listing_of(entries@) matches Ok((d, b, c)) ==> (r matches Ok(v) && dir_views(v@) == listing_views(path@, d, b, c) && forall|k: int|
            0 <= k < v@.len() ==> (#[trigger] v@[k]).risk_level is None),
{
    let mut dirs: Vec<DirInfo> = Vec::new();
    let mut bytes: u64 = 0;
    let mut count: u64 = 0;
    let mut i: usize = 0;
    assert(entries@.take(0) =~= Seq::<ListedEntry>::empty());
    assert(dir_views(dirs@) =~= Seq::<DirView>::empty());
    while i < entries.len()
        invariant
            i <= entries@.len(),
            listed_file_bytes(entries@) <= u64::MAX,
            listing_of(entries@.take(i as int)) == Ok::<(Seq<DirView>, nat, nat), Seq<char>>(
                (dir_views(dirs@), bytes as nat, count as nat),
            ),
            forall|k: int| 0 <= k < dirs@.len() ==> (#[trigger] dirs@[k]).risk_level is None,
        decreases entries.len() - i,
    {
        proof {
            assert(entries@.take(i + 1).drop_last() =~= entries@.take(i as int));
            assert(entries@.take(i + 1).last() == entries@[i as int]);
            lemma_listing_bounds(entries@.take(i + 1));
            lemma_file_bytes_prefix(entries@, i + 1);
            lemma_listing_bounds(entries@.take(i as int));
        }
        match &entries[i] {
            ListedEntry::Dir { name, path: sub, measured } => {
                if !is_hidden_subdir(name.as_str()) {
                    match measured {
                        Err(e) => {
                            proof {
                                lemma_listing_err_persists(entries@, i + 1);
                            }
                            return Err(e.clone());
                        },
                        Ok(o) => {
                            let ghost before = dirs@;
                            dirs.push(DirInfo {
                                name: name.clone(),
                                path: sub.clone(),
                                size_bytes: o.size_bytes,
                                file_count: o.file_count,
                                dir_count: o.dir_count,
                                risk_level: None,
                            });
                            assert(dir_views(dirs@) =~= dir_views(before).push(dir_view(dirs@.last())));
                        },
                    }
                }
            },
            ListedEntry::File { len } => {
                match len {
                    Some(n) => {
                        bytes = bytes + *n;
                        count = count + 1;
                    },
                    None => {},
                }
            },
        }
        i = i + 1;
    }
    assert(entries@.take(entries@.len() as int) =~= entries@);
    if count > 0 {
        let ghost before = dirs@;
        dirs.push(DirInfo {
            name: owned("(files)"),
            path: owned(path),
            size_bytes: bytes,
            file_count: count,
            dir_count: 0,
            risk_level: None,
        });
        assert(dir_views(dirs@) =~= dir_views(before).push(dir_view(dirs@.last())));
    }
    Ok(dirs)
}

/// The subdirectories of a directory for drill-down, largest first, with a
/// `(files)` record for the directory's own files.
///
/// `exists` and `is_dir` are what the file system reported for the path, and
/// `entries` the directory's entries in listing order.
pub fn scan_directory(path: &str, exists: bool, is_dir: bool, entries: &Vec<ListedEntry>) -> (r: Result<Vec<DirInfo>, String>)
    requires
        listed_file_bytes(entries@) <= u64::MAX,
    ensures
        !exists ==> (r matches Err(e) && e@ == missing_dir_message(path@)),
        exists && !is_dir ==> (r matches Err(e) && e@ == not_a_dir_message(path@)),
        exists && is_dir ==> (listing_of(entries@) is Err <==> r is Err),
        exists && is_dir ==> (listing_of(entries@) matches Err(m) ==> (r matches Err(e) && e@ == m)),
        exists && is_dir ==> (listing_of(entries@) matches Ok((d, b, c)) ==> (r matches Ok(v)
            && sorted_listing(v@, listing_views(path@, d, b, c)))),
{
    if !exists {
        return Err(concat("Directory does not exist: ", path));
    }
    if !is_dir {
        return Err(concat("Not a directory: ", path));
    }
    match listing_records(path, entries) {
        Err(e) => Err(e),
        Ok(records) => {
            let sorted = sort_dirs_by_size_desc(&records);
            proof {
                if let Ok((d, b, c)) = listing_of(entries@) {
                    assert(is_listing(records@, listing_views(path@, d, b, c)));
                    assert(sorted_by_size_desc(records@, sorted@));
                }
            }
            Ok(sorted)
        },
    }
}

} // verus!
