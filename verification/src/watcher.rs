//! File system change batches, and the top-level directories of each drive
//! that a batch marks as needing a fresh measurement.
use vstd::prelude::*;
use crate::scanner::{sort_dirs_by_size_desc, sorted_by_size_desc, DirInfo, DriveInfo, DriveMeta};
use crate::text::{
    ascii_lower, before_char, before_char_of, chars_of, concat, eq_ignore_ascii_case, replace, replace_char, str_eq, string_of,
    to_ascii_lower, trim, trim_start_char, trim_start_of, trimmed, upper_ascii_char, upper_char,
};

verus! {

/// File system event kind.
#[derive(Debug, Clone, Copy, PartialEq, Eq, Structural)]
pub enum FsEventKind {
    Added,
    Removed,
    Modified,
}

/// A single file system event from the watcher.
#[derive(Debug, Clone)]
pub struct FsEvent {
    pub kind: FsEventKind,
    pub path: String,
    pub is_directory: bool,
    pub size_bytes: u64,
    pub previous_size_bytes: Option<u64>,
}

/// Aggregated changes for a batch window.
#[derive(Debug, Clone)]
pub struct FsChangeBatch {
    pub watched_dir: String,
    pub events: Vec<FsEvent>,
    pub event_count: usize,
    pub timestamp_ms: u64,
}

/// Configuration for the file system watcher.
#[derive(Debug, Clone)]
pub struct WatcherConfig {
    pub directories: Vec<String>,
    pub poll_interval_ms: u64,
    pub debounce_ms: u64,
}

/// The directories watched by default, from the `TEMP`, `USERPROFILE` and
/// `LOCALAPPDATA` environment values where they are set: the temporary
/// directory, the user's `Downloads` folder and the local application data.
pub open spec fn default_dirs_of(
    temp: Option<Seq<char>>,
    userprofile: Option<Seq<char>>,
    localappdata: Option<Seq<char>>,
) -> Seq<Seq<char>> {
    let a = match temp {
        Some(t) => seq![t],
        None => Seq::empty(),
    };
    let b = match userprofile {
        Some(u) => seq![u + seq!['\\', 'D', 'o', 'w', 'n', 'l', 'o', 'a', 'd', 's']],
        None => Seq::empty(),
    };
    let c = match localappdata {
        Some(l) => seq![l],
        None => Seq::empty(),
    };
    a + b + c
}

pub open spec fn opt_view(o: Option<String>) -> Option<Seq<char>> {
    match o {
        Some(s) => Some(s@),
        None => None,
    }
}

pub open spec fn strings_view(v: Seq<String>) -> Seq<Seq<char>> {
    v.map_values(|s: String| s@)
}

/// The default watch list, given the environment values that it is built from.
pub fn default_watch_dirs(
    temp: Option<String>,
    userprofile: Option<String>,
    localappdata: Option<String>,
) -> (r: Vec<String>)
    ensures
        strings_view(r@) == default_dirs_of(opt_view(temp), opt_view(userprofile), opt_view(localappdata)),
{
    let ghost t = opt_view(temp);
    let ghost u = opt_view(userprofile);
    let ghost l = opt_view(localappdata);
    let mut dirs: Vec<String> = Vec::new();
    if let Some(temp) = temp {
        dirs.push(temp);
    }
    assert(strings_view(dirs@) =~= default_dirs_of(t, None, None));
    if let Some(profile) = userprofile {
        let mut folder: Vec<char> = Vec::new();
        folder.push('\\');
        folder.push('D');
        folder.push('o');
        folder.push('w');
        folder.push('n');
        folder.push('l');
        folder.push('o');
        folder.push('a');
        folder.push('d');
        folder.push('s');
        assert(folder@ =~= seq!['\\', 'D', 'o', 'w', 'n', 'l', 'o', 'a', 'd', 's']);
        let folder = string_of(folder.as_slice());
        let path = concat(profile.as_str(), folder.as_str());
        let ghost before = dirs@;
        dirs.push(path);
        assert(strings_view(dirs@) =~= strings_view(before).push(path@));
    }
    assert(strings_view(dirs@) =~= default_dirs_of(t, u, None));
    if let Some(local) = localappdata {
        dirs.push(local);
    }
    assert(strings_view(dirs@) =~= default_dirs_of(t, u, l));
    dirs
}

impl WatcherConfig {
    /// The default configuration over the given watch list: a poll every two
    /// seconds and a debounce window of one and a half.
    pub fn with_directories(directories: Vec<String>) -> (r: WatcherConfig)
        ensures
            r.directories@ == directories@,
            r.poll_interval_ms == 2000,
            r.debounce_ms == 1500,
    {
        WatcherConfig { directories, poll_interval_ms: 2000, debounce_ms: 1500 }
    }
}

/// A top-level directory to measure again.
#[derive(Debug, Clone)]
pub struct DirtyTopDir {
    pub name: String,
    pub path: String,
}

/// The number of UTF-8 bytes of a character.
pub open spec fn utf8_len(c: char) -> nat {
    if (c as u32) < 0x80 {
        1
    } else if (c as u32) < 0x800 {
        2
    } else if (c as u32) < 0x10000 {
        3
    } else {
        4
    }
}

/// The text from byte 2 on of a path that starts with a drive letter and a
/// colon: after the colon for a one-byte letter, from the colon for a
/// two-byte one, and nothing where byte 2 falls inside the first character.
pub open spec fn from_byte_two(n: Seq<char>) -> Option<Seq<char>> {
    if utf8_len(n[0]) == 1 {
        Some(n.skip(2))
    } else if utf8_len(n[0]) == 2 {
        Some(n.skip(1))
    } else {
        None
    }
}

/// The drive, the name and the path of the top-level directory that a
/// changed path lies in, if the path starts with a drive and the directory
/// is not one the scan skips.
pub open spec fn top_level_of(path: Seq<char>) -> Option<(Seq<char>, Seq<char>, Seq<char>)> {
    let n = replace_char(path, '/', '\\');
    if n.len() < 2 || n[1] != ':' {
        None
    } else {
        match from_byte_two(n) {
            None => None,
            Some(rest) => {
                let name = trimmed(before_char(trim_start_char(rest, '\\'), '\\'));
                let d = upper_char(n[0]);
                if name.len() == 0 || ascii_lower(name) == "system volume information"@ || ascii_lower(name)
                    == "$recycle.bin"@ {
                    None
                } else {
                    Some((seq![d], name, seq![d, ':', '\\'] + name))
                }
            },
        }
    }
}

fn utf8_width(c: char) -> (r: usize)
    ensures
        r == utf8_len(c),
{
    let v = c as u32;
    if v < 0x80 {
        1
    } else if v < 0x800 {
        2
    } else if v < 0x10000 {
        3
    } else {
        4
    }
}

fn skip_chars(s: &[char], from: usize) -> (r: Vec<char>)
    requires
        from <= s.len(),
    ensures
        r@ == s@.skip(from as int),
{
    let mut out: Vec<char> = Vec::new();
    let mut k = from;
    while k < s.len()
        invariant
            from <= k <= s@.len(),
            out@ == s@.subrange(from as int, k as int),
        decreases s.len() - k,
    {
        out.push(s[k]);
        assert(s@.subrange(from as int, k + 1) =~= s@.subrange(from as int, k as int).push(s@[k as int]));
        k = k + 1;
    }
    assert(s@.subrange(from as int, s@.len() as int) =~= s@.skip(from as int));
    out
}

/// The top-level directory a changed path lies in: its drive letter, its
/// name and its path.
pub fn top_level_from_path(path: &str) -> (r: Option<(String, String, String)>)
    ensures
        match top_level_of(path@) {
            None => r is None,
            Some((d, name, p)) => r matches Some((rd, rn, rp)) && rd@ == d && rn@ == name && rp@ == p,
        },
{
    let cs = chars_of(path);
    let n = replace(cs.as_slice(), '/', '\\');
    if n.len() < 2 || n[1] != ':' {
        return None;
    }
    let w = utf8_width(n[0]);
    let rest = if w == 1 {
        skip_chars(n.as_slice(), 2)
    } else if w == 2 {
        skip_chars(n.as_slice(), 1)
    } else {
        return None;
    };
    let trimmed_rest = trim_start_of(rest.as_slice(), '\\');
    let first = before_char_of(trimmed_rest.as_slice(), '\\');
    let name = trim(first.as_slice());
    let lower = to_ascii_lower(name.as_slice());
    let lower_s = string_of(lower.as_slice());
    proof {
        reveal_strlit("system volume information");
        reveal_strlit("$recycle.bin");
    }
    if name.len() == 0 || str_eq(lower_s.as_str(), "system volume information") || str_eq(
        lower_s.as_str(),
        "$recycle.bin",
    ) {
        return None;
    }
    let d = upper_ascii_char(n[0]);
    let mut drive: Vec<char> = Vec::new();
    drive.push(d);
    let mut top: Vec<char> = Vec::new();
    top.push(d);
    top.push(':');
    top.push('\\');
    let mut k: usize = 0;
    while k < name.len()
        invariant
            k <= name@.len(),
            top@ == seq![d, ':', '\\'] + name@.take(k as int),
        decreases name.len() - k,
    {
        top.push(name[k]);
        assert(name@.take(k + 1) =~= name@.take(k as int).push(name@[k as int]));
        k = k + 1;
    }
    assert(name@.take(k as int) =~= name@);
    assert(drive@ =~= seq![d]);
    Some((string_of(drive.as_slice()), string_of(name.as_slice()), string_of(top.as_slice())))
}

/// Dirty top-level directories, grouped by drive: drives in the order they
/// first appear, and within a drive each directory once, with the name it
/// had when it first appeared.
pub open spec fn group_add(
    groups: Seq<(Seq<char>, Seq<(Seq<char>, Seq<char>)>)>,
    drive: Seq<char>,
    name: Seq<char>,
    path: Seq<char>,
) -> Seq<(Seq<char>, Seq<(Seq<char>, Seq<char>)>)> {
    match drive_slot(groups, drive) {
        None => groups.push((drive, seq![(path, name)])),
        Some(i) => if path_known(groups[i].1, path) {
            groups
        } else {
            groups.update(i, (drive, groups[i].1.push((path, name))))
        },
    }
}

pub open spec fn drive_slot(groups: Seq<(Seq<char>, Seq<(Seq<char>, Seq<char>)>)>, drive: Seq<char>) -> Option<int>
    decreases groups.len(),
{
    if groups.len() == 0 {
        None
    } else if groups.last().0 == drive {
        Some(groups.len() - 1)
    } else {
        drive_slot(groups.drop_last(), drive)
    }
}

proof fn lemma_drive_slot(groups: Seq<(Seq<char>, Seq<(Seq<char>, Seq<char>)>)>, drive: Seq<char>)
    ensures
        drive_slot(groups, drive) matches Some(i) ==> 0 <= i < groups.len() && groups[i].0 == drive,
    decreases groups.len(),
{
    if groups.len() > 0 && groups.last().0 != drive {
        lemma_drive_slot(groups.drop_last(), drive);
    }
}

pub open spec fn path_known(dirs: Seq<(Seq<char>, Seq<char>)>, path: Seq<char>) -> bool {
    exists|k: int| 0 <= k < dirs.len() && #[trigger] dirs[k].0 == path
}

/// The grouping of the dirty directories of the first `n` events.
pub open spec fn dirty_groups(events: Seq<FsEvent>, n: int) -> Seq<(Seq<char>, Seq<(Seq<char>, Seq<char>)>)>
    decreases n,
{
    if n <= 0 {
        Seq::empty()
    } else {
        let g = dirty_groups(events, n - 1);
        match top_level_of(events[n - 1].path@) {
            None => g,
            Some((d, name, p)) => group_add(g, d, name, p),
        }
    }
}

pub open spec fn groups_view(groups: Seq<(String, Vec<DirtyTopDir>)>) -> Seq<(Seq<char>, Seq<(Seq<char>, Seq<char>)>)> {
    groups.map_values(
        |g: (String, Vec<DirtyTopDir>)| (g.0@, g.1@.map_values(|t: DirtyTopDir| (t.path@, t.name@))),
    )
}

fn find_drive(groups: &Vec<(String, Vec<DirtyTopDir>)>, drive: &str) -> (r: Option<usize>)
    ensures
        match r {
            Some(i) => drive_slot(groups_view(groups@), drive@) == Some(i as int),
            None => drive_slot(groups_view(groups@), drive@) is None,
        },
{
    let ghost gv = groups_view(groups@);
    let mut i = groups.len();
    assert(gv.take(i as int) =~= gv);
    while i > 0
        invariant
            i <= groups@.len(),
            gv == groups_view(groups@),
            drive_slot(gv, drive@) == drive_slot(gv.take(i as int), drive@),
        decreases i,
    {
        assert(gv.take(i as int).drop_last() =~= gv.take(i - 1));
        assert(gv.take(i as int).last() == gv[i - 1]);
        if str_eq(groups[i - 1].0.as_str(), drive) {
            return Some(i - 1);
        }
        i = i - 1;
    }
    None
}

fn has_path(dirs: &Vec<DirtyTopDir>, path: &str) -> (r: bool)
    ensures
        r == path_known(dirs@.map_values(|t: DirtyTopDir| (t.path@, t.name@)), path@),
{
    let ghost dv = dirs@.map_values(|t: DirtyTopDir| (t.path@, t.name@));
    let mut i: usize = 0;
    while i < dirs.len()
        invariant
            i <= dirs@.len(),
            dv == dirs@.map_values(|t: DirtyTopDir| (t.path@, t.name@)),
            forall|k: int| 0 <= k < i ==> #[trigger] dv[k].0 != path@,
        decreases dirs.len() - i,
    {
        if str_eq(dirs[i].path.as_str(), path) {
            assert(dv[i as int].0 == path@);
            return true;
        }
        i = i + 1;
    }
    false
}

/// The top-level directories touched by a batch, grouped by drive.
pub fn dirty_top_dirs_from_batch(batch: &FsChangeBatch) -> (r: Vec<(String, Vec<DirtyTopDir>)>)
    ensures
        groups_view(r@) == dirty_groups(batch.events@, batch.events@.len() as int),
{
    let mut groups: Vec<(String, Vec<DirtyTopDir>)> = Vec::new();
    let mut i: usize = 0;
    while i < batch.events.len()
        invariant
            i <= batch.events@.len(),
            groups_view(groups@) == dirty_groups(batch.events@, i as int),
        decreases batch.events.len() - i,
    {
        match top_level_from_path(batch.events[i].path.as_str()) {
            None => {},
            Some((drive, name, top_path)) => {
                let ghost before = groups_view(groups@);
                let ghost gd = drive@;
                let ghost gn = name@;
                let ghost gp = top_path@;
                match find_drive(&groups, drive.as_str()) {
                    None => {
                        let mut dirs: Vec<DirtyTopDir> = Vec::new();
                        dirs.push(DirtyTopDir { name, path: top_path });
                        assert(dirs@.map_values(|t: DirtyTopDir| (t.path@, t.name@)) =~= seq![(gp, gn)]);
                        groups.push((drive, dirs));
                        assert(groups_view(groups@) =~= before.push((gd, seq![(gp, gn)])));
                        assert(groups_view(groups@) =~= group_add(before, gd, gn, gp));
                    },
                    Some(k) => {
                        proof {
                            lemma_drive_slot(before, gd);
                        }
                        if !has_path(&groups[k].1, top_path.as_str()) {
                            let (d, mut dirs) = groups.remove(k);
                            let ghost old_dirs = dirs@;
                            dirs.push(DirtyTopDir { name, path: top_path });
                            groups.insert(k, (d, dirs));
                            proof {
                                let gv = groups_view(groups@);
                                assert(gv.len() == before.len());
                                assert forall|j: int| 0 <= j < gv.len() implies #[trigger] gv[j] == group_add(
                                    before,
                                    gd,
                                    gn,
                                    gp,
                                )[j] by {
                                    if j == k {
                                        assert(gv[j].1 =~= before[j].1.push((gp, gn)));
                                    }
                                }
                                assert(gv =~= group_add(before, gd, gn, gp));
                            }
                        }
                    },
                }
            },
        }
        i = i + 1;
    }
    groups
}

// ── Refreshing a cached drive overview ─────────────────────

/// What measuring a dirty top-level directory again gave.
#[derive(Debug)]
pub enum DirtyOutcome {
    /// The directory exists and was measured.
    Measured(DirInfo),
    /// The directory exists but could not be measured; its cached entry stays.
    Failed,
    /// The directory no longer exists.
    Gone,
}

/// Paths compare without regard to ASCII case.
pub open spec fn same_path_ci(a: Seq<char>, b: Seq<char>) -> bool {
    ascii_lower(a) == ascii_lower(b)
}

/// The first cached entry for a path.
pub open spec fn path_index(dirs: Seq<DirInfo>, p: Seq<char>) -> Option<int>
    decreases dirs.len(),
{
    if dirs.len() == 0 {
        None
    } else if same_path_ci(dirs[0].path@, p) {
        Some(0)
    } else {
        match path_index(dirs.drop_first(), p) {
            Some(i) => Some(i + 1),
            None => None,
        }
    }
}

proof fn lemma_path_index(dirs: Seq<DirInfo>, p: Seq<char>, i: int)
    requires
        0 <= i <= dirs.len(),
        forall|k: int| 0 <= k < i ==> !same_path_ci(#[trigger] dirs[k].path@, p),
        i < dirs.len() ==> same_path_ci(dirs[i].path@, p),
    ensures
        path_index(dirs, p) == if i < dirs.len() {
            Some(i)
        } else {
            None::<int>
        },
    decreases i,
{
    if i > 0 {
        let t = dirs.drop_first();
        assert(!same_path_ci(dirs[0].path@, p));
        assert forall|k: int| 0 <= k < i - 1 implies !same_path_ci(#[trigger] t[k].path@, p) by {
            assert(t[k] == dirs[k + 1]);
        }
        if i < dirs.len() {
            assert(t[i - 1] == dirs[i]);
        }
        lemma_path_index(t, p, i - 1);
    }
}

/// A fresh measurement under the name and path of the dirty directory.
pub open spec fn refreshed_entry(d: DirInfo, t: DirtyTopDir) -> DirInfo {
    DirInfo {
        name: t.name,
        path: t.path,
        size_bytes: d.size_bytes,
        file_count: d.file_count,
        dir_count: d.dir_count,
        risk_level: d.risk_level,
    }
}

/// One dirty directory applied to the cached entries: a measured one replaces
/// its entry or is added, a gone one loses its entry, a failed one changes
/// nothing. The flag records whether anything changed.
pub open spec fn apply_refresh(dirs: Seq<DirInfo>, changed: bool, t: DirtyTopDir, o: DirtyOutcome) -> (Seq<DirInfo>, bool) {
    match o {
        DirtyOutcome::Measured(d) => match path_index(dirs, t.path@) {
            Some(i) => (dirs.update(i, refreshed_entry(d, t)), true),
            None => (dirs.push(refreshed_entry(d, t)), true),
        },
        DirtyOutcome::Failed => (dirs, changed),
        DirtyOutcome::Gone => match path_index(dirs, t.path@) {
            Some(i) => (dirs.remove(i), true),
            None => (dirs, changed),
        },
    }
}

/// All dirty directories applied in order.
pub open spec fn apply_all(dirs: Seq<DirInfo>, steps: Seq<(DirtyTopDir, DirtyOutcome)>) -> (Seq<DirInfo>, bool)
    decreases steps.len(),
{
    if steps.len() == 0 {
        (dirs, false)
    } else {
        let prev = apply_all(dirs, steps.drop_last());
        apply_refresh(prev.0, prev.1, steps.last().0, steps.last().1)
    }
}

fn find_cached(dirs: &Vec<DirInfo>, path: &str) -> (r: Option<usize>)
    ensures
        match r {
            Some(i) => path_index(dirs@, path@) == Some(i as int) && i < dirs@.len(),
            None => path_index(dirs@, path@) is None,
        },
{
    let mut i: usize = 0;
    while i < dirs.len()
        invariant
            i <= dirs@.len(),
            forall|k: int| 0 <= k < i ==> !same_path_ci(#[trigger] dirs@[k].path@, path@),
        decreases dirs.len() - i,
    {
        if eq_ignore_ascii_case(dirs[i].path.as_str(), path) {
            proof {
                lemma_path_index(dirs@, path@, i as int);
            }
            return Some(i);
        }
        i = i + 1;
    }
    proof {
        lemma_path_index(dirs@, path@, i as int);
    }
    None
}

/// The cached top-level entries of a drive after its dirty directories were
/// measured again, largest first; `None` when nothing changed.
pub fn refresh_cached_dirs(cached: Vec<DirInfo>, steps: Vec<(DirtyTopDir, DirtyOutcome)>) -> (r: Option<Vec<DirInfo>>)
    ensures
        !apply_all(cached@, steps@).1 ==> r is None,
        apply_all(cached@, steps@).1 ==> (r matches Some(v) && sorted_by_size_desc(
            apply_all(cached@, steps@).0,
            v@,
        )),
{
    let ghost all = steps@;
    let n = steps.len();
    let mut dirs = cached;
    let mut changed = false;
    let mut rest = steps;
    let mut i: usize = 0;
    assert(all.take(0) =~= Seq::<(DirtyTopDir, DirtyOutcome)>::empty());
    assert(all.skip(0) =~= all);
    while rest.len() > 0
        invariant
            i <= all.len(),
            all.len() == n,
            rest@ == all.skip(i as int),
            (dirs@, changed) == apply_all(cached@, all.take(i as int)),
        decreases rest.len(),
    {
        let (t, o) = rest.remove(0);
        assert(all.skip(i as int)[0] == all[i as int]);
        assert(all.skip(i as int).drop_first() =~= all.skip(i + 1));
        assert(all.take(i + 1).drop_last() =~= all.take(i as int));
        assert(all.take(i + 1).last() == all[i as int]);
        let ghost before = dirs@;
        let ghost was = changed;
        match o {
            DirtyOutcome::Measured(d) => {
                let at = find_cached(&dirs, t.path.as_str());
                let entry = DirInfo {
                    name: t.name,
                    path: t.path,
                    size_bytes: d.size_bytes,
                    file_count: d.file_count,
                    dir_count: d.dir_count,
                    risk_level: d.risk_level,
                };
                match at {
                    Some(k) => {
                        dirs.set(k, entry);
                    },
                    None => {
                        dirs.push(entry);
                    },
                }
                changed = true;
            },
            DirtyOutcome::Failed => {},
            DirtyOutcome::Gone => {
                match find_cached(&dirs, t.path.as_str()) {
                    Some(k) => {
                        dirs.remove(k);
                        changed = true;
                    },
                    None => {},
                }
            },
        }
        i = i + 1;
    }
    assert(all.take(i as int) =~= all);
    if !changed {
        return None;
    }
    Some(sort_dirs_by_size_desc(&dirs))
}

/// The refreshed overview of a drive: the live space figures where the drive
/// could be read, else those of the cached snapshot, and the refreshed
/// top-level entries.
pub fn refreshed_drive_info(
    drive_letter: String,
    live: Option<DriveMeta>,
    cached_total: u64,
    cached_used: u64,
    cached_free: u64,
    top_dirs: Vec<DirInfo>,
) -> (r: DriveInfo)
    ensures
        r.drive_letter == drive_letter,
        r.top_dirs == top_dirs,
        live matches Some(m) ==> r.total_bytes == m.total_bytes && r.used_bytes == m.used_bytes
            && r.free_bytes == m.free_bytes,
        live is None ==> r.total_bytes == cached_total && r.used_bytes == cached_used && r.free_bytes
            == cached_free,
{
    match live {
        Some(m) => DriveInfo {
            drive_letter,
            total_bytes: m.total_bytes,
            used_bytes: m.used_bytes,
            free_bytes: m.free_bytes,
            top_dirs,
        },
        None => DriveInfo {
            drive_letter,
            total_bytes: cached_total,
            used_bytes: cached_used,
            free_bytes: cached_free,
            top_dirs,
        },
    }
}

// ── Polling ────────────────────────────────────────────────

/// What a poll records of one path: its size, whether it is a directory, and
/// its modification time.
#[derive(Debug, Clone, Copy, PartialEq, Eq, Structural)]
pub struct PathState {
    pub size: u64,
    pub is_dir: bool,
    pub modified: u64,
}

/// The state recorded for a path in a poll (the first record for it).
pub open spec fn state_of(snap: Seq<(String, PathState)>, path: Seq<char>) -> Option<PathState>
    decreases snap.len(),
{
    if snap.len() == 0 {
        None
    } else if snap[0].0@ == path {
        Some(snap[0].1)
    } else {
        state_of(snap.drop_first(), path)
    }
}

/// An event as plain values.
pub open spec fn event_view(e: FsEvent) -> (FsEventKind, Seq<char>, bool, u64, Option<u64>) {
    (e.kind, e.path@, e.is_directory, e.size_bytes, e.previous_size_bytes)
}

pub open spec fn event_views(s: Seq<FsEvent>) -> Seq<(FsEventKind, Seq<char>, bool, u64, Option<u64>)> {
    s.map_values(|e: FsEvent| event_view(e))
}

/// The event for a path of the current poll: added when the previous poll
/// did not have it, modified when its size or time changed.
pub open spec fn current_change(prev: Seq<(String, PathState)>, entry: (String, PathState)) -> Seq<(FsEventKind, Seq<char>, bool, u64, Option<u64>)> {
    match state_of(prev, entry.0@) {
        None => seq![(FsEventKind::Added, entry.0@, entry.1.is_dir, entry.1.size, None::<u64>)],
        Some(old) => if old.size != entry.1.size || old.modified != entry.1.modified {
            seq![(FsEventKind::Modified, entry.0@, entry.1.is_dir, entry.1.size, None::<u64>)]
        } else {
            Seq::empty()
        },
    }
}

/// The added and modified paths, in the order of the current poll.
pub open spec fn current_changes(prev: Seq<(String, PathState)>, cur: Seq<(String, PathState)>) -> Seq<(FsEventKind, Seq<char>, bool, u64, Option<u64>)>
    decreases cur.len(),
{
    if cur.len() == 0 {
        Seq::empty()
    } else {
        current_changes(prev, cur.drop_last()) + current_change(prev, cur.last())
    }
}

/// The paths gone since the previous poll, in its order.
pub open spec fn removals(prev: Seq<(String, PathState)>, cur: Seq<(String, PathState)>) -> Seq<(FsEventKind, Seq<char>, bool, u64, Option<u64>)>
    decreases prev.len(),
{
    if prev.len() == 0 {
        Seq::empty()
    } else {
        removals(prev.drop_last(), cur) + if state_of(cur, prev.last().0@) is None {
            seq![(FsEventKind::Removed, prev.last().0@, false, 0u64, None::<u64>)]
        } else {
            Seq::empty()
        }
    }
}

fn find_state(snap: &Vec<(String, PathState)>, path: &str) -> (r: Option<PathState>)
    ensures
        r == state_of(snap@, path@),
{
    let mut i: usize = 0;
    assert(snap@.skip(0) =~= snap@);
    while i < snap.len()
        invariant
            i <= snap@.len(),
            state_of(snap@, path@) == state_of(snap@.skip(i as int), path@),
        decreases snap.len() - i,
    {
        assert(snap@.skip(i as int)[0] == snap@[i as int]);
        if str_eq(snap[i].0.as_str(), path) {
            return Some(snap[i].1);
        }
        assert(snap@.skip(i as int).drop_first() =~= snap@.skip(i + 1));
        i = i + 1;
    }
    assert(snap@.skip(i as int) =~= Seq::<(String, PathState)>::empty());
    None
}

/// How many of the events are about the path `p`.
pub open spec fn events_about(es: Seq<(FsEventKind, Seq<char>, bool, u64, Option<u64>)>, p: Seq<char>) -> nat
    decreases es.len(),
{
    if es.len() == 0 {
        0
    } else {
        events_about(es.drop_last(), p) + if es.last().1 == p {
            1nat
        } else {
            0nat
        }
    }
}

proof fn lemma_events_about_add(
    a: Seq<(FsEventKind, Seq<char>, bool, u64, Option<u64>)>,
    b: Seq<(FsEventKind, Seq<char>, bool, u64, Option<u64>)>,
    p: Seq<char>,
)
    ensures
        events_about(a + b, p) == events_about(a, p) + events_about(b, p),
    decreases b.len(),
{
    if b.len() == 0 {
        assert(a + b =~= a);
    } else {
        lemma_events_about_add(a, b.drop_last(), p);
        assert((a + b).drop_last() =~= a + b.drop_last());
        assert((a + b).last() == b.last());
    }
}

proof fn lemma_events_about_short(es: Seq<(FsEventKind, Seq<char>, bool, u64, Option<u64>)>, p: Seq<char>)
    requires
        es.len() <= 1,
    ensures
        events_about(es, p) == (if es.len() == 1 && es[0].1 == p { 1nat } else { 0nat }),
{
    if es.len() == 1 {
        assert(es.drop_last() =~= Seq::<(FsEventKind, Seq<char>, bool, u64, Option<u64>)>::empty());
        assert(events_about(es.drop_last(), p) == 0);
    }
}

proof fn lemma_state_present(snap: Seq<(String, PathState)>, i: int)
    requires
        0 <= i < snap.len(),
    ensures
        state_of(snap, snap[i].0@) is Some,
    decreases snap.len(),
{
    if snap[0].0@ != snap[i].0@ {
        assert(snap.drop_first()[i - 1] == snap[i]);
        lemma_state_present(snap.drop_first(), i - 1);
    }
}

proof fn lemma_no_removal_of_present(prev: Seq<(String, PathState)>, cur: Seq<(String, PathState)>, p: Seq<char>)
    requires
        state_of(cur, p) is Some,
    ensures
        events_about(removals(prev, cur), p) == 0,
    decreases prev.len(),
{
    if prev.len() > 0 {
        lemma_no_removal_of_present(prev.drop_last(), cur, p);
        let tail = if state_of(cur, prev.last().0@) is None {
            seq![(FsEventKind::Removed, prev.last().0@, false, 0u64, None::<u64>)]
        } else {
            Seq::empty()
        };
        lemma_events_about_add(removals(prev.drop_last(), cur), tail, p);
        lemma_events_about_short(tail, p);
    }
}

proof fn lemma_other_paths_silent(prev: Seq<(String, PathState)>, cur: Seq<(String, PathState)>, p: Seq<char>)
    requires
        forall|j: int| 0 <= j < cur.len() ==> (#[trigger] cur[j]).0@ != p,
    ensures
        events_about(current_changes(prev, cur), p) == 0,
    decreases cur.len(),
{
    if cur.len() > 0 {
        let c = cur.drop_last();
        assert forall|j: int| 0 <= j < c.len() implies (#[trigger] c[j]).0@ != p by {
            assert(c[j] == cur[j]);
        }
        lemma_other_paths_silent(prev, c, p);
        let one = current_change(prev, cur.last());
        lemma_events_about_add(current_changes(prev, c), one, p);
        assert(cur.last() == cur[cur.len() - 1]);
        lemma_events_about_short(one, p);
    }
}

proof fn lemma_entry_events(prev: Seq<(String, PathState)>, cur: Seq<(String, PathState)>, i: int)
    requires
        0 <= i < cur.len(),
        forall|j: int| 0 <= j < cur.len() && j != i ==> (#[trigger] cur[j]).0@ != cur[i].0@,
    ensures
        events_about(current_changes(prev, cur), cur[i].0@) == current_change(prev, cur[i]).len(),
        current_change(prev, cur[i]).len() == 1 ==> current_changes(prev, cur).contains(
            current_change(prev, cur[i])[0],
        ),
    decreases cur.len(),
{
    let p = cur[i].0@;
    let c = cur.drop_last();
    let n = cur.len() - 1;
    let one = current_change(prev, cur.last());
    assert(cur.last() == cur[n]);
    lemma_events_about_add(current_changes(prev, c), one, p);
    lemma_events_about_short(one, p);
    if i == n {
        assert forall|j: int| 0 <= j < c.len() implies (#[trigger] c[j]).0@ != p by {
            assert(c[j] == cur[j]);
        }
        lemma_other_paths_silent(prev, c, p);
        if one.len() == 1 {
            let all = current_changes(prev, c) + one;
            assert(all[current_changes(prev, c).len() as int] == one[0]);
        }
    } else {
        assert(c[i] == cur[i]);
        assert forall|j: int| 0 <= j < c.len() && j != i implies (#[trigger] c[j]).0@ != c[i].0@ by {
            assert(c[j] == cur[j]);
        }
        lemma_entry_events(prev, c, i);
        assert(cur[n].0@ != p);
        if current_change(prev, cur[i]).len() == 1 {
            let front = current_changes(prev, c);
            let x = current_change(prev, cur[i])[0];
            let k = choose|k: int| 0 <= k < front.len() && front[k] == x;
            assert((front + one)[k] == x);
        }
    }
}

/// A path found in both polls whose size or modification time changed is
/// reported exactly once, as modified, with its current size and kind; this
/// holds when only the time changed and the size is the same.
pub proof fn law_changed_path_reported_once(
    previous: Seq<(String, PathState)>,
    current: Seq<(String, PathState)>,
    events: Seq<FsEvent>,
    i: int,
    old: PathState,
)
    requires
        event_views(events) == current_changes(previous, current) + removals(previous, current),
        0 <= i < current.len(),
        forall|j: int| 0 <= j < current.len() && j != i ==> (#[trigger] current[j]).0@ != current[i].0@,
        state_of(previous, current[i].0@) == Some(old),
        old.size != current[i].1.size || old.modified != current[i].1.modified,
    ensures
        events_about(event_views(events), current[i].0@) == 1,
        exists|k: int|
            0 <= k < events.len() && #[trigger] events[k].kind == FsEventKind::Modified && events[k].path@
                == current[i].0@ && events[k].is_directory == current[i].1.is_dir && events[k].size_bytes
                == current[i].1.size,
{
    let p = current[i].0@;
    lemma_entry_events(previous, current, i);
    lemma_state_present(current, i);
    lemma_no_removal_of_present(previous, current, p);
    lemma_events_about_add(current_changes(previous, current), removals(previous, current), p);
    let ev = (FsEventKind::Modified, p, current[i].1.is_dir, current[i].1.size, None::<u64>);
    assert(current_change(previous, current[i]) == seq![ev]);
    let front = current_changes(previous, current);
    let k = choose|k: int| 0 <= k < front.len() && front[k] == ev;
    let all = front + removals(previous, current);
    assert(all[k] == ev);
    assert(event_views(events)[k] == event_view(events[k]));
    assert(events[k].kind == FsEventKind::Modified);
}

/// A path that the previous poll did not have is reported exactly once, as
/// added, with its current size and kind.
pub proof fn law_new_path_reported_once(
    previous: Seq<(String, PathState)>,
    current: Seq<(String, PathState)>,
    events: Seq<FsEvent>,
    i: int,
)
    requires
        event_views(events) == current_changes(previous, current) + removals(previous, current),
        0 <= i < current.len(),
        forall|j: int| 0 <= j < current.len() && j != i ==> (#[trigger] current[j]).0@ != current[i].0@,
        state_of(previous, current[i].0@) is None,
    ensures
        events_about(event_views(events), current[i].0@) == 1,
        exists|k: int|
            0 <= k < events.len() && #[trigger] events[k].kind == FsEventKind::Added && events[k].path@
                == current[i].0@ && events[k].is_directory == current[i].1.is_dir && events[k].size_bytes
                == current[i].1.size,
{
    let p = current[i].0@;
    lemma_entry_events(previous, current, i);
    lemma_state_present(current, i);
    lemma_no_removal_of_present(previous, current, p);
    lemma_events_about_add(current_changes(previous, current), removals(previous, current), p);
    let ev = (FsEventKind::Added, p, current[i].1.is_dir, current[i].1.size, None::<u64>);
    assert(current_change(previous, current[i]) == seq![ev]);
    let front = current_changes(previous, current);
    let k = choose|k: int| 0 <= k < front.len() && front[k] == ev;
    let all = front + removals(previous, current);
    assert(all[k] == ev);
    assert(event_views(events)[k] == event_view(events[k]));
    assert(events[k].kind == FsEventKind::Added);
}

/// A path found in both polls with the same size and modification time is
/// not reported.
pub proof fn law_unchanged_path_not_reported(
    previous: Seq<(String, PathState)>,
    current: Seq<(String, PathState)>,
    events: Seq<FsEvent>,
    i: int,
    old: PathState,
)
    requires
        event_views(events) == current_changes(previous, current) + removals(previous, current),
        0 <= i < current.len(),
        forall|j: int| 0 <= j < current.len() && j != i ==> (#[trigger] current[j]).0@ != current[i].0@,
        state_of(previous, current[i].0@) == Some(old),
        old.size == current[i].1.size,
        old.modified == current[i].1.modified,
    ensures
        events_about(event_views(events), current[i].0@) == 0,
{
    let p = current[i].0@;
    lemma_entry_events(previous, current, i);
    lemma_state_present(current, i);
    lemma_no_removal_of_present(previous, current, p);
    lemma_events_about_add(current_changes(previous, current), removals(previous, current), p);
}

proof fn lemma_absent_from(snap: Seq<(String, PathState)>, p: Seq<char>)
    requires
        state_of(snap, p) is None,
    ensures
        forall|j: int| 0 <= j < snap.len() ==> (#[trigger] snap[j]).0@ != p,
{
    assert forall|j: int| 0 <= j < snap.len() implies (#[trigger] snap[j]).0@ != p by {
        if snap[j].0@ == p {
            lemma_state_present(snap, j);
        }
    }
}

proof fn lemma_removal_once(prev: Seq<(String, PathState)>, cur: Seq<(String, PathState)>, i: int)
    requires
        0 <= i < prev.len(),
        forall|j: int| 0 <= j < prev.len() && j != i ==> (#[trigger] prev[j]).0@ != prev[i].0@,
        state_of(cur, prev[i].0@) is None,
    ensures
        events_about(removals(prev, cur), prev[i].0@) == 1,
        removals(prev, cur).contains((FsEventKind::Removed, prev[i].0@, false, 0u64, None::<u64>)),
    decreases prev.len(),
{
    let p = prev[i].0@;
    let ev = (FsEventKind::Removed, p, false, 0u64, None::<u64>);
    let d = prev.drop_last();
    let n = prev.len() - 1;
    assert(prev.last() == prev[n]);
    let tail = if state_of(cur, prev.last().0@) is None {
        seq![(FsEventKind::Removed, prev.last().0@, false, 0u64, None::<u64>)]
    } else {
        Seq::empty()
    };
    lemma_events_about_add(removals(d, cur), tail, p);
    lemma_events_about_short(tail, p);
    if i == n {
        lemma_removals_silent(d, cur, p);
        let all = removals(d, cur) + tail;
        assert(all[removals(d, cur).len() as int] == ev);
    } else {
        assert(d[i] == prev[i]);
        assert forall|j: int| 0 <= j < d.len() && j != i implies (#[trigger] d[j]).0@ != d[i].0@ by {
            assert(d[j] == prev[j]);
        }
        lemma_removal_once(d, cur, i);
        assert(prev[n].0@ != p);
        let front = removals(d, cur);
        let k = choose|k: int| 0 <= k < front.len() && front[k] == ev;
        assert((front + tail)[k] == ev);
    }
}

proof fn lemma_removals_silent(prev: Seq<(String, PathState)>, cur: Seq<(String, PathState)>, p: Seq<char>)
    requires
        forall|j: int| 0 <= j < prev.len() ==> (#[trigger] prev[j]).0@ != p,
    ensures
        events_about(removals(prev, cur), p) == 0,
    decreases prev.len(),
{
    if prev.len() > 0 {
        let d = prev.drop_last();
        assert forall|j: int| 0 <= j < d.len() implies (#[trigger] d[j]).0@ != p by {
            assert(d[j] == prev[j]);
        }
        lemma_removals_silent(d, cur, p);
        let tail = if state_of(cur, prev.last().0@) is None {
            seq![(FsEventKind::Removed, prev.last().0@, false, 0u64, None::<u64>)]
        } else {
            Seq::empty()
        };
        assert(prev.last() == prev[prev.len() - 1]);
        lemma_events_about_add(removals(d, cur), tail, p);
        lemma_events_about_short(tail, p);
    }
}

/// A path that the previous poll had and the current one lacks is reported
/// exactly once, as removed.
pub proof fn law_removed_path_reported_once(
    previous: Seq<(String, PathState)>,
    current: Seq<(String, PathState)>,
    events: Seq<FsEvent>,
    i: int,
)
    requires
        event_views(events) == current_changes(previous, current) + removals(previous, current),
        0 <= i < previous.len(),
        forall|j: int| 0 <= j < previous.len() && j != i ==> (#[trigger] previous[j]).0@ != previous[i].0@,
        state_of(current, previous[i].0@) is None,
    ensures
        events_about(event_views(events), previous[i].0@) == 1,
        exists|k: int|
            0 <= k < events.len() && #[trigger] events[k].kind == FsEventKind::Removed && events[k].path@
                == previous[i].0@,
{
    let p = previous[i].0@;
    lemma_absent_from(current, p);
    lemma_other_paths_silent(previous, current, p);
    lemma_removal_once(previous, current, i);
    lemma_events_about_add(current_changes(previous, current), removals(previous, current), p);
    let ev = (FsEventKind::Removed, p, false, 0u64, None::<u64>);
    let back = removals(previous, current);
    let front = current_changes(previous, current);
    let k = choose|k: int| 0 <= k < back.len() && back[k] == ev;
    let all = front + back;
    assert(all[front.len() + k] == ev);
    assert(event_views(events)[front.len() + k] == event_view(events[front.len() + k]));
    assert(events[front.len() + k].kind == FsEventKind::Removed);
}


/// The changes between two polls of a directory: the added and modified
/// paths in the order of the current poll, then the removed ones in the order
/// of the previous poll.
pub fn diff_snapshots(previous: &Vec<(String, PathState)>, current: &Vec<(String, PathState)>) -> (r: Vec<FsEvent>)
    ensures
        event_views(r@) == current_changes(previous@, current@) + removals(previous@, current@),
{
    let mut events: Vec<FsEvent> = Vec::new();
    let mut i: usize = 0;
    while i < current.len()
        invariant
            i <= current@.len(),
            event_views(events@) == current_changes(previous@, current@.take(i as int)),
        decreases current.len() - i,
    {
        assert(current@.take(i + 1).drop_last() =~= current@.take(i as int));
        assert(current@.take(i + 1).last() == current@[i as int]);
        let ghost before = event_views(events@);
        let path = &current[i].0;
        let st = current[i].1;
        match find_state(previous, path.as_str()) {
            None => {
                events.push(FsEvent {
                    kind: FsEventKind::Added,
                    path: path.clone(),
                    is_directory: st.is_dir,
                    size_bytes: st.size,
                    previous_size_bytes: None,
                });
                assert(event_views(events@) =~= before + current_change(previous@, current@[i as int]));
            },
            Some(old) => {
                if old.size != st.size || old.modified != st.modified {
                    events.push(FsEvent {
                        kind: FsEventKind::Modified,
                        path: path.clone(),
                        is_directory: st.is_dir,
                        size_bytes: st.size,
                        previous_size_bytes: None,
                    });
                    assert(event_views(events@) =~= before + current_change(previous@, current@[i as int]));
                } else {
                    assert(event_views(events@) =~= before + current_change(previous@, current@[i as int]));
                }
            },
        }
        i = i + 1;
    }
    assert(current@.take(current@.len() as int) =~= current@);
    let ghost head = event_views(events@);
    let mut j: usize = 0;
    assert(previous@.take(0) =~= Seq::<(String, PathState)>::empty());
    assert(head + removals(previous@.take(0), current@) =~= head);
    while j < previous.len()
        invariant
            j <= previous@.len(),
            head == current_changes(previous@, current@),
            event_views(events@) == head + removals(previous@.take(j as int), current@),
        decreases previous.len() - j,
    {
        assert(previous@.take(j + 1).drop_last() =~= previous@.take(j as int));
        assert(previous@.take(j + 1).last() == previous@[j as int]);
        let ghost before = event_views(events@);
        let path = &previous[j].0;
        match find_state(current, path.as_str()) {
            None => {
                events.push(FsEvent {
                    kind: FsEventKind::Removed,
                    path: path.clone(),
                    is_directory: false,
                    size_bytes: 0,
                    previous_size_bytes: None,
                });
                assert(event_views(events@) =~= before.push((FsEventKind::Removed, path@, false, 0u64, None::<u64>)));
            },
            Some(_) => {},
        }
        assert(event_views(events@) == head + removals(previous@.take(j + 1), current@));
        j = j + 1;
    }
    assert(previous@.take(previous@.len() as int) =~= previous@);
    events
}

/// A batch is sent when events are pending and the debounce window passed.
pub fn flush_due(pending: usize, elapsed_ms: u64, debounce_ms: u64) -> (r: bool)
    ensures
        r == (pending > 0 && elapsed_ms >= debounce_ms),
{
    pending > 0 && elapsed_ms >= debounce_ms
}

/// A batch of pending events for a watched directory.
pub fn make_batch(watched_dir: String, events: Vec<FsEvent>, timestamp_ms: u64) -> (r: FsChangeBatch)
    ensures
        r.watched_dir == watched_dir,
        r.events == events,
        r.event_count == events@.len(),
        r.timestamp_ms == timestamp_ms,
{
    let n = events.len();
    FsChangeBatch { watched_dir, events, event_count: n, timestamp_ms }
}

/// The batch sent with what is still pending when watching stops: the events
/// and the time, with the count left at 0 as the closing flush reports it.
pub fn closing_batch(watched_dir: String, events: Vec<FsEvent>, timestamp_ms: u64) -> (r: FsChangeBatch)
    ensures
        r.watched_dir == watched_dir,
        r.events == events,
        r.event_count == 0,
        r.timestamp_ms == timestamp_ms,
{
    FsChangeBatch { watched_dir, events, event_count: 0, timestamp_ms }
}

/// The first pending group of a watched directory.
pub open spec fn group_index(pending: Seq<(String, Vec<FsEvent>)>, dir: Seq<char>) -> Option<int>
    decreases pending.len(),
{
    if pending.len() == 0 {
        None
    } else if pending[0].0@ == dir {
        Some(0)
    } else {
        match group_index(pending.drop_first(), dir) {
            Some(k) => Some(k + 1),
            None => None,
        }
    }
}

proof fn lemma_group_index(pending: Seq<(String, Vec<FsEvent>)>, dir: Seq<char>)
    ensures
        group_index(pending, dir) matches Some(k) ==> 0 <= k < pending.len() && pending[k].0@ == dir
            && forall|j: int| 0 <= j < k ==> pending[j].0@ != dir,
        group_index(pending, dir) is None ==> forall|j: int| 0 <= j < pending.len() ==> pending[j].0@ != dir,
    decreases pending.len(),
{
    if pending.len() > 0 {
        lemma_group_index(pending.drop_first(), dir);
        assert forall|j: int| 1 <= j < pending.len() implies pending[j] == pending.drop_first()[j - 1] by {}
    }
}

/// Add an event to the pending events of its watched directory: appended to
/// the directory's group, or as a new group at the end.
pub fn add_pending(pending: &mut Vec<(String, Vec<FsEvent>)>, dir: String, event: FsEvent)
    ensures
        group_index(old(pending)@, dir@) matches Some(k) ==> final(pending)@.len() == old(pending)@.len()
            && final(pending)@[k].0@ == dir@ && final(pending)@[k].1@ == old(pending)@[k].1@.push(event)
            && forall|j: int| 0 <= j < old(pending)@.len() && j != k ==> #[trigger] final(pending)@[j] == old(pending)@[j],
        group_index(old(pending)@, dir@) is None ==> final(pending)@.len() == old(pending)@.len() + 1
            && final(pending)@[old(pending)@.len() as int].0@ == dir@
            && final(pending)@[old(pending)@.len() as int].1@ == seq![event]
            && forall|j: int| 0 <= j < old(pending)@.len() ==> #[trigger] final(pending)@[j] == old(pending)@[j],
{
    let ghost orig = pending@;
    proof {
        lemma_group_index(orig, dir@);
    }
    let mut i: usize = 0;
    while i < pending.len()
        invariant
            pending@ == orig,
            orig == old(pending)@,
            i <= pending@.len(),
            forall|j: int| 0 <= j < i ==> pending@[j].0@ != dir@,
        decreases pending.len() - i,
    {
        if str_eq(pending[i].0.as_str(), dir.as_str()) {
            proof {
                lemma_group_index(orig, dir@);
            }
            let entry = pending.remove(i);
            assert(entry == orig[i as int]);
            let (d, mut events) = entry;
            events.push(event);
            assert(events@ == orig[i as int].1@.push(event));
            pending.insert(i, (d, events));
            assert(pending@ =~= orig.update(i as int, pending@[i as int]));
            return;
        }
        i = i + 1;
    }
    let mut events: Vec<FsEvent> = Vec::new();
    events.push(event);
    pending.push((dir, events));
}

} // verus!
