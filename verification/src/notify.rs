//! Reading the change-notification buffers that the native watchers receive:
//! Windows `FILE_NOTIFY_INFORMATION` chains and Linux `inotify_event` runs.
//! Each entry becomes the kind of change and the name it concerns; the
//! watcher then joins the name to its directory and looks the file up.
use vstd::prelude::*;
use crate::mft::{from_utf16_lossy, le_value, lemma_le_bound, pow256, read_le, units_of, utf16_lossy};
use crate::watcher::{FsEvent, FsEventKind};

verus! {

pub const FILE_ACTION_ADDED: u64 = 1;
pub const FILE_ACTION_REMOVED: u64 = 2;
pub const FILE_ACTION_RENAMED_OLD_NAME: u64 = 4;
pub const FILE_ACTION_RENAMED_NEW_NAME: u64 = 5;

pub const IN_MOVED_FROM: u32 = 0x40;
pub const IN_MOVED_TO: u32 = 0x80;
pub const IN_CREATE: u32 = 0x100;
pub const IN_DELETE: u32 = 0x200;
pub const IN_ISDIR: u32 = 0x40000000;

pub const FSEVENT_FLAG_ITEM_CREATED: u32 = 0x0000_0100;
pub const FSEVENT_FLAG_ITEM_REMOVED: u32 = 0x0000_0200;
pub const FSEVENT_FLAG_ITEM_RENAMED: u32 = 0x0000_0800;
pub const FSEVENT_FLAG_ITEM_MODIFIED: u32 = 0x0000_1000;
pub const FSEVENT_FLAG_ITEM_IS_DIR: u32 = 0x0002_0000;

/// The change a macOS FSEvents item flag reports: a removal or a rename
/// removes, a creation adds, anything else (a modification or no item flag
/// at all) modifies. Removal outranks creation when both bits are set.
pub open spec fn fsevent_flag_kind(flag: u32) -> FsEventKind {
    if flag & FSEVENT_FLAG_ITEM_REMOVED != 0 || flag & FSEVENT_FLAG_ITEM_RENAMED != 0 {
        FsEventKind::Removed
    } else if flag & FSEVENT_FLAG_ITEM_CREATED != 0 {
        FsEventKind::Added
    } else {
        FsEventKind::Modified
    }
}

/// Decodes the kind of change from an FSEvents item flag.
pub fn fsevent_kind(flag: u32) -> (k: FsEventKind)
    ensures
        k == fsevent_flag_kind(flag),
{
    if flag & FSEVENT_FLAG_ITEM_REMOVED != 0 || flag & FSEVENT_FLAG_ITEM_RENAMED != 0 {
        FsEventKind::Removed
    } else if flag & FSEVENT_FLAG_ITEM_CREATED != 0 {
        FsEventKind::Added
    } else if flag & FSEVENT_FLAG_ITEM_MODIFIED != 0 {
        FsEventKind::Modified
    } else {
        FsEventKind::Modified
    }
}

/// The watcher event for one FSEvents entry: the kind from the flag, the
/// directory bit from the flag, the path as reported and the size found on
/// disk (0 where the item is gone). FSEvents reports no earlier size.
pub fn fsevent_record(flag: u32, path: String, size_bytes: u64) -> (e: FsEvent)
    ensures
        e.kind == fsevent_flag_kind(flag),
        e.path@ == path@,
        e.is_directory == (flag & FSEVENT_FLAG_ITEM_IS_DIR != 0),
        e.size_bytes == size_bytes,
        e.previous_size_bytes is None,
{
    FsEvent {
        kind: fsevent_kind(flag),
        path,
        is_directory: flag & FSEVENT_FLAG_ITEM_IS_DIR != 0,
        size_bytes,
        previous_size_bytes: None,
    }
}

/// The change a Windows notification action reports: removals and the old
/// name of a rename remove, additions and the new name add, anything else
/// modifies.
pub open spec fn action_kind(action: nat) -> FsEventKind {
    if action == FILE_ACTION_REMOVED || action == FILE_ACTION_RENAMED_OLD_NAME {
        FsEventKind::Removed
    } else if action == FILE_ACTION_ADDED || action == FILE_ACTION_RENAMED_NEW_NAME {
        FsEventKind::Added
    } else {
        FsEventKind::Modified
    }
}

/// The entries of a notification chain from `off` on. An entry is 16 bytes
/// or more: the offset of the next entry, the action, the byte length of the
/// name, and the name in UTF-16 from byte 12. The chain ends at a next offset
/// of zero, at an entry that does not fit, or at a name that runs past the
/// buffer.
pub open spec fn notify_entries(b: Seq<u8>, off: int) -> Seq<(FsEventKind, Seq<char>)>
    decreases b.len() - off,
{
    if off < 0 || off + 16 > b.len() {
        Seq::empty()
    } else {
        let next = le_value(b.subrange(off, off + 4));
        let action = le_value(b.subrange(off + 4, off + 8));
        let name_len = le_value(b.subrange(off + 8, off + 12)) / 2 * 2;
        if off + 12 + name_len > b.len() {
            Seq::empty()
        } else {
            let rec = (
                action_kind(action),
                utf16_lossy(units_of(b.subrange(off + 12, off + 12 + name_len))),
            );
            if next == 0 || off + next + 16 > b.len() {
                seq![rec]
            } else {
                seq![rec] + notify_entries(b, off + next)
            }
        }
    }
}

/// One entry of a Windows notification chain.
#[derive(Debug, Clone)]
pub struct NotifyRecord {
    pub kind: FsEventKind,
    pub name: String,
}

pub open spec fn notify_view(r: NotifyRecord) -> (FsEventKind, Seq<char>) {
    (r.kind, r.name@)
}

pub open spec fn notify_views(s: Seq<NotifyRecord>) -> Seq<(FsEventKind, Seq<char>)> {
    s.map_values(|r: NotifyRecord| notify_view(r))
}

fn kind_of_action(action: u64) -> (k: FsEventKind)
    ensures
        k == action_kind(action as nat),
{
    if action == FILE_ACTION_REMOVED || action == FILE_ACTION_RENAMED_OLD_NAME {
        FsEventKind::Removed
    } else if action == FILE_ACTION_ADDED || action == FILE_ACTION_RENAMED_NEW_NAME {
        FsEventKind::Added
    } else {
        FsEventKind::Modified
    }
}

/// The UTF-16 units of `count` little-endian pairs of `b` from `at`.
fn read_units(b: &[u8], at: usize, count: usize) -> (r: Vec<u16>)
    requires
        at + 2 * count <= b@.len(),
    ensures
        r@ == units_of(b@.subrange(at as int, at + 2 * count)),
{
    let ghost nb = b@.subrange(at as int, at + 2 * count);
    let blen = b.len();
    let mut units: Vec<u16> = Vec::new();
    let mut k: usize = 0;
    while k < count
        invariant
            blen == b@.len(),
            at + 2 * count <= b@.len(),
            nb == b@.subrange(at as int, at + 2 * count),
            k <= count,
            units@ == units_of(nb).take(k as int),
        decreases count - k,
    {
        assert(at + 2 * k + 1 < b@.len());
        let lo = b[at + 2 * k];
        let hi = b[at + 2 * k + 1];
        let u: u16 = lo as u16 + (hi as u16) * 256;
        assert(nb[2 * k as int] == lo && nb[2 * k + 1] == hi);
        units.push(u);
        assert(units_of(nb).take(k + 1) =~= units_of(nb).take(k as int).push(units_of(nb)[k as int]));
        k = k + 1;
    }
    assert(units_of(nb).take(k as int) =~= units_of(nb));
    units
}

proof fn lemma_u32_field(b: Seq<u8>, at: int)
    requires
        0 <= at,
        at + 4 <= b.len(),
    ensures
        le_value(b.subrange(at, at + 4)) < 4294967296,
{
    lemma_le_bound(b.subrange(at, at + 4));
    assert(pow256(4) == 4294967296nat) by {
        reveal_with_fuel(pow256, 5);
    }
}

/// The entries of a Windows change-notification buffer, in chain order.
pub fn parse_native_notify_buffer(buffer: &[u8]) -> (r: Vec<NotifyRecord>)
    ensures
        notify_views(r@) == notify_entries(buffer@, 0),
{
    let mut records: Vec<NotifyRecord> = Vec::new();
    let mut offset: usize = 0;
    assert(notify_views(records@) + notify_entries(buffer@, 0) =~= notify_entries(buffer@, 0));
    loop
        invariant_except_break
            offset <= buffer@.len(),
            notify_views(records@) + notify_entries(buffer@, offset as int) == notify_entries(buffer@, 0),
        ensures
            notify_views(records@) == notify_entries(buffer@, 0),
        decreases buffer.len() - offset,
    {
        if buffer.len() - offset < 16 {
            assert(notify_entries(buffer@, offset as int) =~= Seq::empty());
            assert(notify_views(records@) + Seq::empty() =~= notify_views(records@));
            break;
        }
        let ghost b = buffer@;
        let ghost off = offset as int;
        let next = read_le(buffer, offset, 4);
        let action = read_le(buffer, offset + 4, 4);
        let raw_len = read_le(buffer, offset + 8, 4);
        proof {
            lemma_u32_field(b, off);
            lemma_u32_field(b, off + 8);
        }
        let name_len: usize = (raw_len / 2 * 2) as usize;
        if name_len > buffer.len() - offset - 12 {
            assert(notify_entries(b, off) =~= Seq::empty());
            assert(notify_views(records@) + Seq::empty() =~= notify_views(records@));
            break;
        }
        let units = read_units(buffer, offset + 12, name_len / 2);
        assert(offset + 12 + 2 * (name_len / 2) == offset + 12 + name_len);
        let name = from_utf16_lossy(units.as_slice());
        let kind = kind_of_action(action);
        let ghost before = notify_views(records@);
        let ghost rec = (action_kind(action as nat), utf16_lossy(units_of(b.subrange(off + 12, off + 12 + name_len))));
        records.push(NotifyRecord { kind, name });
        assert(notify_views(records@) =~= before.push(rec));
        if next == 0 || next as usize > buffer.len() - offset - 16 {
            assert(notify_entries(b, off) == seq![rec]);
            assert(notify_views(records@) =~= before + seq![rec]);
            break;
        }
        assert(notify_entries(b, off) == seq![rec] + notify_entries(b, off + next));
        assert(before.push(rec) + notify_entries(b, off + next) =~= before + (seq![rec] + notify_entries(b, off + next)));
        offset = offset + next as usize;
    }
    records
}

// ── inotify ────────────────────────────────────────────────

/// What `String::from_utf8_lossy` gives for these bytes.
pub uninterp spec fn utf8_lossy(bytes: Seq<u8>) -> Seq<char>;

/// `String::from_utf8_lossy`, owned: the contract names the result.
#[verifier::external_body]
fn from_utf8_lossy(bytes: &[u8]) -> (r: String)
    ensures
        r@ == utf8_lossy(bytes@),
{
    String::from_utf8_lossy(bytes).into_owned()
}

/// Index of the first zero byte, if any.
pub open spec fn first_nul(s: Seq<u8>) -> Option<int>
    decreases s.len(),
{
    if s.len() == 0 {
        None
    } else if s[0] == 0 {
        Some(0)
    } else {
        match first_nul(s.drop_first()) {
            Some(i) => Some(i + 1),
            None => None,
        }
    }
}

/// The name field of an inotify entry: the text before its first zero byte,
/// and empty where it has none.
pub open spec fn c_name(s: Seq<u8>) -> Seq<char> {
    match first_nul(s) {
        Some(i) => utf8_lossy(s.take(i)),
        None => Seq::empty(),
    }
}

/// The directory watched under a descriptor.
pub open spec fn dir_for(dirs: Seq<(i32, String)>, wd: i32) -> Option<Seq<char>>
    decreases dirs.len(),
{
    if dirs.len() == 0 {
        None
    } else if dirs[0].0 == wd {
        Some(dirs[0].1@)
    } else {
        dir_for(dirs.drop_first(), wd)
    }
}

/// The change an inotify mask reports.
pub open spec fn mask_kind(mask: u32) -> FsEventKind {
    if mask & (IN_DELETE | IN_MOVED_FROM) != 0 {
        FsEventKind::Removed
    } else if mask & (IN_CREATE | IN_MOVED_TO) != 0 {
        FsEventKind::Added
    } else {
        FsEventKind::Modified
    }
}

pub open spec fn min_int(a: int, b: int) -> int {
    if a <= b {
        a
    } else {
        b
    }
}

/// The events of an inotify buffer from `off` on, with the directory each was
/// reported for. An entry is a 16-byte header (descriptor, mask, cookie,
/// name length) and the name; entries for unknown descriptors are skipped.
pub open spec fn inotify_entries(b: Seq<u8>, off: int, dirs: Seq<(i32, String)>) -> Seq<(Seq<char>, Seq<char>, FsEventKind, bool)>
    decreases b.len() - off,
{
    if off < 0 || off + 16 > b.len() {
        Seq::empty()
    } else {
        let wd = le_value(b.subrange(off, off + 4)) as i32;
        let mask = le_value(b.subrange(off + 4, off + 8)) as u32;
        let len = le_value(b.subrange(off + 12, off + 16));
        let name_end = min_int(off + 16 + len, b.len() as int);
        let name = c_name(b.subrange(off + 16, name_end));
        let rest = inotify_entries(b, name_end, dirs);
        match dir_for(dirs, wd) {
            Some(d) => seq![(d, name, mask_kind(mask), mask & IN_ISDIR != 0)] + rest,
            None => rest,
        }
    }
}

/// One event of an inotify buffer: the watched directory, the name in it, the
/// kind of change, and whether the mask marks a directory.
#[derive(Debug, Clone)]
pub struct InotifyRecord {
    pub dir: String,
    pub name: String,
    pub kind: FsEventKind,
    pub is_dir: bool,
}

pub open spec fn inotify_view(r: InotifyRecord) -> (Seq<char>, Seq<char>, FsEventKind, bool) {
    (r.dir@, r.name@, r.kind, r.is_dir)
}

pub open spec fn inotify_views(s: Seq<InotifyRecord>) -> Seq<(Seq<char>, Seq<char>, FsEventKind, bool)> {
    s.map_values(|r: InotifyRecord| inotify_view(r))
}

fn find_dir(dirs: &Vec<(i32, String)>, wd: i32) -> (r: Option<String>)
    ensures
        match r {
            Some(d) => dir_for(dirs@, wd) == Some(d@),
            None => dir_for(dirs@, wd) is None,
        },
{
    let mut i: usize = 0;
    assert(dirs@.skip(0) =~= dirs@);
    while i < dirs.len()
        invariant
            i <= dirs@.len(),
            dir_for(dirs@, wd) == dir_for(dirs@.skip(i as int), wd),
        decreases dirs.len() - i,
    {
        assert(dirs@.skip(i as int)[0] == dirs@[i as int]);
        if dirs[i].0 == wd {
            return Some(dirs[i].1.clone());
        }
        assert(dirs@.skip(i as int).drop_first() =~= dirs@.skip(i + 1));
        i = i + 1;
    }
    assert(dirs@.skip(i as int) =~= Seq::<(i32, String)>::empty());
    None
}

fn name_field(b: &[u8], start: usize, end: usize) -> (r: String)
    requires
        start <= end <= b@.len(),
    ensures
        r@ == c_name(b@.subrange(start as int, end as int)),
{
    let ghost s = b@.subrange(start as int, end as int);
    let mut i: usize = start;
    assert(s.skip(0) =~= s);
    while i < end && b[i] != 0
        invariant
            start <= i <= end,
            end <= b@.len(),
            s == b@.subrange(start as int, end as int),
            forall|k: int| start <= k < i ==> b@[k] != 0,
            first_nul(s) == match first_nul(s.skip(i - start)) {
                Some(j) => Some(j + (i - start)),
                None => None,
            },
        decreases end - i,
    {
        assert(s.skip(i - start)[0] == b@[i as int]);
        assert(s.skip(i - start).drop_first() =~= s.skip(i + 1 - start));
        i = i + 1;
    }
    if i == end {
        assert(s.skip(i - start) =~= Seq::<u8>::empty());
        return String::new();
    }
    assert(s.skip(i - start)[0] == b@[i as int]);
    assert(first_nul(s) == Some(i - start));
    let mut bytes: Vec<u8> = Vec::new();
    let mut k: usize = start;
    while k < i
        invariant
            start <= k <= i,
            i < end <= b@.len(),
            bytes@ == b@.subrange(start as int, k as int),
        decreases i - k,
    {
        bytes.push(b[k]);
        assert(b@.subrange(start as int, k + 1) =~= b@.subrange(start as int, k as int).push(b@[k as int]));
        k = k + 1;
    }
    assert(bytes@ =~= s.take(i - start));
    from_utf8_lossy(bytes.as_slice())
}

/// The events of an inotify buffer, in order, for the directories watched
/// under the given descriptors.
pub fn parse_inotify_events(buffer: &[u8], wd_to_dir: &Vec<(i32, String)>) -> (r: Vec<InotifyRecord>)
    ensures
        inotify_views(r@) == inotify_entries(buffer@, 0, wd_to_dir@),
{
    let mut events: Vec<InotifyRecord> = Vec::new();
    let mut offset: usize = 0;
    let ghost dirs = wd_to_dir@;
    assert(inotify_views(events@) + inotify_entries(buffer@, 0, dirs) =~= inotify_entries(buffer@, 0, dirs));
    while buffer.len() - offset >= 16
        invariant
            offset <= buffer@.len(),
            dirs == wd_to_dir@,
            inotify_views(events@) + inotify_entries(buffer@, offset as int, dirs) == inotify_entries(
                buffer@,
                0,
                dirs,
            ),
        decreases buffer.len() - offset,
    {
        let ghost b = buffer@;
        let ghost off = offset as int;
        let wd_raw = read_le(buffer, offset, 4);
        let mask_raw = read_le(buffer, offset + 4, 4);
        let len_raw = read_le(buffer, offset + 12, 4);
        proof {
            lemma_u32_field(b, off);
            lemma_u32_field(b, off + 4);
            lemma_u32_field(b, off + 12);
        }
        #[verifier::truncate]
        let wd = (wd_raw as u32) as i32;
        assert(wd == wd_raw as i32) by (bit_vector)
            requires
                wd_raw < 4294967296,
                wd == (wd_raw as u32) as i32,
        ;
        let mask = mask_raw as u32;
        let name_start = offset + 16;
        let name_end: usize = if len_raw as usize > buffer.len() - name_start {
            buffer.len()
        } else {
            name_start + len_raw as usize
        };
        let name = name_field(buffer, name_start, name_end);
        let ghost rest = inotify_entries(b, name_end as int, dirs);
        let ghost before = inotify_views(events@);
        match find_dir(wd_to_dir, wd) {
            Some(dir) => {
                let kind = if mask & (IN_DELETE | IN_MOVED_FROM) != 0 {
                    FsEventKind::Removed
                } else if mask & (IN_CREATE | IN_MOVED_TO) != 0 {
                    FsEventKind::Added
                } else {
                    FsEventKind::Modified
                };
                let is_dir = mask & IN_ISDIR != 0;
                let ghost rec = (dir@, name@, kind, is_dir);
                events.push(InotifyRecord { dir, name, kind, is_dir });
                assert(inotify_views(events@) =~= before.push(rec));
                assert(inotify_entries(b, off, dirs) == seq![rec] + rest);
                assert(before.push(rec) + rest =~= before + (seq![rec] + rest));
            },
            None => {
                assert(inotify_entries(b, off, dirs) == rest);
            },
        }
        offset = name_end;
    }
    assert(inotify_entries(buffer@, offset as int, dirs) =~= Seq::empty());
    assert(inotify_views(events@) + Seq::empty() =~= inotify_views(events@));
    events
}

} // verus!
