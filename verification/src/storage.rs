//! External storage: device records, the events raised when storage comes
//! and goes, and the reading of the mount table.
use vstd::prelude::*;
use crate::text::{
    ascii_lower, chars_of, has_prefix, is_whitespace, owned, replace, replace_char, split_on,
    str_eq, str_starts_with, string_of, to_ascii_lower, trim_end_char, unicode_whitespace,
};

verus! {

pub const STORAGE_ATTACHED_EVENT: &'static str = "storage-attached";

pub const STORAGE_DETACHED_EVENT: &'static str = "storage-detached";

#[derive(Debug, Clone, Copy, PartialEq, Eq, Structural)]
pub enum StorageKind {
    Removable,
    FixedExternal,
    Network,
    Optical,
    Unknown,
}

#[derive(Debug, Clone)]
pub struct ExternalStorageInfo {
    pub id: String,
    pub name: String,
    pub mount_path: String,
    pub filesystem: String,
    pub total_bytes: u64,
    pub free_bytes: u64,
    pub removable: bool,
    pub kind: StorageKind,
    pub platform: String,
    pub detection_source: String,
}

#[derive(Debug, Clone, Copy, PartialEq, Eq, Structural)]
pub enum StorageEventType {
    Attached,
    Detached,
}

#[derive(Debug, Clone)]
pub struct StorageEvent {
    pub event_type: StorageEventType,
    pub storage: Option<ExternalStorageInfo>,
    pub mount_path: Option<String>,
    pub raw_code: Option<u32>,
    pub source: String,
}

// ── Windows device change messages ─────────────────────────

pub const WM_DEVICECHANGE: u32 = 0x0219;

pub const DBT_DEVICEARRIVAL: u32 = 0x8000;

pub const DBT_DEVICEREMOVECOMPLETE: u32 = 0x8004;

pub const DBT_DEVTYP_VOLUME: u32 = 0x0000_0002;

pub open spec fn unit_bit(mask: u32, i: u32) -> bool {
    mask & (1u32 << i) != 0
}

/// The lowest drive (of A to Z) whose bit is set in a unit mask.
pub open spec fn first_unit(mask: u32, from: u32) -> Option<u32>
    decreases 26 - from,
{
    if from >= 26 {
        None
    } else if unit_bit(mask, from) {
        Some(from)
    } else {
        first_unit(mask, (from + 1) as u32)
    }
}

pub open spec fn drive_root(i: u32) -> Seq<char> {
    seq![((65 + i) as u32) as char, ':', '\\']
}

/// The root of the first drive a unit mask names, such as `E:\`.
pub fn first_drive_from_unit_mask(unit_mask: u32) -> (r: Option<String>)
    ensures
        match first_unit(unit_mask, 0) {
            Some(i) => r matches Some(s) && s@ == drive_root(i),
            None => r is None,
        },
{
    let mut i: u32 = 0;
    while i < 26
        invariant
            i <= 26,
            first_unit(unit_mask, 0) == first_unit(unit_mask, i),
        decreases 26 - i,
    {
        if unit_mask & (1u32 << i) != 0 {
            let b: u8 = 65 + (i as u8);
            let c = b as char;
            let mut v: Vec<char> = Vec::new();
            v.push(c);
            v.push(':');
            v.push('\\');
            assert(v@ =~= drive_root(i));
            return Some(string_of(v.as_slice()));
        }
        i = i + 1;
    }
    None
}

pub open spec fn devicechange_source() -> Seq<char> {
    "wm_devicechange"@
}

/// The storage event of a device change message: arrival and removal of
/// a volume, with the drive its unit mask names.
pub fn event_from_devicechange(wparam: u32, unit_mask: u32) -> (r: Option<StorageEvent>)
    ensures
        (wparam == DBT_DEVICEARRIVAL || wparam == DBT_DEVICEREMOVECOMPLETE) <==> r is Some,
        r matches Some(e) ==> {
            &&& e.event_type == (if wparam == DBT_DEVICEARRIVAL {
                StorageEventType::Attached
            } else {
                StorageEventType::Detached
            })
            &&& e.storage is None
            &&& e.raw_code == Some(wparam)
            &&& e.source@ == devicechange_source()
            &&& match first_unit(unit_mask, 0) {
                Some(i) => e.mount_path matches Some(s) && s@ == drive_root(i),
                None => e.mount_path is None,
            }
        },
{
    let event_type = if wparam == DBT_DEVICEARRIVAL {
        StorageEventType::Attached
    } else if wparam == DBT_DEVICEREMOVECOMPLETE {
        StorageEventType::Detached
    } else {
        return None;
    };
    let mount_path = first_drive_from_unit_mask(unit_mask);
    proof {
        reveal_strlit("wm_devicechange");
    }
    Some(StorageEvent { event_type, storage: None, mount_path, raw_code: Some(wparam), source: owned("wm_devicechange") })
}

// ── Attach and detach ──────────────────────────────────────

/// The key a mount is compared by: forward slashes, no trailing slashes,
/// ASCII lower case.
pub open spec fn mount_key(path: Seq<char>) -> Seq<char> {
    ascii_lower(trim_end_char(replace_char(path, '\\', '/'), '/'))
}

pub fn normalize_mount_key(path: &str) -> (r: String)
    ensures
        r@ == mount_key(path@),
{
    let cs = chars_of(path);
    let rep = replace(cs.as_slice(), '\\', '/');
    let mut n = rep.len();
    assert(rep@.take(n as int) =~= rep@);
    while n > 0 && rep[n - 1] == '/'
        invariant
            n <= rep@.len(),
            trim_end_char(rep@, '/') == trim_end_char(rep@.take(n as int), '/'),
        decreases n,
    {
        assert(rep@.take(n as int).drop_last() =~= rep@.take(n - 1));
        n = n - 1;
    }
    let mut t: Vec<char> = Vec::new();
    let mut k: usize = 0;
    while k < n
        invariant
            n <= rep@.len(),
            k <= n,
            t@ == rep@.take(k as int),
        decreases n - k,
    {
        t.push(rep[k]);
        assert(rep@.take(k + 1) =~= rep@.take(k as int).push(rep@[k as int]));
        k = k + 1;
    }
    proof {
        if n > 0 {
            assert(rep@.take(n as int).last() != '/');
        }
    }
    let low = to_ascii_lower(t.as_slice());
    string_of(low.as_slice())
}

/// Storage keyed by mount: the last record wins for a repeated key.
pub open spec fn keyed_mounts(items: Seq<ExternalStorageInfo>) -> Seq<(Seq<char>, ExternalStorageInfo)>
    decreases items.len(),
{
    if items.len() == 0 {
        Seq::empty()
    } else {
        let m = keyed_mounts(items.drop_last());
        let it = items.last();
        let k = mount_key(it.mount_path@);
        match mount_slot(m, k) {
            Some(i) => m.update(i, (k, it)),
            None => m.push((k, it)),
        }
    }
}

pub open spec fn mount_slot(m: Seq<(Seq<char>, ExternalStorageInfo)>, k: Seq<char>) -> Option<int>
    decreases m.len(),
{
    if m.len() == 0 {
        None
    } else if m.last().0 == k {
        Some(m.len() - 1)
    } else {
        mount_slot(m.drop_last(), k)
    }
}

pub open spec fn mount_views(v: Seq<(String, ExternalStorageInfo)>) -> Seq<(Seq<char>, ExternalStorageInfo)> {
    v.map_values(|e: (String, ExternalStorageInfo)| (e.0@, e.1))
}

proof fn lemma_mount_slot(m: Seq<(Seq<char>, ExternalStorageInfo)>, k: Seq<char>)
    ensures
        mount_slot(m, k) matches Some(i) ==> 0 <= i < m.len() && m[i].0 == k,
        mount_slot(m, k) is None ==> forall|j: int| 0 <= j < m.len() ==> #[trigger] m[j].0 != k,
    decreases m.len(),
{
    if m.len() > 0 {
        lemma_mount_slot(m.drop_last(), k);
        if m.last().0 != k {
            assert forall|j: int| 0 <= j < m.len() - 1 implies #[trigger] m[j].0 == m.drop_last()[j].0 by {}
        }
    }
}

fn find_mount(m: &Vec<(String, ExternalStorageInfo)>, k: &str) -> (r: Option<usize>)
    ensures
        match r {
            Some(i) => mount_slot(mount_views(m@), k@) == Some(i as int),
            None => mount_slot(mount_views(m@), k@) is None,
        },
{
    let ghost mv = mount_views(m@);
    let mut i = m.len();
    assert(mv.take(i as int) =~= mv);
    while i > 0
        invariant
            i <= m@.len(),
            mv == mount_views(m@),
            mount_slot(mv, k@) == mount_slot(mv.take(i as int), k@),
        decreases i,
    {
        assert(mv.take(i as int).drop_last() =~= mv.take(i - 1));
        assert(mv.take(i as int).last() == mv[i - 1]);
        if str_eq(m[i - 1].0.as_str(), k) {
            return Some(i - 1);
        }
        i = i - 1;
    }
    None
}

fn clone_info(i: &ExternalStorageInfo) -> (r: ExternalStorageInfo)
    ensures
        r == *i,
{
    ExternalStorageInfo {
        id: i.id.clone(),
        name: i.name.clone(),
        mount_path: i.mount_path.clone(),
        filesystem: i.filesystem.clone(),
        total_bytes: i.total_bytes,
        free_bytes: i.free_bytes,
        removable: i.removable,
        kind: i.kind,
        platform: i.platform.clone(),
        detection_source: i.detection_source.clone(),
    }
}

/// Storage records keyed by their mount.
pub fn list_by_mount(items: Vec<ExternalStorageInfo>) -> (r: Vec<(String, ExternalStorageInfo)>)
    ensures
        mount_views(r@) == keyed_mounts(items@),
{
    let mut m: Vec<(String, ExternalStorageInfo)> = Vec::new();
    let mut i: usize = 0;
    while i < items.len()
        invariant
            i <= items@.len(),
            mount_views(m@) == keyed_mounts(items@.take(i as int)),
        decreases items.len() - i,
    {
        assert(items@.take(i + 1).drop_last() =~= items@.take(i as int));
        let ghost before = mount_views(m@);
        let key = normalize_mount_key(items[i].mount_path.as_str());
        let ghost kv = key@;
        proof {
            lemma_mount_slot(before, kv);
        }
        match find_mount(&m, key.as_str()) {
            Some(k) => {
                m.set(k, (key, clone_info(&items[i])));
                assert(mount_views(m@) =~= before.update(k as int, (kv, items@[i as int])));
            },
            None => {
                m.push((key, clone_info(&items[i])));
                assert(mount_views(m@) =~= before.push((kv, items@[i as int])));
            },
        }
        i = i + 1;
    }
    assert(items@.take(i as int) =~= items@);
    m
}

pub open spec fn has_mount_key(m: Seq<(Seq<char>, ExternalStorageInfo)>, k: Seq<char>) -> bool {
    exists|j: int| 0 <= j < m.len() && #[trigger] m[j].0 == k
}

/// The event for storage that appeared.
pub open spec fn attached_event(e: StorageEvent, s: ExternalStorageInfo, source: Seq<char>) -> bool {
    &&& e.event_type == StorageEventType::Attached
    &&& e.storage == Some(s)
    &&& e.mount_path matches Some(p) && p@ == s.mount_path@
    &&& e.raw_code is None
    &&& e.source@ == source
}

/// The event for storage that went away.
pub open spec fn detached_event(e: StorageEvent, s: ExternalStorageInfo, source: Seq<char>) -> bool {
    &&& e.event_type == StorageEventType::Detached
    &&& e.storage is None
    &&& e.mount_path matches Some(p) && p@ == s.mount_path@
    &&& e.raw_code is None
    &&& e.source@ == source
}

/// The mounts of `cur` whose keys `prev` lacks, among the first `n`.
pub open spec fn new_mounts(
    prev: Seq<(Seq<char>, ExternalStorageInfo)>,
    cur: Seq<(Seq<char>, ExternalStorageInfo)>,
    n: int,
) -> Seq<ExternalStorageInfo>
    decreases n,
{
    if n <= 0 {
        Seq::empty()
    } else if !has_mount_key(prev, cur[n - 1].0) {
        new_mounts(prev, cur, n - 1).push(cur[n - 1].1)
    } else {
        new_mounts(prev, cur, n - 1)
    }
}

fn has_key(m: &Vec<(String, ExternalStorageInfo)>, k: &str) -> (r: bool)
    ensures
        r == has_mount_key(mount_views(m@), k@),
{
    let ghost mv = mount_views(m@);
    let mut i: usize = 0;
    while i < m.len()
        invariant
            i <= m@.len(),
            mv == mount_views(m@),
            forall|j: int| 0 <= j < i ==> #[trigger] mv[j].0 != k@,
        decreases m.len() - i,
    {
        if str_eq(m[i].0.as_str(), k) {
            assert(mv[i as int].0 == k@);
            return true;
        }
        i = i + 1;
    }
    false
}

/// The events between two readings of the storage list: an attach event
/// for each mount that appeared, then a detach event for each mount that
/// went away.
pub fn diff_storage_sets(
    previous: &Vec<(String, ExternalStorageInfo)>,
    current: &Vec<(String, ExternalStorageInfo)>,
    source: &str,
) -> (r: Vec<StorageEvent>)
    ensures
        ({
            let added = new_mounts(mount_views(previous@), mount_views(current@), current@.len() as int);
            let removed = new_mounts(mount_views(current@), mount_views(previous@), previous@.len() as int);
            &&& r@.len() == added.len() + removed.len()
            &&& forall|k: int| 0 <= k < added.len() ==> attached_event(#[trigger] r@[k], added[k], source@)
            &&& forall|k: int|
                0 <= k < removed.len() ==> detached_event(#[trigger] r@[added.len() + k], removed[k], source@)
        }),
{
    let ghost pv = mount_views(previous@);
    let ghost cv = mount_views(current@);
    let mut events: Vec<StorageEvent> = Vec::new();
    let mut i: usize = 0;
    while i < current.len()
        invariant
            pv == mount_views(previous@),
            cv == mount_views(current@),
            i <= current@.len(),
            events@.len() == new_mounts(pv, cv, i as int).len(),
            forall|k: int|
                0 <= k < events@.len() ==> attached_event(#[trigger] events@[k], new_mounts(pv, cv, i as int)[k], source@),
        decreases current.len() - i,
    {
        assert(cv[i as int] == (current@[i as int].0@, current@[i as int].1));
        if !has_key(previous, current[i].0.as_str()) {
            let s = clone_info(&current[i].1);
            let mp = s.mount_path.clone();
            events.push(StorageEvent {
                event_type: StorageEventType::Attached,
                storage: Some(s),
                mount_path: Some(mp),
                raw_code: None,
                source: owned(source),
            });
        }
        i = i + 1;
    }
    let ghost added = new_mounts(pv, cv, current@.len() as int);
    let mut j: usize = 0;
    while j < previous.len()
        invariant
            pv == mount_views(previous@),
            cv == mount_views(current@),
            added == new_mounts(pv, cv, current@.len() as int),
            j <= previous@.len(),
            events@.len() == added.len() + new_mounts(cv, pv, j as int).len(),
            forall|k: int| 0 <= k < added.len() ==> attached_event(#[trigger] events@[k], added[k], source@),
            forall|k: int|
                0 <= k < new_mounts(cv, pv, j as int).len() ==> detached_event(
                    #[trigger] events@[added.len() + k],
                    new_mounts(cv, pv, j as int)[k],
                    source@,
                ),
        decreases previous.len() - j,
    {
        assert(pv[j as int] == (previous@[j as int].0@, previous@[j as int].1));
        if !has_key(current, previous[j].0.as_str()) {
            let mp = previous[j].1.mount_path.clone();
            events.push(StorageEvent {
                event_type: StorageEventType::Detached,
                storage: None,
                mount_path: Some(mp),
                raw_code: None,
                source: owned(source),
            });
        }
        j = j + 1;
    }
    events
}

// ── The mount table ────────────────────────────────────────

/// The lines of a text as `str::lines` gives them: split at line feeds, a
/// carriage return before a line feed dropped, and no empty last line after
/// a final line feed.
pub open spec fn text_lines(t: Seq<char>) -> Seq<Seq<char>> {
    let pieces = split_on(t, '\n');
    let last = pieces.len() - 1;
    let body = Seq::new(last as nat, |k: int| trim_cr(pieces[k]));
    if pieces[last].len() == 0 {
        body
    } else {
        body.push(pieces[last])
    }
}

/// A carriage return at the end removed.
pub open spec fn trim_cr(s: Seq<char>) -> Seq<char> {
    if s.len() > 0 && s.last() == '\r' {
        s.drop_last()
    } else {
        s
    }
}

/// The pieces between white space, empty ones dropped, as
/// `str::split_whitespace` gives them.
pub open spec fn words(s: Seq<char>) -> Seq<Seq<char>>
    decreases s.len(),
{
    if s.len() == 0 {
        Seq::empty()
    } else {
        let w = words(s.drop_last());
        let c = s.last();
        if unicode_whitespace(c) {
            w
        } else if s.len() >= 2 && !unicode_whitespace(s[s.len() - 2]) && w.len() > 0 {
            w.update(w.len() - 1, w.last().push(c))
        } else {
            w.push(seq![c])
        }
    }
}

/// `\040` in a mount table field stands for a space.
pub open spec fn unescape_spaces(s: Seq<char>) -> Seq<char>
    decreases s.len(),
{
    if s.len() == 0 {
        s
    } else if s.len() >= 4 && s.take(4) == seq!['\\', '0', '4', '0'] {
        seq![' '] + unescape_spaces(s.skip(4))
    } else {
        seq![s[0]] + unescape_spaces(s.skip(1))
    }
}

/// A mount table line: device, mount point and file system type.
#[derive(Debug, Clone)]
pub struct MountEntry {
    pub device: String,
    pub mount_path: String,
    pub filesystem: String,
}

/// The entry of a mount table line with at least two fields; the file
/// system type is `unknown` when missing.
pub open spec fn line_entry(line: Seq<char>) -> Option<(Seq<char>, Seq<char>, Seq<char>)> {
    let w = words(line);
    if w.len() < 2 {
        None
    } else {
        Some((w[0], unescape_spaces(w[1]), if w.len() >= 3 { w[2] } else { "unknown"@ }))
    }
}

/// The entries of the first `n` lines.
pub open spec fn mount_entries(lines: Seq<Seq<char>>, n: int) -> Seq<(Seq<char>, Seq<char>, Seq<char>)>
    decreases n,
{
    if n <= 0 {
        Seq::empty()
    } else {
        match line_entry(lines[n - 1]) {
            Some(e) => mount_entries(lines, n - 1).push(e),
            None => mount_entries(lines, n - 1),
        }
    }
}

pub open spec fn entry_view(e: MountEntry) -> (Seq<char>, Seq<char>, Seq<char>) {
    (e.device@, e.mount_path@, e.filesystem@)
}

fn split_words(s: &[char]) -> (r: Vec<Vec<char>>)
    ensures
        r@.map_values(|w: Vec<char>| w@) == words(s@),
{
    let mut out: Vec<Vec<char>> = Vec::new();
    let mut i: usize = 0;
    while i < s.len()
        invariant
            i <= s@.len(),
            out@.map_values(|w: Vec<char>| w@) == words(s@.take(i as int)),
        decreases s.len() - i,
    {
        let c = s[i];
        let ghost t = s@.take(i + 1);
        assert(t.drop_last() =~= s@.take(i as int));
        assert(t.last() == c);
        let ghost before = out@.map_values(|w: Vec<char>| w@);
        if is_whitespace(c) {
        } else if i >= 1 && !is_whitespace(s[i - 1]) && out.len() > 0 {
            assert(t[t.len() - 2] == s@[i - 1]);
            let k = out.len() - 1;
            let mut last = out.remove(k);
            last.push(c);
            out.push(last);
            assert(out@.map_values(|w: Vec<char>| w@) =~= before.update(before.len() - 1, before.last().push(c)));
        } else {
            proof {
                if i >= 1 {
                    assert(t[t.len() - 2] == s@[i - 1]);
                }
            }
            let mut w: Vec<char> = Vec::new();
            w.push(c);
            out.push(w);
            assert(out@.map_values(|w: Vec<char>| w@) =~= before.push(seq![c]));
        }
        i = i + 1;
    }
    assert(s@.take(i as int) =~= s@);
    out
}

fn unescape(s: &[char]) -> (r: Vec<char>)
    ensures
        r@ == unescape_spaces(s@),
{
    let mut out: Vec<char> = Vec::new();
    let mut i: usize = 0;
    assert(s@.skip(0) =~= s@);
    assert(out@ + unescape_spaces(s@.skip(0)) =~= unescape_spaces(s@));
    while i < s.len()
        invariant
            i <= s@.len(),
            out@ + unescape_spaces(s@.skip(i as int)) == unescape_spaces(s@),
        decreases s.len() - i,
    {
        let ghost rest = s@.skip(i as int);
        if s.len() - i >= 4 && s[i] == '\\' && s[i + 1] == '0' && s[i + 2] == '4' && s[i + 3] == '0' {
            assert(rest.take(4) =~= seq!['\\', '0', '4', '0']);
            assert(rest.skip(4) =~= s@.skip(i + 4));
            out.push(' ');
            assert(out@ + unescape_spaces(s@.skip(i + 4)) =~= out@.drop_last() + unescape_spaces(rest));
            i = i + 4;
        } else {
            proof {
                if rest.len() >= 4 {
                    assert(rest.take(4)[0] == s@[i as int]);
                    assert(rest.take(4)[1] == s@[i + 1]);
                    assert(rest.take(4)[2] == s@[i + 2]);
                    assert(rest.take(4)[3] == s@[i + 3]);
                }
            }
            assert(rest.skip(1) =~= s@.skip(i + 1));
            assert(rest[0] == s@[i as int]);
            out.push(s[i]);
            assert(out@ + unescape_spaces(s@.skip(i + 1)) =~= out@.drop_last() + unescape_spaces(rest));
            i = i + 1;
        }
    }
    assert(s@.skip(i as int) =~= Seq::<char>::empty());
    assert(out@ + Seq::<char>::empty() =~= out@);
    out
}

fn lines_of(t: &[char]) -> (r: Vec<Vec<char>>)
    ensures
        r@.map_values(|l: Vec<char>| l@) == text_lines(t@),
{
    let pieces = crate::text::split_chars(t, '\n');
    let ghost pv = crate::text::pieces_view(pieces@);
    assert(pv == split_on(t@, '\n'));
    proof {
        crate::text::lemma_split_nonempty(t@, '\n');
    }
    let last = pieces.len() - 1;
    let mut out: Vec<Vec<char>> = Vec::new();
    let mut k: usize = 0;
    while k < last
        invariant
            pv == crate::text::pieces_view(pieces@),
            last == pieces@.len() - 1,
            k <= last,
            out@.map_values(|l: Vec<char>| l@) == Seq::new(k as nat, |j: int| trim_cr(pv[j])),
        decreases last - k,
    {
        let p = &pieces[k];
        assert(pv[k as int] == p@);
        let mut line: Vec<char> = Vec::new();
        let n = if p.len() > 0 && p[p.len() - 1] == '\r' { p.len() - 1 } else { p.len() };
        let mut j: usize = 0;
        while j < n
            invariant
                n <= p@.len(),
                j <= n,
                line@ == p@.take(j as int),
            decreases n - j,
        {
            line.push(p[j]);
            assert(p@.take(j + 1) =~= p@.take(j as int).push(p@[j as int]));
            j = j + 1;
        }
        assert(line@ =~= trim_cr(p@));
        assert(pv[k as int] == pieces@[k as int]@);
        let ghost before = out@.map_values(|l: Vec<char>| l@);
        out.push(line);
        assert(out@.map_values(|l: Vec<char>| l@) =~= before.push(trim_cr(pv[k as int])));
        assert(out@.map_values(|l: Vec<char>| l@) =~= Seq::new((k + 1) as nat, |j: int| trim_cr(pv[j])));
        k = k + 1;
    }
    assert(pv[last as int] == pieces@[last as int]@);
    if pieces[last].len() > 0 {
        let mut copy: Vec<char> = Vec::new();
        let mut j: usize = 0;
        while j < pieces[last].len()
            invariant
                last < pieces@.len(),
                j <= pieces@[last as int]@.len(),
                copy@ == pieces@[last as int]@.take(j as int),
            decreases pieces@[last as int]@.len() - j,
        {
            copy.push(pieces[last][j]);
            assert(pieces@[last as int]@.take(j + 1) =~= pieces@[last as int]@.take(j as int).push(pieces@[last as int]@[j as int]));
            j = j + 1;
        }
        assert(copy@ =~= pieces@[last as int]@);
        let ghost before = out@.map_values(|l: Vec<char>| l@);
        out.push(copy);
        assert(out@.map_values(|l: Vec<char>| l@) =~= before.push(pv[last as int]));
    }
    out
}

/// The entries of a mount table text.
pub fn parse_mount_table(text: &str) -> (r: Vec<MountEntry>)
    ensures
        r@.map_values(|e: MountEntry| entry_view(e)) == mount_entries(text_lines(text@), text_lines(text@).len() as int),
{
    let cs = chars_of(text);
    let lines = lines_of(cs.as_slice());
    let ghost lv = lines@.map_values(|l: Vec<char>| l@);
    let mut out: Vec<MountEntry> = Vec::new();
    let mut i: usize = 0;
    while i < lines.len()
        invariant
            lv == lines@.map_values(|l: Vec<char>| l@),
            lv == text_lines(text@),
            i <= lines@.len(),
            out@.map_values(|e: MountEntry| entry_view(e)) == mount_entries(lv, i as int),
        decreases lines.len() - i,
    {
        assert(lv[i as int] == lines@[i as int]@);
        let w = split_words(lines[i].as_slice());
        let ghost wv = w@.map_values(|x: Vec<char>| x@);
        let ghost before = out@.map_values(|e: MountEntry| entry_view(e));
        if w.len() >= 2 {
            assert(wv[0] == w@[0]@ && wv[1] == w@[1]@);
            let device = string_of(w[0].as_slice());
            let m = unescape(w[1].as_slice());
            let mount_path = string_of(m.as_slice());
            let filesystem = if w.len() >= 3 {
                assert(wv[2] == w@[2]@);
                string_of(w[2].as_slice())
            } else {
                proof {
                    reveal_strlit("unknown");
                }
                owned("unknown")
            };
            out.push(MountEntry { device, mount_path, filesystem });
            assert(out@.map_values(|e: MountEntry| entry_view(e)) =~= before.push(line_entry(lv[i as int])->0));
        }
        i = i + 1;
    }
    out
}

/// Mount points under the usual places for removable media.
pub open spec fn external_mount(path: Seq<char>) -> bool {
    has_prefix(path, "/media/"@) || has_prefix(path, "/mnt/"@) || has_prefix(path, "/run/media/"@)
        || has_prefix(path, "/Volumes/"@)
}

pub fn looks_external_mount(path: &str) -> (r: bool)
    ensures
        r == external_mount(path@),
{
    str_starts_with(path, "/media/") || str_starts_with(path, "/mnt/") || str_starts_with(path, "/run/media/")
        || str_starts_with(path, "/Volumes/")
}

/// The characters after the last `/` of `p` (all of `p` when it has none).
pub open spec fn after_last_slash(p: Seq<char>) -> Seq<char>
    decreases p.len(),
{
    if p.len() == 0 {
        p
    } else if p.last() == '/' {
        Seq::empty()
    } else {
        after_last_slash(p.drop_last()).push(p.last())
    }
}

/// A path whose last component is plain on every platform: no `\\` or `:`
/// anywhere, not beginning with `//` (which may name a network share), and
/// after its last `/` a non-empty name other than `.` and `..`.
pub open spec fn plain_last_component(p: Seq<char>) -> bool {
    let t = after_last_slash(p);
    &&& !crate::text::has_prefix(p, seq!['/', '/'])
    &&& !crate::text::has_sub(p, seq!['\\'])
    &&& !crate::text::has_sub(p, seq![':'])
    &&& t.len() > 0
    &&& t != "."@
    &&& t != ".."@
}

/// What `Path::file_name` may give for a path on any platform: a non-empty
/// piece of the path; and for a path whose last component is plain, the
/// text after its last `/`.
pub open spec fn file_name_of_path(path: Seq<char>, name: Option<Seq<char>>) -> bool {
    &&& (name matches Some(n) ==> n.len() > 0 && crate::text::has_sub(path, n))
    &&& (plain_last_component(path) ==> name == Some(after_last_slash(path)))
}

/// `Path::file_name` of a path given as text, as a `String`. Its
/// documentation: the final component of the path, if there is one (none
/// where the path ends in `..`). Claimed is what follows on every platform
/// (`file_name_of_path`); how a platform splits other paths is left unsaid.
#[verifier::external_body]
fn path_file_name(path: &str) -> (r: Option<String>)
    ensures
        file_name_of_path(
            path@,
            match r {
                Some(n) => Some(n@),
                None => None,
            },
        ),
{
    std::path::Path::new(path).file_name().and_then(|name| name.to_str()).map(|name| name.to_string())
}

/// The display name a mount point gets from its file name `name`: the name
/// where it is not empty, else the whole path.
pub open spec fn display_name(path: Seq<char>, name: Option<Seq<char>>) -> Seq<char> {
    match name {
        Some(n) => if n.len() > 0 {
            n
        } else {
            path
        },
        None => path,
    }
}

/// `name` is the display name of a mount point at `path` for a file name that
/// `Path::file_name` may give; for a plain last component it is that text.
pub open spec fn named_for(name: Seq<char>, path: Seq<char>) -> bool {
    &&& exists|n: Option<Seq<char>>| file_name_of_path(path, n) && name == display_name(path, n)
    &&& plain_last_component(path) ==> name == after_last_slash(path)
}

/// The display name of a mount point: its last path component where it has
/// a non-empty one, else the whole path.
fn storage_name_from_path(path: &str) -> (r: String)
    ensures
        named_for(r@, path@),
{
    let name = path_file_name(path);
    let ghost nv = match &name {
        Some(n) => Some(n@),
        None => None::<Seq<char>>,
    };
    let r = match name {
        Some(n) => {
            if chars_of(n.as_str()).len() > 0 {
                n
            } else {
                owned(path)
            }
        },
        None => owned(path),
    };
    assert(file_name_of_path(path@, nv) && r@ == display_name(path@, nv));
    r
}

/// The storage record of a mount table entry, with its measured size.
pub fn mount_storage(entry: &MountEntry, total_bytes: u64, free_bytes: u64) -> (r: ExternalStorageInfo)
    ensures
        r.id@ == entry.device@,
        r.mount_path@ == entry.mount_path@,
        r.filesystem@ == entry.filesystem@,
        r.total_bytes == total_bytes,
        r.free_bytes == free_bytes,
        r.removable,
        r.kind == StorageKind::Removable,
        r.platform@ == "linux"@,
        r.detection_source@ == "mount_table"@,
        named_for(r.name@, entry.mount_path@),
{
    proof {
        reveal_strlit("linux");
        reveal_strlit("mount_table");
    }
    ExternalStorageInfo {
        id: entry.device.clone(),
        name: storage_name_from_path(entry.mount_path.as_str()),
        mount_path: entry.mount_path.clone(),
        filesystem: entry.filesystem.clone(),
        total_bytes,
        free_bytes,
        removable: true,
        kind: StorageKind::Removable,
        platform: owned("linux"),
        detection_source: owned("mount_table"),
    }
}

/// The storage records of a mount table text, before sizes are measured.
pub fn parse_mounts(text: &str) -> (r: Vec<ExternalStorageInfo>)
    ensures
        r@.len() == mount_entries(text_lines(text@), text_lines(text@).len() as int).len(),
        forall|k: int|
            0 <= k < r@.len() ==> {
                let e = mount_entries(text_lines(text@), text_lines(text@).len() as int)[k];
                &&& (#[trigger] r@[k]).id@ == e.0
                &&& r@[k].mount_path@ == e.1
                &&& r@[k].filesystem@ == e.2
                &&& r@[k].total_bytes == 0
                &&& r@[k].free_bytes == 0
                &&& r@[k].kind == StorageKind::Removable
                &&& named_for(r@[k].name@, e.1)
            },
{
    let entries = parse_mount_table(text);
    let ghost ev = entries@.map_values(|e: MountEntry| entry_view(e));
    let mut out: Vec<ExternalStorageInfo> = Vec::new();
    let mut i: usize = 0;
    while i < entries.len()
        invariant
            ev == entries@.map_values(|e: MountEntry| entry_view(e)),
            i <= entries@.len(),
            out@.len() == i,
            forall|k: int|
                0 <= k < i ==> {
                    &&& (#[trigger] out@[k]).id@ == ev[k].0
                    &&& out@[k].mount_path@ == ev[k].1
                    &&& out@[k].filesystem@ == ev[k].2
                    &&& out@[k].total_bytes == 0
                    &&& out@[k].free_bytes == 0
                    &&& out@[k].kind == StorageKind::Removable
                    &&& named_for(out@[k].name@, ev[k].1)
                },
        decreases entries.len() - i,
    {
        out.push(mount_storage(&entries[i], 0, 0));
        i = i + 1;
    }
    out
}

/// The storage whose mount point is the longest prefix of `path`, if any
/// (the last of equally long ones).
pub fn get_storage_info(mounts: &Vec<ExternalStorageInfo>, path: &str) -> (r: Result<ExternalStorageInfo, String>)
    ensures
        match r {
            Ok(s) => exists|k: int|
                0 <= k < mounts@.len() && #[trigger] mounts@[k] == s && has_prefix(path@, s.mount_path@)
                    && forall|j: int|
                    0 <= j < mounts@.len() && has_prefix(path@, #[trigger] mounts@[j].mount_path@) ==> mounts@[j].mount_path@.len()
                        <= s.mount_path@.len(),
            Err(e) => e@ == "No mounted storage found for "@ + path@ && forall|j: int|
                0 <= j < mounts@.len() ==> !has_prefix(path@, #[trigger] mounts@[j].mount_path@),
        },
{
    let mut best: Option<usize> = None;
    let mut i: usize = 0;
    while i < mounts.len()
        invariant
            i <= mounts@.len(),
            match best {
                Some(b) => b < i && has_prefix(path@, mounts@[b as int].mount_path@) && forall|j: int|
                    0 <= j < i && has_prefix(path@, #[trigger] mounts@[j].mount_path@) ==> mounts@[j].mount_path@.len()
                        <= mounts@[b as int].mount_path@.len(),
                None => forall|j: int| 0 <= j < i ==> !has_prefix(path@, #[trigger] mounts@[j].mount_path@),
            },
        decreases mounts.len() - i,
    {
        if str_starts_with(path, mounts[i].mount_path.as_str()) {
            let better = match best {
                None => true,
                Some(b) => {
                    let lb = chars_of(mounts[b].mount_path.as_str()).len();
                    let li = chars_of(mounts[i].mount_path.as_str()).len();
                    li >= lb
                },
            };
            if better {
                best = Some(i);
            }
        }
        i = i + 1;
    }
    match best {
        Some(b) => Ok(clone_info(&mounts[b])),
        None => Err(crate::text::concat("No mounted storage found for ", path)),
    }
}

/// The mounts of the mount table that look like removable media, in order.
pub open spec fn external_of(mounts: Seq<ExternalStorageInfo>) -> Seq<ExternalStorageInfo>
    decreases mounts.len(),
{
    if mounts.len() == 0 {
        Seq::empty()
    } else if external_mount(mounts.last().mount_path@) {
        external_of(mounts.drop_last()).push(mounts.last())
    } else {
        external_of(mounts.drop_last())
    }
}

/// The external storage among the mounts of the mount table.
pub fn list_external_storage(mounts: Vec<ExternalStorageInfo>) -> (r: Result<Vec<ExternalStorageInfo>, String>)
    ensures
        r matches Ok(v) && v@ == external_of(mounts@),
{
    let mut out: Vec<ExternalStorageInfo> = Vec::new();
    let mut i: usize = 0;
    while i < mounts.len()
        invariant
            i <= mounts@.len(),
            out@ == external_of(mounts@.take(i as int)),
        decreases mounts.len() - i,
    {
        assert(mounts@.take(i + 1).drop_last() =~= mounts@.take(i as int));
        if looks_external_mount(mounts[i].mount_path.as_str()) {
            out.push(clone_info(&mounts[i]));
        }
        i = i + 1;
    }
    assert(mounts@.take(i as int) =~= mounts@);
    Ok(out)
}

} // verus!
