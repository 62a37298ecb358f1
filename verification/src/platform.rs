//! Platform records, and the choice of the directory scanner.
use vstd::prelude::*;
use crate::text::{
    after_first_word, chars_of, concat, digits_value, first_word, next_word, owned, parse_u64,
    parses_as_u64, pieces_view, split_chars, split_on, str_eq, string_of, to_uppercase, trim,
    trimmed, u64_digits, unicode_upper,
};
use crate::recommendations::{trim_end_seps};

verus! {

/// What identifies a file on its volume, so that hard links are recognised.
#[derive(Debug, Clone, Copy, PartialEq, Eq, Structural, Hash)]
pub struct FileIdentity {
    pub volume_serial: u64,
    pub file_index: u64,
}

#[derive(Debug, Clone)]
pub struct TrashResult {
    pub success: bool,
    pub original_path: String,
    pub reason: Option<String>,
}

#[derive(Debug, Clone)]
pub struct RestoreResult {
    pub success: bool,
    pub original_path: String,
    pub restored_path: Option<String>,
    pub reason: Option<String>,
}

#[derive(Debug, Clone)]
pub struct PlatformSystemInfo {
    pub os_name: String,
    pub os_version: String,
    pub cpu_count: usize,
    pub total_ram_bytes: u64,
    pub app_data_dir: String,
}

/// The directory scanners.
#[derive(Debug, Clone, Copy, PartialEq, Eq, Structural)]
pub enum ScannerKind {
    /// The parallel walk used on Windows.
    Jwalk,
    LinuxWalk,
    MacosWalk,
    /// The NTFS master file table reader, which needs administrator rights.
    Mft,
}

pub open spec fn scanner_name(k: ScannerKind) -> Seq<char> {
    match k {
        ScannerKind::Jwalk => "jwalk"@,
        ScannerKind::LinuxWalk => "linux-walk"@,
        ScannerKind::MacosWalk => "macos-walk"@,
        ScannerKind::Mft => "mft"@,
    }
}

impl ScannerKind {
    pub fn name(&self) -> (r: &'static str)
        ensures
            r@ == scanner_name(*self),
    {
        proof {
            reveal_strlit("jwalk");
            reveal_strlit("linux-walk");
            reveal_strlit("macos-walk");
            reveal_strlit("mft");
        }
        match self {
            ScannerKind::Jwalk => "jwalk",
            ScannerKind::LinuxWalk => "linux-walk",
            ScannerKind::MacosWalk => "macos-walk",
            ScannerKind::Mft => "mft",
        }
    }
}

/// How the directory scanner is chosen.
#[derive(Debug, Clone, Copy, PartialEq, Eq, Structural)]
pub enum ScanStrategy {
    /// The master file table reader where it can run, else the platform walk.
    Auto,
    /// Always the platform walk.
    Jwalk,
    /// The master file table reader when run as administrator.
    Mft { admin: bool },
}

impl ScanStrategy {
    /// The scanner a strategy picks. `walk` is the platform's walk and
    /// `mft_available` whether the master file table reader can run here.
    pub fn resolve(&self, walk: ScannerKind, mft_available: bool) -> (r: ScannerKind)
        ensures
            r == match *self {
                ScanStrategy::Auto => if mft_available { ScannerKind::Mft } else { walk },
                ScanStrategy::Jwalk => walk,
                ScanStrategy::Mft { admin } => if admin { ScannerKind::Mft } else { walk },
            },
    {
        match self {
            ScanStrategy::Auto => if mft_available {
                ScannerKind::Mft
            } else {
                walk
            },
            ScanStrategy::Jwalk => walk,
            ScanStrategy::Mft { admin } => if *admin {
                ScannerKind::Mft
            } else {
                walk
            },
        }
    }
}

/// The strategy for the configured scan mode: `speed` picks automatically,
/// anything else (or no setting) uses the platform walk.
pub fn scan_strategy_for_mode(scan_mode: Option<&str>) -> (r: ScanStrategy)
    ensures
        r == match scan_mode {
            Some(m) => if m@ == "speed"@ { ScanStrategy::Auto } else { ScanStrategy::Jwalk },
            None => ScanStrategy::Jwalk,
        },
{
    match scan_mode {
        Some(m) => if str_eq(m, "speed") {
            ScanStrategy::Auto
        } else {
            ScanStrategy::Jwalk
        },
        None => ScanStrategy::Jwalk,
    }
}

// ── Command output ─────────────────────────────────────────

/// A line that ended with a line feed loses one trailing carriage return.
pub open spec fn strip_cr(l: Seq<char>) -> Seq<char> {
    if l.len() > 0 && l.last() == '\r' {
        l.drop_last()
    } else {
        l
    }
}

/// The lines `str::lines` yields: the text split at line feeds, a carriage
/// return before a line feed dropped, and no empty line after a final line
/// feed.
pub open spec fn text_lines(s: Seq<char>) -> Seq<Seq<char>> {
    let p = split_on(s, '\n');
    let ended = p.drop_last().map_values(|l: Seq<char>| strip_cr(l));
    if p.last().len() == 0 {
        ended
    } else {
        ended.push(p.last())
    }
}

/// The word at position `n` of `s` (counting from zero), as
/// `split_whitespace().nth(n)` gives it.
pub open spec fn nth_word(s: Seq<char>, n: nat) -> Option<Seq<char>>
    decreases n,
{
    if n == 0 {
        first_word(s)
    } else if first_word(s) is None {
        None
    } else {
        nth_word(after_first_word(s), (n - 1) as nat)
    }
}

/// The number in a column of the second line of `df` output.
pub open spec fn df_field(text: Seq<char>, column: nat) -> Option<nat> {
    let ls = text_lines(text);
    if ls.len() < 2 {
        None
    } else {
        match nth_word(ls[1], column) {
            Some(w) => if parses_as_u64(w) {
                Some(digits_value(u64_digits(w)))
            } else {
                None
            },
            None => None,
        }
    }
}

proof fn lemma_split_nonempty_last(s: Seq<char>)
    ensures
        split_on(s, '\n').len() >= 1,
{
    crate::text::lemma_split_nonempty(s, '\n');
}

/// The second line of a text, if it has one.
fn second_line(text: &[char]) -> (r: Option<Vec<char>>)
    ensures
        match r {
            Some(l) => text_lines(text@).len() >= 2 && l@ == text_lines(text@)[1],
            None => text_lines(text@).len() < 2,
        },
{
    let pieces = split_chars(text, '\n');
    let ghost p = split_on(text@, '\n');
    proof {
        lemma_split_nonempty_last(text@);
    }
    assert(pieces_view(pieces@) == p);
    assert(pieces@.len() == p.len());
    let n = pieces.len();
    if n < 2 || (n == 2 && pieces[1].len() == 0) {
        proof {
            if n == 2 {
                assert(p.last() == pieces@[1]@);
            }
        }
        return None;
    }
    assert(pieces@[1]@ == p[1]);
    let line = &pieces[1];
    if n == 2 {
        assert(p.last() == p[1]);
        assert(text_lines(text@)[1] == p[1]);
        let mut out: Vec<char> = Vec::new();
        let mut k: usize = 0;
        while k < line.len()
            invariant
                k <= line@.len(),
                out@ == line@.take(k as int),
            decreases line.len() - k,
        {
            out.push(line[k]);
            assert(line@.take(k + 1) =~= line@.take(k as int).push(line@[k as int]));
            k = k + 1;
        }
        assert(line@.take(line@.len() as int) =~= line@);
        return Some(out);
    }
    assert(p.drop_last()[1] == p[1]);
    let keep: usize = if line.len() > 0 && line[line.len() - 1] == '\r' { line.len() - 1 } else { line.len() };
    let mut out: Vec<char> = Vec::new();
    let mut k: usize = 0;
    while k < keep
        invariant
            keep <= line@.len(),
            k <= keep,
            out@ == line@.take(k as int),
        decreases keep - k,
    {
        out.push(line[k]);
        assert(line@.take(k + 1) =~= line@.take(k as int).push(line@[k as int]));
        k = k + 1;
    }
    assert(out@ =~= strip_cr(line@));
    Some(out)
}

/// The word at position `n` of `s`.
fn nth_word_of(s: &[char], n: usize) -> (r: Option<Vec<char>>)
    ensures
        match r {
            Some(w) => nth_word(s@, n as nat) == Some(w@),
            None => nth_word(s@, n as nat) is None,
        },
{
    let mut rest: Vec<char> = Vec::new();
    let mut k: usize = 0;
    while k < s.len()
        invariant
            k <= s@.len(),
            rest@ == s@.take(k as int),
        decreases s.len() - k,
    {
        rest.push(s[k]);
        assert(s@.take(k + 1) =~= s@.take(k as int).push(s@[k as int]));
        k = k + 1;
    }
    assert(s@.take(s@.len() as int) =~= s@);
    let mut i: usize = 0;
    while i < n
        invariant
            i <= n,
            nth_word(s@, n as nat) == nth_word(rest@, (n - i) as nat),
        decreases n - i,
    {
        let (w, after) = next_word(rest.as_slice());
        match w {
            Some(_) => {
                rest = after;
            },
            None => {
                return None;
            },
        }
        i = i + 1;
    }
    let (w, _) = next_word(rest.as_slice());
    w
}

/// The number in a column of the second line of `df` output, if it is one.
pub fn df_field_of(text: &str, column: usize) -> (r: Option<u64>)
    ensures
        match r {
            Some(v) => df_field(text@, column as nat) == Some(v as nat),
            None => df_field(text@, column as nat) is None,
        },
{
    let chars = chars_of(text);
    let line = match second_line(chars.as_slice()) {
        Some(l) => l,
        None => return None,
    };
    let word = match nth_word_of(line.as_slice(), column) {
        Some(w) => w,
        None => return None,
    };
    parse_u64(word.as_slice())
}

pub open spec fn df_parse_error_message() -> Seq<char> {
    "cannot parse df output"@
}

/// The byte count in a column of `df -B1` output.
pub fn df_bytes(text: &str, column: usize) -> (r: Result<u64, String>)
    ensures
        match df_field(text@, column as nat) {
            Some(v) => r == Ok::<u64, String>(v as u64),
            None => r matches Err(e) && e@ == df_parse_error_message(),
        },
{
    match df_field_of(text, column) {
        Some(v) => Ok(v),
        None => Err(owned("cannot parse df output")),
    }
}

pub open spec fn field_or_zero(f: Option<nat>) -> nat {
    match f {
        Some(v) => v,
        None => 0,
    }
}

/// The total and free space that `df` reports for a mount, in units of
/// `unit` bytes; a column that does not parse counts as zero.
pub fn df_space(text: &str, unit: u64) -> (r: (u64, u64))
    requires
        field_or_zero(df_field(text@, 1)) * unit <= u64::MAX,
        field_or_zero(df_field(text@, 3)) * unit <= u64::MAX,
    ensures
        r.0 == field_or_zero(df_field(text@, 1)) * unit,
        r.1 == field_or_zero(df_field(text@, 3)) * unit,
{
    let total = match df_field_of(text, 1) {
        Some(v) => v,
        None => 0,
    };
    let free = match df_field_of(text, 3) {
        Some(v) => v,
        None => 0,
    };
    (total * unit, free * unit)
}

// ── Drive roots ────────────────────────────────────────────

/// A drive named by a letter becomes its root (`c` or `C:` gives `C:\`);
/// any other text is kept, trimmed and without trailing separators.
pub open spec fn drive_root_of(drive: Seq<char>) -> Seq<char> {
    let t = trim_end_seps(trimmed(drive));
    if t.len() > 0 && t.last() == ':' {
        unicode_upper(t) + seq!['\\']
    } else if t.len() == 1 && (t[0] as u32) < 0x80 {
        unicode_upper(t) + seq![':', '\\']
    } else {
        t
    }
}

/// The root path of a drive.
pub fn normalize_drive_root(drive: &str) -> (r: String)
    ensures
        r@ == drive_root_of(drive@),
{
    let chars = chars_of(drive);
    let t0 = trim(chars.as_slice());
    let t = crate::recommendations::without_trailing_seps(t0.as_slice());
    let ts = string_of(t.as_slice());
    if t.len() > 0 && t[t.len() - 1] == ':' {
        let up = to_uppercase(ts.as_str());
        let r = concat(up.as_str(), "\\");
        proof {
            reveal_strlit("\\");
        }
        return r;
    }
    if t.len() == 1 && (t[0] as u32) < 0x80 {
        let up = to_uppercase(ts.as_str());
        let r = concat(up.as_str(), ":\\");
        proof {
            reveal_strlit(":\\");
        }
        return r;
    }
    ts
}

pub open spec fn not_a_drive_root_message(root: Seq<char>) -> Seq<char> {
    "MFT scan requires a drive root, got "@ + root
}

pub open spec fn is_ascii_letter(c: char) -> bool {
    ('a' <= c && c <= 'z') || ('A' <= c && c <= 'Z')
}

/// The drive letter of a root path such as `C:` or `c:\`, upper-cased; any
/// path below the root is refused.
pub open spec fn root_drive_letter(root: Seq<char>) -> Option<char> {
    if root.len() >= 2 && is_ascii_letter(root[0]) && root[1] == ':' && trim_seps_both(root.skip(2)).len() == 0 {
        Some(crate::text::upper_char(root[0]))
    } else {
        None
    }
}

/// Leading and trailing `\` and `/` removed.
pub open spec fn trim_seps_both(s: Seq<char>) -> Seq<char> {
    trim_end_seps(trim_start_seps(s))
}

pub open spec fn trim_start_seps(s: Seq<char>) -> Seq<char>
    decreases s.len(),
{
    if s.len() > 0 && (s[0] == '\\' || s[0] == '/') {
        trim_start_seps(s.drop_first())
    } else {
        s
    }
}

pub open spec fn is_sep(c: char) -> bool {
    c == '\\' || c == '/'
}

pub open spec fn all_seps(s: Seq<char>) -> bool {
    forall|i: int| 0 <= i < s.len() ==> is_sep(#[trigger] s[i])
}

proof fn lemma_all_seps_trim(s: Seq<char>)
    ensures
        (trim_seps_both(s).len() == 0) <==> all_seps(s),
    decreases s.len(),
{
    if s.len() > 0 {
        let t = s.drop_first();
        lemma_all_seps_trim(t);
        if is_sep(s[0]) {
            assert(trim_start_seps(s) == trim_start_seps(t));
            assert(all_seps(s) <==> all_seps(t)) by {
                if all_seps(s) {
                    assert forall|i: int| 0 <= i < t.len() implies is_sep(#[trigger] t[i]) by {
                        assert(t[i] == s[i + 1]);
                    }
                }
                if all_seps(t) {
                    assert forall|i: int| 0 <= i < s.len() implies is_sep(#[trigger] s[i]) by {
                        if i > 0 {
                            assert(s[i] == t[i - 1]);
                        }
                    }
                }
            }
        } else {
            assert(trim_start_seps(s) == s);
            lemma_trim_end_keeps_first(s);
            assert(!is_sep(s[0]));
        }
    } else {
        assert(trim_start_seps(s) == s);
    }
}

proof fn lemma_trim_end_keeps_first(s: Seq<char>)
    requires
        s.len() > 0,
        !(s[0] == '\\' || s[0] == '/'),
    ensures
        trim_end_seps(s).len() > 0,
    decreases s.len(),
{
    if s.len() > 1 && (s.last() == '\\' || s.last() == '/') {
        lemma_trim_end_keeps_first(s.drop_last());
    }
}

/// The drive letter of the root of a master file table scan.
pub fn drive_letter_from_root(root: &str) -> (r: Result<char, String>)
    ensures
        match root_drive_letter(root@) {
            Some(c) => r == Ok::<char, String>(c),
            None => r matches Err(e) && e@ == not_a_drive_root_message(root@),
        },
{
    let chars = chars_of(root);
    let ok = chars.len() >= 2 && (('a' <= chars[0] && chars[0] <= 'z') || ('A' <= chars[0] && chars[0] <= 'Z'))
        && chars[1] == ':';
    if !ok {
        return Err(concat("MFT scan requires a drive root, got ", root));
    }
    let mut i: usize = 2;
    while i < chars.len()
        invariant
            2 <= i <= chars@.len(),
            chars@ == root@,
            forall|k: int| 2 <= k < i ==> is_sep(#[trigger] chars@[k]),
        decreases chars.len() - i,
    {
        if !(chars[i] == '\\' || chars[i] == '/') {
            proof {
                lemma_all_seps_trim(root@.skip(2));
                assert(root@.skip(2)[i - 2] == chars@[i as int]);
            }
            return Err(concat("MFT scan requires a drive root, got ", root));
        }
        i = i + 1;
    }
    proof {
        lemma_all_seps_trim(root@.skip(2));
        assert forall|k: int| 0 <= k < root@.skip(2).len() implies is_sep(#[trigger] root@.skip(2)[k]) by {
            assert(root@.skip(2)[k] == chars@[k + 2]);
        }
    }
    Ok(crate::text::upper_ascii_char(chars[0]))
}

} // verus!
