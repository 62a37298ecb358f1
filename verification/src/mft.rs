//! Reading the NTFS change journal records that enumerate a volume, and
//! counting files and folders under each top-level directory.
use vstd::prelude::*;
use crate::order::{lemma_text_le_total, text_le, text_less_eq};
use crate::scanner::DirInfo;
use crate::text::{concat, is_high_surrogate, is_low_surrogate, is_plain_unit, string_of, surrogate_pair_char};

verus! {

pub const FILE_ATTRIBUTE_DIRECTORY: u32 = 0x10;

/// A version 2 change journal record.
#[derive(Debug, Clone)]
pub struct ParsedUsnRecord {
    pub file_reference_number: u64,
    pub parent_file_reference_number: u64,
    pub file_attributes: u32,
    pub name: String,
}

impl ParsedUsnRecord {
    pub open spec fn dir_spec(&self) -> bool {
        self.file_attributes & FILE_ATTRIBUTE_DIRECTORY != 0
    }

    pub fn is_dir(&self) -> (r: bool)
        ensures
            r == self.dir_spec(),
    {
        self.file_attributes & FILE_ATTRIBUTE_DIRECTORY != 0
    }
}

/// The unsigned number stored little-endian in `bytes`.
pub open spec fn le_value(bytes: Seq<u8>) -> nat
    decreases bytes.len(),
{
    if bytes.len() == 0 {
        0
    } else {
        bytes[0] as nat + 256 * le_value(bytes.drop_first())
    }
}

pub open spec fn pow256(n: nat) -> nat
    decreases n,
{
    if n == 0 { 1 } else { 256 * pow256((n - 1) as nat) }
}

pub(crate) proof fn lemma_le_bound(bytes: Seq<u8>)
    ensures
        le_value(bytes) < pow256(bytes.len()),
    decreases bytes.len(),
{
    if bytes.len() > 0 {
        let t = bytes.drop_first();
        lemma_le_bound(t);
        let v = le_value(t);
        let p = pow256(t.len());
        assert(bytes[0] as nat + 256 * v < 256 * p) by (nonlinear_arith)
            requires
                v < p,
                bytes[0] < 256,
        ;
    }
}

/// The number stored little-endian in `n` bytes of `b` from `at`.
pub(crate) fn read_le(b: &[u8], at: usize, n: usize) -> (r: u64)
    requires
        n <= 8,
        at + n <= b@.len(),
    ensures
        r == le_value(b@.subrange(at as int, at + n)),
{
    let ghost s = b@.subrange(at as int, at + n);
    let blen = b.len();
    let mut v: u64 = 0;
    let mut k: usize = n;
    assert(s.skip(n as int) =~= Seq::<u8>::empty());
    while k > 0
        invariant
            blen == b@.len(),
            n <= 8,
            at + n <= b@.len(),
            s == b@.subrange(at as int, at + n),
            k <= n,
            v == le_value(s.skip(k as int)),
        decreases k,
    {
        proof {
            lemma_le_bound(s.skip(k as int));
            assert(pow256(8) == 18446744073709551616nat) by {
                reveal_with_fuel(pow256, 9);
            }
            lemma_pow256_mono((n - k) as nat, 7);
            assert(s.skip(k - 1).drop_first() =~= s.skip(k as int));
            assert(s.skip(k - 1)[0] == b@[at + k - 1]);
        }
        let byte = b[at + k - 1];
        assert(v < pow256(7)) by {
            assert(s.skip(k as int).len() == n - k);
        }
        assert(pow256(7) == 72057594037927936nat) by {
            reveal_with_fuel(pow256, 8);
        }
        v = v * 256 + byte as u64;
        k = k - 1;
    }
    assert(s.skip(0) =~= s);
    v
}

proof fn lemma_pow256_mono(a: nat, b: nat)
    requires
        a <= b,
    ensures
        pow256(a) <= pow256(b),
    decreases b,
{
    if a < b {
        lemma_pow256_mono(a, (b - 1) as nat);
    }
}

/// Lossy UTF-16 decoding: as `utf16_decode`, except that each unpaired
/// surrogate becomes U+FFFD and decoding goes on with the next unit.
pub open spec fn utf16_lossy(units: Seq<u16>) -> Seq<char>
    decreases units.len(),
{
    if units.len() == 0 {
        Seq::empty()
    } else if is_plain_unit(units[0]) {
        seq![units[0] as char] + utf16_lossy(units.drop_first())
    } else if units.len() >= 2 && is_high_surrogate(units[0]) && is_low_surrogate(units[1]) {
        seq![surrogate_pair_char(units[0], units[1])] + utf16_lossy(units.skip(2))
    } else {
        seq!['\u{FFFD}'] + utf16_lossy(units.drop_first())
    }
}

/// `String::from_utf16_lossy`: the units decoded, each unpaired surrogate
/// replaced by U+FFFD; `utf16_lossy` states the decoding.
#[verifier::external_body]
pub(crate) fn from_utf16_lossy(units: &[u16]) -> (r: String)
    ensures
        r@ == utf16_lossy(units@),
{
    String::from_utf16_lossy(units)
}

/// The little-endian 16-bit units of an even number of bytes.
pub open spec fn units_of(bytes: Seq<u8>) -> Seq<u16> {
    Seq::new(bytes.len() / 2, |k: int| (bytes[2 * k] as int + 256 * bytes[2 * k + 1] as int) as u16)
}

/// The record in `r`, if it is a version 2 record whose fields all lie in it.
pub open spec fn usn_record(r: Seq<u8>) -> Option<(u64, u64, u32, Seq<char>)> {
    if r.len() < 60 || le_value(r.subrange(4, 6)) != 2 {
        None
    } else {
        let name_len = le_value(r.subrange(56, 58));
        let name_off = le_value(r.subrange(58, 60));
        if name_off + name_len > r.len() || name_len % 2 != 0 {
            None
        } else {
            Some((
                le_value(r.subrange(8, 16)) as u64,
                le_value(r.subrange(16, 24)) as u64,
                le_value(r.subrange(52, 56)) as u32,
                utf16_lossy(units_of(r.subrange(name_off as int, (name_off + name_len) as int))),
            ))
        }
    }
}

/// The records of a buffer from `offset` on: each starts with its length;
/// reading stops at a record of length zero, one that runs past the end, or
/// fewer than 60 bytes left.
pub open spec fn usn_records(buf: Seq<u8>, offset: int) -> Seq<(u64, u64, u32, Seq<char>)>
    decreases buf.len() - offset,
{
    if offset < 0 || offset + 60 > buf.len() {
        Seq::empty()
    } else {
        let len = le_value(buf.subrange(offset, offset + 4));
        if len == 0 || offset + len > buf.len() {
            Seq::empty()
        } else {
            match usn_record(buf.subrange(offset, offset + len)) {
                Some(rec) => seq![rec] + usn_records(buf, offset + len),
                None => usn_records(buf, offset + len),
            }
        }
    }
}

pub open spec fn record_view(r: ParsedUsnRecord) -> (u64, u64, u32, Seq<char>) {
    (r.file_reference_number, r.parent_file_reference_number, r.file_attributes, r.name@)
}

fn parse_usn_record(buf: &[u8], start: usize, len: usize) -> (r: Option<ParsedUsnRecord>)
    requires
        start + len <= buf@.len(),
    ensures
        match usn_record(buf@.subrange(start as int, start + len)) {
            Some(v) => r matches Some(p) && record_view(p) == v,
            None => r is None,
        },
{
    let ghost rec = buf@.subrange(start as int, start + len);
    let blen = buf.len();
    if len < 60 {
        return None;
    }
    assert(rec.subrange(4, 6) =~= buf@.subrange(start + 4, start + 6));
    let major = read_le(buf, start + 4, 2);
    if major != 2 {
        return None;
    }
    assert(rec.subrange(8, 16) =~= buf@.subrange(start + 8, start + 16));
    assert(rec.subrange(16, 24) =~= buf@.subrange(start + 16, start + 24));
    assert(rec.subrange(52, 56) =~= buf@.subrange(start + 52, start + 56));
    assert(rec.subrange(56, 58) =~= buf@.subrange(start + 56, start + 58));
    assert(rec.subrange(58, 60) =~= buf@.subrange(start + 58, start + 60));
    let frn = read_le(buf, start + 8, 8);
    let parent = read_le(buf, start + 16, 8);
    let attrs = read_le(buf, start + 52, 4);
    let name_len = read_le(buf, start + 56, 2) as usize;
    let name_off = read_le(buf, start + 58, 2) as usize;
    proof {
        lemma_le_bound(rec.subrange(52, 56));
        lemma_le_bound(rec.subrange(56, 58));
        lemma_le_bound(rec.subrange(58, 60));
        assert(pow256(4) == 4294967296nat) by {
            reveal_with_fuel(pow256, 5);
        }
        assert(pow256(2) == 65536nat) by {
            reveal_with_fuel(pow256, 3);
        }
    }
    if name_off + name_len > len || name_len % 2 != 0 {
        return None;
    }
    let mut units: Vec<u16> = Vec::new();
    let base = start + name_off;
    let ghost nb = rec.subrange(name_off as int, (name_off + name_len) as int);
    let mut k: usize = 0;
    while k < name_len / 2
        invariant
            blen == buf@.len(),
            start + len <= buf@.len(),
            name_off + name_len <= len,
            base == start + name_off,
            rec == buf@.subrange(start as int, start + len),
            nb == rec.subrange(name_off as int, (name_off + name_len) as int),
            name_len % 2 == 0,
            k <= name_len / 2,
            units@ == units_of(nb).take(k as int),
        decreases name_len / 2 - k,
    {
        let lo = buf[base + 2 * k];
        let hi = buf[base + 2 * k + 1];
        let u: u16 = lo as u16 + (hi as u16) * 256;
        assert(nb[2 * k as int] == lo && nb[2 * k + 1] == hi);
        units.push(u);
        assert(units_of(nb).take(k + 1) =~= units_of(nb).take(k as int).push(units_of(nb)[k as int]));
        k = k + 1;
    }
    assert(units_of(nb).take(k as int) =~= units_of(nb));
    let name = from_utf16_lossy(units.as_slice());
    Some(ParsedUsnRecord {
        file_reference_number: frn,
        parent_file_reference_number: parent,
        file_attributes: attrs as u32,
        name,
    })
}

/// Read the records of a buffer returned by the volume enumeration.
pub fn parse_usn_records(buffer: &[u8]) -> (r: Vec<ParsedUsnRecord>)
    ensures
        r@.map_values(|p: ParsedUsnRecord| record_view(p)) == usn_records(buffer@, 0),
{
    let mut records: Vec<ParsedUsnRecord> = Vec::new();
    let mut offset: usize = 0;
    assert(records@.map_values(|p: ParsedUsnRecord| record_view(p)) + usn_records(buffer@, 0) =~= usn_records(
        buffer@,
        0,
    ));
    while offset <= buffer.len() && buffer.len() - offset >= 60
        invariant
            offset <= buffer@.len(),
            records@.map_values(|p: ParsedUsnRecord| record_view(p)) + usn_records(buffer@, offset as int)
                == usn_records(buffer@, 0),
        ensures
            records@.map_values(|p: ParsedUsnRecord| record_view(p)) == usn_records(buffer@, 0),
        decreases buffer.len() - offset,
    {
        let len64 = read_le(buffer, offset, 4);
        proof {
            lemma_le_bound(buffer@.subrange(offset as int, offset + 4));
            assert(pow256(4) == 4294967296nat) by {
                reveal_with_fuel(pow256, 5);
            }
        }
        let len = len64 as usize;
        if len == 0 || len > buffer.len() - offset {
            assert(usn_records(buffer@, offset as int) =~= Seq::empty());
            assert(records@.map_values(|p: ParsedUsnRecord| record_view(p)) + Seq::empty() =~= records@.map_values(
                |p: ParsedUsnRecord| record_view(p),
            ));
            break;
        }
        let ghost before = records@.map_values(|p: ParsedUsnRecord| record_view(p));
        match parse_usn_record(buffer, offset, len) {
            Some(rec) => {
                records.push(rec);
                assert(records@.map_values(|p: ParsedUsnRecord| record_view(p)) =~= before.push(
                    usn_record(buffer@.subrange(offset as int, offset + len))->0,
                ));
                assert(before.push(usn_record(buffer@.subrange(offset as int, offset + len))->0) + usn_records(
                    buffer@,
                    offset + len,
                ) =~= before + (seq![usn_record(buffer@.subrange(offset as int, offset + len))->0] + usn_records(
                    buffer@,
                    offset + len,
                )));
            },
            None => {},
        }
        offset = offset + len;
        proof {
            if !(offset <= buffer@.len() && buffer@.len() - offset >= 60) {
                assert(usn_records(buffer@, offset as int) =~= Seq::empty());
                assert(records@.map_values(|p: ParsedUsnRecord| record_view(p)) + Seq::empty() =~= records@.map_values(
                    |p: ParsedUsnRecord| record_view(p),
                ));
            }
        }
    }
    records
}

// ── Top-level directories ──────────────────────────────────

/// The record a reference number names: the last one listed with it.
pub open spec fn by_frn(rs: Seq<ParsedUsnRecord>, frn: u64) -> Option<int>
    decreases rs.len(),
{
    if rs.len() == 0 {
        None
    } else if rs.last().file_reference_number == frn {
        Some(rs.len() - 1)
    } else {
        by_frn(rs.drop_last(), frn)
    }
}

/// Climb from `cur` towards the root for at most `fuel` steps: the
/// top-level directory is the one whose parent is the root (a record that
/// is its own parent).
pub open spec fn climb(rs: Seq<ParsedUsnRecord>, cur: int, fuel: nat) -> Option<int>
    decreases fuel,
{
    if fuel == 0 {
        None
    } else {
        match by_frn(rs, rs[cur].parent_file_reference_number) {
            None => if rs[cur].dir_spec() { Some(cur) } else { None },
            Some(p) => if rs[p].parent_file_reference_number == rs[p].file_reference_number {
                Some(cur)
            } else {
                climb(rs, p, (fuel - 1) as nat)
            },
        }
    }
}

/// The top-level directory a record lies in.
pub open spec fn top_of(rs: Seq<ParsedUsnRecord>, i: int) -> Option<int> {
    if rs[i].dir_spec() {
        climb(rs, i, 128)
    } else {
        match by_frn(rs, rs[i].parent_file_reference_number) {
            None => None,
            Some(p) => climb(rs, p, 128),
        }
    }
}

proof fn lemma_by_frn(rs: Seq<ParsedUsnRecord>, frn: u64)
    ensures
        by_frn(rs, frn) matches Some(i) ==> 0 <= i < rs.len() && rs[i].file_reference_number == frn,
    decreases rs.len(),
{
    if rs.len() > 0 && rs.last().file_reference_number != frn {
        lemma_by_frn(rs.drop_last(), frn);
    }
}

proof fn lemma_climb(rs: Seq<ParsedUsnRecord>, cur: int, fuel: nat)
    requires
        0 <= cur < rs.len(),
    ensures
        climb(rs, cur, fuel) matches Some(t) ==> 0 <= t < rs.len(),
    decreases fuel,
{
    if fuel > 0 {
        lemma_by_frn(rs, rs[cur].parent_file_reference_number);
        match by_frn(rs, rs[cur].parent_file_reference_number) {
            Some(p) => {
                lemma_climb(rs, p, (fuel - 1) as nat);
            },
            None => {},
        }
    }
}

fn find_frn(rs: &[ParsedUsnRecord], frn: u64) -> (r: Option<usize>)
    ensures
        match r {
            Some(i) => by_frn(rs@, frn) == Some(i as int),
            None => by_frn(rs@, frn) is None,
        },
{
    let mut i = rs.len();
    assert(rs@.take(i as int) =~= rs@);
    while i > 0
        invariant
            i <= rs@.len(),
            by_frn(rs@, frn) == by_frn(rs@.take(i as int), frn),
        decreases i,
    {
        assert(rs@.take(i as int).drop_last() =~= rs@.take(i - 1));
        if rs[i - 1].file_reference_number == frn {
            return Some(i - 1);
        }
        i = i - 1;
    }
    None
}

fn climb_exec(rs: &[ParsedUsnRecord], start: usize) -> (r: Option<usize>)
    requires
        start < rs@.len(),
    ensures
        match r {
            Some(t) => climb(rs@, start as int, 128) == Some(t as int),
            None => climb(rs@, start as int, 128) is None,
        },
{
    let mut cur = start;
    let mut steps: usize = 0;
    while steps < 128
        invariant
            cur < rs@.len(),
            steps <= 128,
            climb(rs@, start as int, 128) == climb(rs@, cur as int, (128 - steps) as nat),
        decreases 128 - steps,
    {
        proof {
            lemma_by_frn(rs@, rs@[cur as int].parent_file_reference_number);
        }
        match find_frn(rs, rs[cur].parent_file_reference_number) {
            None => {
                if rs[cur].is_dir() {
                    return Some(cur);
                } else {
                    return None;
                }
            },
            Some(p) => {
                if rs[p].parent_file_reference_number == rs[p].file_reference_number {
                    return Some(cur);
                }
                cur = p;
            },
        }
        steps = steps + 1;
    }
    None
}

/// The top-level directory of record `i`.
pub fn top_level_dir(rs: &[ParsedUsnRecord], i: usize) -> (r: Option<usize>)
    requires
        i < rs@.len(),
    ensures
        match r {
            Some(t) => top_of(rs@, i as int) == Some(t as int),
            None => top_of(rs@, i as int) is None,
        },
{
    if rs[i].is_dir() {
        climb_exec(rs, i)
    } else {
        proof {
            lemma_by_frn(rs@, rs@[i as int].parent_file_reference_number);
        }
        match find_frn(rs, rs[i].parent_file_reference_number) {
            None => None,
            Some(p) => climb_exec(rs, p),
        }
    }
}

/// The counts per top-level directory after the first `n` records: the
/// directory's reference number, its name, files and folders below it, in
/// order of first appearance.
pub open spec fn top_totals(rs: Seq<ParsedUsnRecord>, n: int) -> Seq<(u64, Seq<char>, nat, nat)>
    decreases n,
{
    if n <= 0 {
        Seq::empty()
    } else {
        let t = top_totals(rs, n - 1);
        let r = rs[n - 1];
        if r.file_reference_number == r.parent_file_reference_number {
            t
        } else {
            match top_of(rs, n - 1) {
                None => t,
                Some(top) => {
                    let frn = rs[top].file_reference_number;
                    let (t2, slot) = match total_slot(t, frn) {
                        Some(s) => (t, s),
                        None => (t.push((frn, rs[top].name@, 0nat, 0nat)), t.len() as int),
                    };
                    let e = t2[slot];
                    if r.dir_spec() {
                        if r.file_reference_number != frn {
                            t2.update(slot, (e.0, e.1, e.2, e.3 + 1))
                        } else {
                            t2
                        }
                    } else {
                        t2.update(slot, (e.0, e.1, e.2 + 1, e.3))
                    }
                },
            }
        }
    }
}

pub open spec fn total_slot(t: Seq<(u64, Seq<char>, nat, nat)>, frn: u64) -> Option<int>
    decreases t.len(),
{
    if t.len() == 0 {
        None
    } else if t.last().0 == frn {
        Some(t.len() - 1)
    } else {
        total_slot(t.drop_last(), frn)
    }
}

proof fn lemma_total_slot(t: Seq<(u64, Seq<char>, nat, nat)>, frn: u64)
    ensures
        total_slot(t, frn) matches Some(i) ==> 0 <= i < t.len() && t[i].0 == frn,
    decreases t.len(),
{
    if t.len() > 0 && t.last().0 != frn {
        lemma_total_slot(t.drop_last(), frn);
    }
}

proof fn lemma_totals_bounded(rs: Seq<ParsedUsnRecord>, n: int)
    ensures
        forall|k: int|
            0 <= k < top_totals(rs, n).len() ==> #[trigger] top_totals(rs, n)[k].2 <= if n < 0 { 0 } else { n }
                && top_totals(rs, n)[k].3 <= if n < 0 { 0 } else { n },
    decreases n,
{
    if n > 0 {
        lemma_totals_bounded(rs, n - 1);
        let t = top_totals(rs, n - 1);
        match top_of(rs, n - 1) {
            None => {},
            Some(top) => {
                lemma_total_slot(t, rs[top].file_reference_number);
            },
        }
    }
}

pub struct TopTotal {
    pub frn: u64,
    pub name: String,
    pub files: u64,
    pub dirs: u64,
}

pub open spec fn total_view(t: TopTotal) -> (u64, Seq<char>, nat, nat) {
    (t.frn, t.name@, t.files as nat, t.dirs as nat)
}

pub open spec fn total_views(ts: Seq<TopTotal>) -> Seq<(u64, Seq<char>, nat, nat)> {
    ts.map_values(|t: TopTotal| total_view(t))
}

fn find_total(ts: &Vec<TopTotal>, frn: u64) -> (r: Option<usize>)
    ensures
        match r {
            Some(i) => total_slot(total_views(ts@), frn) == Some(i as int),
            None => total_slot(total_views(ts@), frn) is None,
        },
{
    let ghost tv = total_views(ts@);
    let mut i = ts.len();
    assert(tv.take(i as int) =~= tv);
    while i > 0
        invariant
            i <= ts@.len(),
            tv == total_views(ts@),
            total_slot(tv, frn) == total_slot(tv.take(i as int), frn),
        decreases i,
    {
        assert(tv.take(i as int).drop_last() =~= tv.take(i - 1));
        assert(tv.take(i as int).last() == tv[i - 1]);
        if ts[i - 1].frn == frn {
            return Some(i - 1);
        }
        i = i - 1;
    }
    None
}

/// The counts per top-level directory of a volume's records.
pub fn count_top_dirs(records: &[ParsedUsnRecord]) -> (r: Vec<TopTotal>)
    ensures
        total_views(r@) == top_totals(records@, records@.len() as int),
{
    let n = records.len();
    let mut ts: Vec<TopTotal> = Vec::new();
    let mut i: usize = 0;
    while i < records.len()
        invariant
            n == records@.len(),
            i <= records@.len(),
            total_views(ts@) == top_totals(records@, i as int),
        decreases records.len() - i,
    {
        let r = &records[i];
        proof {
            lemma_totals_bounded(records@, i as int);
        }
        if r.file_reference_number != r.parent_file_reference_number {
            match top_level_dir(records, i) {
                None => {},
                Some(top) => {
                    proof {
                        lemma_climb(records@, i as int, 128);
                        lemma_by_frn(records@, records@[i as int].parent_file_reference_number);
                        match by_frn(records@, records@[i as int].parent_file_reference_number) {
                            Some(p) => lemma_climb(records@, p, 128),
                            None => {},
                        }
                    }
                    let frn = records[top].file_reference_number;
                    let ghost before = total_views(ts@);
                    proof {
                        lemma_total_slot(before, frn);
                    }
                    let slot = match find_total(&ts, frn) {
                        Some(s) => s,
                        None => {
                            ts.push(TopTotal { frn, name: records[top].name.clone(), files: 0, dirs: 0 });
                            assert(total_views(ts@) =~= before.push((frn, records@[top as int].name@, 0nat, 0nat)));
                            ts.len() - 1
                        },
                    };
                    let ghost mid = total_views(ts@);
                    if r.is_dir() {
                        if r.file_reference_number != frn {
                            let mut e = ts.remove(slot);
                            e.dirs = e.dirs + 1;
                            ts.insert(slot, e);
                            assert(total_views(ts@) =~= mid.update(
                                slot as int,
                                (mid[slot as int].0, mid[slot as int].1, mid[slot as int].2, mid[slot as int].3 + 1),
                            ));
                        }
                    } else {
                        let mut e = ts.remove(slot);
                        e.files = e.files + 1;
                        ts.insert(slot, e);
                        assert(total_views(ts@) =~= mid.update(
                            slot as int,
                            (mid[slot as int].0, mid[slot as int].1, mid[slot as int].2 + 1, mid[slot as int].3),
                        ));
                    }
                },
            }
        }
        i = i + 1;
    }
    ts
}

/// Directory `a` is listed before or level with `b`: more files first, then by name.
pub open spec fn dir_rank_le(a: (u64, Seq<char>, nat, nat), b: (u64, Seq<char>, nat, nat)) -> bool {
    a.2 > b.2 || (a.2 == b.2 && text_le(a.1, b.1))
}

/// The top-level directories of a volume's records, as directory records
/// under `drive`: most files first, then by name. Sizes are not known from
/// the records and are zero.
pub fn records_to_top_dirs(drive: char, records: &[ParsedUsnRecord]) -> (r: Vec<DirInfo>)
    ensures
        exists|p: Seq<usize>|
            #![trigger crate::order::is_index_perm(p, top_totals(records@, records@.len() as int).len())]
            crate::order::is_index_perm(p, top_totals(records@, records@.len() as int).len()) && r@.len() == p.len()
                && (forall|k: int|
                0 <= k < p.len() ==> {
                    let t = top_totals(records@, records@.len() as int)[p[k] as int];
                    &&& (#[trigger] r@[k]).name@ == t.1
                    &&& r@[k].path@ == seq![drive, ':', '\\'] + t.1
                    &&& r@[k].size_bytes == 0
                    &&& r@[k].file_count == t.2
                    &&& r@[k].dir_count == t.3
                    &&& r@[k].risk_level is None
                }) && forall|k: int|
                0 <= k < p.len() - 1 ==> dir_rank_le(
                    top_totals(records@, records@.len() as int)[#[trigger] p[k] as int],
                    top_totals(records@, records@.len() as int)[p[k + 1] as int],
                ),
{
    let ts = count_top_dirs(records);
    let ghost tv = total_views(ts@);
    let n = ts.len();
    let mut order: Vec<usize> = Vec::new();
    let mut i: usize = 0;
    while i < n
        invariant
            n == ts@.len(),
            tv == total_views(ts@),
            tv == top_totals(records@, records@.len() as int),
            i <= n,
            order@.len() == i,
            forall|k: int| 0 <= k < order@.len() ==> #[trigger] order@[k] < i,
            forall|a: int, b: int| 0 <= a < b < order@.len() ==> order@[a] != order@[b],
            forall|k: int| 0 <= k < order@.len() - 1 ==> dir_rank_le(tv[#[trigger] order@[k] as int], tv[order@[k + 1] as int]),
        decreases n - i,
    {
        let mut pos: usize = 0;
        while pos < order.len() && rank_le(&ts[order[pos]], &ts[i])
            invariant
                n == ts@.len(),
                tv == total_views(ts@),
                i < n,
                pos <= order@.len(),
                forall|k: int| 0 <= k < order@.len() ==> #[trigger] order@[k] < i,
                pos > 0 ==> dir_rank_le(tv[order@[pos - 1] as int], tv[i as int]),
            decreases order.len() - pos,
        {
            pos = pos + 1;
        }
        proof {
            if pos < order@.len() {
                lemma_text_le_total(tv[order@[pos as int] as int].1, tv[i as int].1);
            }
        }
        let ghost old_order = order@;
        order.insert(pos, i);
        proof {
            assert(order@ == old_order.insert(pos as int, i));
            assert forall|k: int| 0 <= k < order@.len() - 1 implies dir_rank_le(
                tv[#[trigger] order@[k] as int],
                tv[order@[k + 1] as int],
            ) by {
                if k + 1 < pos {
                    assert(order@[k] == old_order[k] && order@[k + 1] == old_order[k + 1]);
                } else if k + 1 == pos {
                    assert(order@[k] == old_order[k]);
                } else if k == pos {
                    assert(order@[k + 1] == old_order[k]);
                } else {
                    assert(order@[k] == old_order[k - 1] && order@[k + 1] == old_order[k]);
                }
            }
        }
        i = i + 1;
    }
    let mut out: Vec<DirInfo> = Vec::new();
    let mut k: usize = 0;
    while k < order.len()
        invariant
            n == ts@.len(),
            tv == total_views(ts@),
            tv == top_totals(records@, records@.len() as int),
            crate::order::is_index_perm(order@, n as nat),
            forall|j: int| 0 <= j < order@.len() - 1 ==> dir_rank_le(tv[#[trigger] order@[j] as int], tv[order@[j + 1] as int]),
            k <= order@.len(),
            out@.len() == k,
            forall|j: int|
                0 <= j < k ==> {
                    let t = tv[order@[j] as int];
                    &&& (#[trigger] out@[j]).name@ == t.1
                    &&& out@[j].path@ == seq![drive, ':', '\\'] + t.1
                    &&& out@[j].size_bytes == 0
                    &&& out@[j].file_count == t.2
                    &&& out@[j].dir_count == t.3
                    &&& out@[j].risk_level is None
                },
        decreases order.len() - k,
    {
        let t = &ts[order[k]];
        let mut p: Vec<char> = Vec::new();
        p.push(drive);
        p.push(':');
        p.push('\\');
        let head = string_of(p.as_slice());
        let path = concat(head.as_str(), t.name.as_str());
        out.push(DirInfo {
            name: t.name.clone(),
            path,
            size_bytes: 0,
            file_count: t.files,
            dir_count: t.dirs,
            risk_level: None,
        });
        assert(p@ =~= seq![drive, ':', '\\']);
        k = k + 1;
    }
    assert(crate::order::is_index_perm(order@, top_totals(records@, records@.len() as int).len()));
    out
}

fn rank_le(a: &TopTotal, b: &TopTotal) -> (r: bool)
    ensures
        r == dir_rank_le(total_view(*a), total_view(*b)),
{
    a.files > b.files || (a.files == b.files && text_less_eq(a.name.as_str(), b.name.as_str()))
}

} // verus!
