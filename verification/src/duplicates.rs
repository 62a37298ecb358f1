//! Duplicate files: files of the same size are compared by a hash of their
//! first 4 KiB, and those that still match by a hash of their whole content.
//! Hard links to a file already seen are counted, not reported.
use sha2::Digest;
use vstd::prelude::*;
use crate::order::{adjacent_text, is_index_perm, is_stable_order, stable_order, string_views, text_le, text_order};
use crate::platform::FileIdentity;
use crate::scanner::FileEntry;
use crate::text::{str_eq, string_of};

verus! {

#[derive(Debug, Clone)]
pub struct DuplicateGroup {
    pub group_id: String,
    pub total_size_wasted: u64,
    pub hard_link_count: usize,
    pub files: Vec<FileEntry>,
}

#[derive(Debug, Clone)]
pub struct DuplicateScanProgress {
    pub drive_letter: String,
    pub phase: String,
    pub files_processed: usize,
    pub groups_found: usize,
    pub current_path: Option<String>,
    pub hard_link_count: usize,
}

// ── Hashing ────────────────────────────────────────────────

/// The SHA-256 digest of a byte string.
pub uninterp spec fn sha256_of(data: Seq<u8>) -> Seq<u8>;

/// `Sha256::digest` from the `sha2` crate: the 32-byte digest of `data`.
#[verifier::external_body]
fn sha256_digest(data: &[u8]) -> (r: Vec<u8>)
    ensures
        r@ == sha256_of(data@),
        r@.len() == 32,
{
    sha2::Sha256::digest(data).to_vec()
}

pub open spec fn hex_char_of(d: nat) -> char {
    if d < 10 {
        ((d + 48) as u32) as char
    } else {
        ((d + 87) as u32) as char
    }
}

/// Bytes as lower-case hexadecimal, two digits each.
pub open spec fn hex_of(bytes: Seq<u8>) -> Seq<char>
    decreases bytes.len(),
{
    if bytes.len() == 0 {
        Seq::empty()
    } else {
        hex_of(bytes.drop_last()) + seq![hex_char_of((bytes.last() / 16) as nat), hex_char_of((bytes.last() % 16) as nat)]
    }
}

fn hex_char(d: u8) -> (c: char)
    requires
        d < 16,
    ensures
        c == hex_char_of(d as nat),
{
    if d < 10 {
        let b: u8 = d + 48;
        b as char
    } else {
        let b: u8 = d + 87;
        b as char
    }
}

/// The SHA-256 digest of `data`, as 64 lower-case hexadecimal digits.
pub fn sha256_hex(data: &[u8]) -> (r: String)
    ensures
        r@ == hex_of(sha256_of(data@)),
        r@.len() == 64,
{
    let digest = sha256_digest(data);
    let mut out: Vec<char> = Vec::new();
    let mut i: usize = 0;
    while i < digest.len()
        invariant
            i <= digest@.len(),
            out@ == hex_of(digest@.take(i as int)),
            out@.len() == 2 * i,
        decreases digest.len() - i,
    {
        let b = digest[i];
        out.push(hex_char(b / 16));
        out.push(hex_char(b % 16));
        assert(digest@.take(i + 1).drop_last() =~= digest@.take(i as int));
        assert(out@ =~= hex_of(digest@.take(i + 1)));
        i = i + 1;
    }
    assert(digest@.take(i as int) =~= digest@);
    string_of(out.as_slice())
}

// ── Hard links and sizes ───────────────────────────────────

/// A regular file found by the walk, with its identity where the platform
/// reports one.
#[derive(Debug, Clone)]
pub struct FoundFile {
    pub entry: FileEntry,
    pub identity: Option<FileIdentity>,
}

/// The file identities met so far by a walk, and how many of the files it
/// met were further links to a file met before.
pub struct LinkTracker {
    pub seen: Vec<FileIdentity>,
    pub hard_link_count: usize,
}

impl LinkTracker {
    pub fn new() -> (t: LinkTracker)
        ensures
            t.seen@ == Seq::<FileIdentity>::empty(),
            t.hard_link_count == 0,
    {
        LinkTracker { seen: Vec::new(), hard_link_count: 0 }
    }

    /// Notes the identity of a file the walk met; returns whether the file is
    /// a further link to one met before, which is then counted. A file
    /// without an identity is never a link.
    pub fn note(&mut self, identity: Option<FileIdentity>) -> (repeat: bool)
        requires
            old(self).hard_link_count < usize::MAX,
        ensures
            repeat == (identity matches Some(id) && old(self).seen@.contains(id)),
            final(self).hard_link_count == old(self).hard_link_count + if repeat { 1usize } else { 0usize },
            final(self).seen@ == (match identity {
                Some(id) => if repeat { old(self).seen@ } else { old(self).seen@.push(id) },
                None => old(self).seen@,
            }),
    {
        let id = match identity {
            Some(id) => id,
            None => {
                return false;
            },
        };
        let mut j: usize = 0;
        while j < self.seen.len()
            invariant
                j <= self.seen@.len(),
                identity == Some(id),
                self.seen@ == old(self).seen@,
                self.hard_link_count == old(self).hard_link_count,
                old(self).hard_link_count < usize::MAX,
                forall|k: int| 0 <= k < j ==> self.seen@[k] != id,
            decreases self.seen.len() - j,
        {
            if self.seen[j] == id {
                assert(self.seen@[j as int] == id);
                self.hard_link_count = self.hard_link_count + 1;
                return true;
            }
            j = j + 1;
        }
        assert(!self.seen@.contains(id));
        self.seen.push(id);
        false
    }
}

/// The identities a tracker holds after noting, in order, the files of at
/// least `min_size` bytes among the first `n`.
pub open spec fn tracked_identities(fs: Seq<FoundFile>, min_size: u64, n: int) -> Seq<FileIdentity>
    decreases n,
{
    if n <= 0 {
        Seq::empty()
    } else {
        let before = tracked_identities(fs, min_size, n - 1);
        if fs[n - 1].entry.size_bytes >= min_size && fs[n - 1].identity is Some && !before.contains(
            fs[n - 1].identity->0,
        ) {
            before.push(fs[n - 1].identity->0)
        } else {
            before
        }
    }
}

/// The count a tracker holds after noting, in order, the files of at least
/// `min_size` bytes among the first `n`.
pub open spec fn tracked_links(fs: Seq<FoundFile>, min_size: u64, n: int) -> nat
    decreases n,
{
    if n <= 0 {
        0
    } else {
        tracked_links(fs, min_size, n - 1) + if fs[n - 1].entry.size_bytes >= min_size
            && fs[n - 1].identity is Some && tracked_identities(fs, min_size, n - 1).contains(
            fs[n - 1].identity->0,
        ) {
            1nat
        } else {
            0nat
        }
    }
}

proof fn lemma_tracked_identities(fs: Seq<FoundFile>, min_size: u64, n: int, id: FileIdentity)
    requires
        0 <= n <= fs.len(),
    ensures
        tracked_identities(fs, min_size, n).contains(id) <==> exists|j: int|
            0 <= j < n && fs[j].entry.size_bytes >= min_size && #[trigger] fs[j].identity == Some(id),
    decreases n,
{
    if n > 0 {
        lemma_tracked_identities(fs, min_size, n - 1, id);
        let before = tracked_identities(fs, min_size, n - 1);
        let cur = tracked_identities(fs, min_size, n);
        let last_hit = fs[n - 1].entry.size_bytes >= min_size && fs[n - 1].identity == Some(id);
        let earlier = exists|j: int|
            0 <= j < n - 1 && fs[j].entry.size_bytes >= min_size && #[trigger] fs[j].identity == Some(id);
        // The witnesses below n are those below n - 1 and the last file.
        if last_hit {
            assert(fs[n - 1].identity == Some(id));
        }
        if earlier {
            let j = choose|j: int|
                0 <= j < n - 1 && fs[j].entry.size_bytes >= min_size && #[trigger] fs[j].identity == Some(id);
            assert(fs[j].identity == Some(id));
        }
        if exists|j: int| 0 <= j < n && fs[j].entry.size_bytes >= min_size && #[trigger] fs[j].identity == Some(id) {
            let j = choose|j: int| 0 <= j < n && fs[j].entry.size_bytes >= min_size && #[trigger] fs[j].identity == Some(id);
            if j < n - 1 {
                assert(earlier);
            } else {
                assert(last_hit);
            }
        }
        if fs[n - 1].entry.size_bytes >= min_size && fs[n - 1].identity is Some && !before.contains(
            fs[n - 1].identity->0,
        ) {
            let x = fs[n - 1].identity->0;
            assert(cur == before.push(x));
            if cur.contains(id) {
                let k = choose|k: int| 0 <= k < cur.len() && cur[k] == id;
                if k < before.len() {
                    assert(before[k] == id);
                } else {
                    assert(x == id);
                }
            }
            if before.contains(id) {
                let k = choose|k: int| 0 <= k < before.len() && before[k] == id;
                assert(cur[k] == id);
            }
            if x == id {
                assert(cur[before.len() as int] == id);
            }
        } else {
            assert(cur == before);
            if last_hit {
                assert(before.contains(id));
            }
        }
    }
}

/// A walk that notes the identity of each file of at least `min_size` bytes,
/// in order, counts exactly the further links that the size pass counts.
pub proof fn law_walk_counts_links_as_size_pass(fs: Seq<FoundFile>, min_size: u64, n: int)
    requires
        0 <= n <= fs.len(),
    ensures
        tracked_links(fs, min_size, n) == link_count(fs, min_size, n),
    decreases n,
{
    if n > 0 {
        law_walk_counts_links_as_size_pass(fs, min_size, n - 1);
        let last = fs[n - 1];
        if last.entry.size_bytes >= min_size && last.identity is Some {
            let id = last.identity->0;
            lemma_tracked_identities(fs, min_size, n - 1, id);
            if is_repeat_link(fs, min_size, n - 1) {
                let j = choose|j: int|
                    0 <= j < n - 1 && fs[j].entry.size_bytes >= min_size && #[trigger] fs[j].identity == fs[n - 1].identity;
                assert(fs[j].identity == Some(id));
            }
            if tracked_identities(fs, min_size, n - 1).contains(id) {
                let j = choose|j: int|
                    0 <= j < n - 1 && fs[j].entry.size_bytes >= min_size && #[trigger] fs[j].identity == Some(id);
                assert(fs[j].identity == fs[n - 1].identity);
            }
        }
    }
}

/// File `i` is a further link to a file already processed.
pub open spec fn is_repeat_link(fs: Seq<FoundFile>, min_size: u64, i: int) -> bool {
    &&& fs[i].identity is Some
    &&& exists|j: int|
        0 <= j < i && fs[j].entry.size_bytes >= min_size && #[trigger] fs[j].identity == fs[i].identity
}

/// Files of at least `min_size` bytes among the first `n`.
pub open spec fn processed_count(fs: Seq<FoundFile>, min_size: u64, n: int) -> nat
    decreases n,
{
    if n <= 0 {
        0
    } else {
        processed_count(fs, min_size, n - 1) + if fs[n - 1].entry.size_bytes >= min_size {
            1nat
        } else {
            0nat
        }
    }
}

/// Further links among the first `n` files.
pub open spec fn link_count(fs: Seq<FoundFile>, min_size: u64, n: int) -> nat
    decreases n,
{
    if n <= 0 {
        0
    } else {
        link_count(fs, min_size, n - 1) + if fs[n - 1].entry.size_bytes >= min_size && is_repeat_link(
            fs,
            min_size,
            n - 1,
        ) {
            1nat
        } else {
            0nat
        }
    }
}

/// The entries of the first `n` files that are large enough and not further links.
pub open spec fn unique_files(fs: Seq<FoundFile>, min_size: u64, n: int) -> Seq<FileEntry>
    decreases n,
{
    if n <= 0 {
        Seq::empty()
    } else if fs[n - 1].entry.size_bytes >= min_size && !is_repeat_link(fs, min_size, n - 1) {
        unique_files(fs, min_size, n - 1).push(fs[n - 1].entry)
    } else {
        unique_files(fs, min_size, n - 1)
    }
}

/// How many entries have this size.
pub open spec fn size_count(es: Seq<FileEntry>, size: u64) -> nat
    decreases es.len(),
{
    if es.len() == 0 {
        0
    } else {
        size_count(es.drop_last(), size) + if es.last().size_bytes == size {
            1nat
        } else {
            0nat
        }
    }
}

/// The entries among the first `n` of `es` whose size some other entry of `es` shares.
pub open spec fn shared_size(es: Seq<FileEntry>, n: int) -> Seq<FileEntry>
    decreases n,
{
    if n <= 0 {
        Seq::empty()
    } else if size_count(es, es[n - 1].size_bytes) >= 2 {
        shared_size(es, n - 1).push(es[n - 1])
    } else {
        shared_size(es, n - 1)
    }
}

/// The outcome of the first pass: how many files were large enough, how
/// many were further links, and the files whose size another file shares.
#[derive(Debug, Clone)]
pub struct SizeGrouping {
    pub processed: usize,
    pub hard_link_count: usize,
    pub candidates: Vec<FileEntry>,
}

fn seen_before(fs: &Vec<FoundFile>, min_size: u64, i: usize) -> (r: bool)
    requires
        i < fs@.len(),
    ensures
        r == is_repeat_link(fs@, min_size, i as int),
{
    let id = match fs[i].identity {
        Some(id) => id,
        None => {
            return false;
        },
    };
    let mut j: usize = 0;
    while j < i
        invariant
            i < fs@.len(),
            j <= i,
            fs@[i as int].identity == Some(id),
            forall|k: int| 0 <= k < j ==> !(fs@[k].entry.size_bytes >= min_size && #[trigger] fs@[k].identity == fs@[i as int].identity),
        decreases i - j,
    {
        if fs[j].entry.size_bytes >= min_size {
            match fs[j].identity {
                Some(other) => {
                    if other == id {
                        assert(fs@[j as int].identity == fs@[i as int].identity);
                        return true;
                    }
                },
                None => {},
            }
        }
        j = j + 1;
    }
    false
}

fn count_size(es: &Vec<FileEntry>, size: u64) -> (r: usize)
    ensures
        r == size_count(es@, size),
{
    let mut c: usize = 0;
    let mut i: usize = 0;
    while i < es.len()
        invariant
            i <= es@.len(),
            c == size_count(es@.take(i as int), size),
            c <= i,
        decreases es.len() - i,
    {
        assert(es@.take(i + 1).drop_last() =~= es@.take(i as int));
        if es[i].size_bytes == size {
            c = c + 1;
        }
        i = i + 1;
    }
    assert(es@.take(i as int) =~= es@);
    c
}

proof fn lemma_counts_le(fs: Seq<FoundFile>, min_size: u64, n: int)
    ensures
        processed_count(fs, min_size, n) <= if n < 0 { 0 } else { n },
        link_count(fs, min_size, n) <= if n < 0 { 0 } else { n },
    decreases n,
{
    if n > 0 {
        lemma_counts_le(fs, min_size, n - 1);
    }
}

/// The first pass over the files a walk found.
pub fn group_by_size(found: &Vec<FoundFile>, min_size: u64) -> (r: SizeGrouping)
    ensures
        r.processed == processed_count(found@, min_size, found@.len() as int),
        r.hard_link_count == link_count(found@, min_size, found@.len() as int),
        r.candidates@ == shared_size(
            unique_files(found@, min_size, found@.len() as int),
            unique_files(found@, min_size, found@.len() as int).len() as int,
        ),
{
    let mut processed: usize = 0;
    let mut links: usize = 0;
    let mut unique: Vec<FileEntry> = Vec::new();
    let mut i: usize = 0;
    while i < found.len()
        invariant
            i <= found@.len(),
            processed == processed_count(found@, min_size, i as int),
            links == link_count(found@, min_size, i as int),
            unique@ == unique_files(found@, min_size, i as int),
        decreases found.len() - i,
    {
        proof {
            lemma_counts_le(found@, min_size, i as int);
        }
        if found[i].entry.size_bytes >= min_size {
            processed = processed + 1;
            if seen_before(found, min_size, i) {
                links = links + 1;
            } else {
                unique.push(found[i].entry.copied());
            }
        }
        i = i + 1;
    }
    let mut candidates: Vec<FileEntry> = Vec::new();
    let mut k: usize = 0;
    while k < unique.len()
        invariant
            k <= unique@.len(),
            candidates@ == shared_size(unique@, k as int),
        decreases unique.len() - k,
    {
        if count_size(&unique, unique[k].size_bytes) >= 2 {
            candidates.push(unique[k].copied());
        }
        k = k + 1;
    }
    SizeGrouping { processed, hard_link_count: links, candidates }
}

// ── Grouping by size and hash ──────────────────────────────

/// A file with the hash it was compared by.
pub open spec fn keyed(es: Seq<FileEntry>, hashes: Seq<String>) -> Seq<(u64, Seq<char>, FileEntry)> {
    Seq::new(es.len(), |i: int| (es[i].size_bytes, hashes[i]@, es[i]))
}

/// How many files share this size and hash.
pub open spec fn key_count(ks: Seq<(u64, Seq<char>, FileEntry)>, size: u64, h: Seq<char>) -> nat
    decreases ks.len(),
{
    if ks.len() == 0 {
        0
    } else {
        key_count(ks.drop_last(), size, h) + if ks.last().0 == size && ks.last().1 == h {
            1nat
        } else {
            0nat
        }
    }
}

/// The files among the first `n` whose size and hash another file shares.
pub open spec fn shared_key(ks: Seq<(u64, Seq<char>, FileEntry)>, n: int) -> Seq<FileEntry>
    decreases n,
{
    if n <= 0 {
        Seq::empty()
    } else if key_count(ks, ks[n - 1].0, ks[n - 1].1) >= 2 {
        shared_key(ks, n - 1).push(ks[n - 1].2)
    } else {
        shared_key(ks, n - 1)
    }
}

fn count_key(es: &Vec<FileEntry>, hashes: &Vec<String>, size: u64, h: &str) -> (r: usize)
    requires
        hashes@.len() == es@.len(),
    ensures
        r == key_count(keyed(es@, hashes@), size, h@),
{
    let ghost ks = keyed(es@, hashes@);
    let mut c: usize = 0;
    let mut i: usize = 0;
    while i < es.len()
        invariant
            hashes@.len() == es@.len(),
            ks == keyed(es@, hashes@),
            i <= es@.len(),
            c == key_count(ks.take(i as int), size, h@),
            c <= i,
        decreases es.len() - i,
    {
        assert(ks.take(i + 1).drop_last() =~= ks.take(i as int));
        if es[i].size_bytes == size && str_eq(hashes[i].as_str(), h) {
            c = c + 1;
        }
        i = i + 1;
    }
    assert(ks.take(i as int) =~= ks);
    c
}

/// The second pass: of the files with a shared size, those whose first
/// 4 KiB hash (`prefixes`, one per file) another file of the same size shares.
pub fn group_by_prefix(candidates: &Vec<FileEntry>, prefixes: &Vec<String>) -> (r: Vec<FileEntry>)
    requires
        prefixes@.len() == candidates@.len(),
    ensures
        r@ == shared_key(keyed(candidates@, prefixes@), candidates@.len() as int),
{
    let ghost ks = keyed(candidates@, prefixes@);
    let mut out: Vec<FileEntry> = Vec::new();
    let mut k: usize = 0;
    while k < candidates.len()
        invariant
            prefixes@.len() == candidates@.len(),
            ks == keyed(candidates@, prefixes@),
            k <= candidates@.len(),
            out@ == shared_key(ks, k as int),
        decreases candidates.len() - k,
    {
        if count_key(candidates, prefixes, candidates[k].size_bytes, prefixes[k].as_str()) >= 2 {
            out.push(candidates[k].copied());
        }
        k = k + 1;
    }
    out
}

/// The groups of files sharing size and hash, in order of first
/// appearance, each with its files in order.
pub open spec fn key_groups(ks: Seq<(u64, Seq<char>, FileEntry)>) -> Seq<(u64, Seq<char>, Seq<FileEntry>)>
    decreases ks.len(),
{
    if ks.len() == 0 {
        Seq::empty()
    } else {
        let g = key_groups(ks.drop_last());
        let (size, h, e) = ks.last();
        match key_slot(g, size, h) {
            Some(i) => g.update(i, (size, h, g[i].2.push(e))),
            None => g.push((size, h, seq![e])),
        }
    }
}

pub open spec fn key_slot(g: Seq<(u64, Seq<char>, Seq<FileEntry>)>, size: u64, h: Seq<char>) -> Option<int>
    decreases g.len(),
{
    if g.len() == 0 {
        None
    } else if g.last().0 == size && g.last().1 == h {
        Some(g.len() - 1)
    } else {
        key_slot(g.drop_last(), size, h)
    }
}

/// The groups with at least two files.
pub open spec fn big_groups(g: Seq<(u64, Seq<char>, Seq<FileEntry>)>) -> Seq<(u64, Seq<char>, Seq<FileEntry>)>
    decreases g.len(),
{
    if g.len() == 0 {
        Seq::empty()
    } else if g.last().2.len() >= 2 {
        big_groups(g.drop_last()).push(g.last())
    } else {
        big_groups(g.drop_last())
    }
}

/// Bytes that all but one copy of a group waste, saturating.
pub open spec fn wasted(size: u64, n: nat) -> u64 {
    let extra = if n >= 1 { n - 1 } else { 0 };
    if size * extra > u64::MAX { u64::MAX } else { (size * extra) as u64 }
}

/// `out` lists the files of `files` ordered by path.
pub open spec fn listed_by_path(out: Seq<FileEntry>, files: Seq<FileEntry>) -> bool {
    exists|p: Seq<usize>|
        #![trigger is_index_perm(p, files.len())]
        is_index_perm(p, files.len()) && out.len() == p.len() && (forall|k: int|
            0 <= k < p.len() ==> #[trigger] out[k] == files[p[k] as int]) && forall|k: int|
            0 <= k < p.len() - 1 ==> text_le(#[trigger] out[k].path@, out[k + 1].path@)
}

/// `d` is the report for a group of identical files.
pub open spec fn is_group_for(d: DuplicateGroup, g: (u64, Seq<char>, Seq<FileEntry>), hard_links: usize) -> bool {
    &&& d.group_id@ == g.1.take(if 16 <= g.1.len() { 16 } else { g.1.len() as int })
    &&& d.total_size_wasted == wasted(g.0, g.2.len())
    &&& d.hard_link_count == hard_links
    &&& listed_by_path(d.files@, g.2)
}

pub open spec fn group_waste_keys(gs: Seq<(u64, Seq<char>, Seq<FileEntry>)>) -> Seq<u128> {
    Seq::new(gs.len(), |i: int| (u64::MAX - wasted(gs[i].0, gs[i].2.len())) as u128)
}

/// `out` reports the groups of `gs`, most wasted bytes first.
pub open spec fn reports_groups(out: Seq<DuplicateGroup>, gs: Seq<(u64, Seq<char>, Seq<FileEntry>)>, hard_links: usize) -> bool {
    exists|p: Seq<usize>|
        #![trigger is_stable_order(group_waste_keys(gs), p)]
        is_stable_order(group_waste_keys(gs), p) && out.len() == p.len() && forall|k: int|
            0 <= k < p.len() ==> is_group_for(#[trigger] out[k], gs[p[k] as int], hard_links)
}

pub struct KeyGroup {
    pub size: u64,
    pub hash: String,
    pub files: Vec<FileEntry>,
}

pub open spec fn key_group_view(g: KeyGroup) -> (u64, Seq<char>, Seq<FileEntry>) {
    (g.size, g.hash@, g.files@)
}

pub open spec fn key_group_views(gs: Seq<KeyGroup>) -> Seq<(u64, Seq<char>, Seq<FileEntry>)> {
    gs.map_values(|g: KeyGroup| key_group_view(g))
}

proof fn lemma_key_slot(g: Seq<(u64, Seq<char>, Seq<FileEntry>)>, size: u64, h: Seq<char>)
    ensures
        key_slot(g, size, h) matches Some(i) ==> 0 <= i < g.len() && g[i].0 == size && g[i].1 == h,
    decreases g.len(),
{
    if g.len() > 0 && !(g.last().0 == size && g.last().1 == h) {
        lemma_key_slot(g.drop_last(), size, h);
    }
}

fn find_group(gs: &Vec<KeyGroup>, size: u64, h: &str) -> (r: Option<usize>)
    ensures
        match r {
            Some(i) => key_slot(key_group_views(gs@), size, h@) == Some(i as int),
            None => key_slot(key_group_views(gs@), size, h@) is None,
        },
{
    let ghost gv = key_group_views(gs@);
    let mut i = gs.len();
    assert(gv.take(i as int) =~= gv);
    while i > 0
        invariant
            i <= gs@.len(),
            gv == key_group_views(gs@),
            key_slot(gv, size, h@) == key_slot(gv.take(i as int), size, h@),
        decreases i,
    {
        assert(gv.take(i as int).drop_last() =~= gv.take(i - 1));
        assert(gv.take(i as int).last() == gv[i - 1]);
        if gs[i - 1].size == size && str_eq(gs[i - 1].hash.as_str(), h) {
            return Some(i - 1);
        }
        i = i - 1;
    }
    None
}

fn gather(es: &Vec<FileEntry>, hashes: &Vec<String>) -> (r: Vec<KeyGroup>)
    requires
        hashes@.len() == es@.len(),
    ensures
        key_group_views(r@) == key_groups(keyed(es@, hashes@)),
{
    let ghost ks = keyed(es@, hashes@);
    let mut gs: Vec<KeyGroup> = Vec::new();
    let mut i: usize = 0;
    while i < es.len()
        invariant
            hashes@.len() == es@.len(),
            ks == keyed(es@, hashes@),
            i <= es@.len(),
            key_group_views(gs@) == key_groups(ks.take(i as int)),
        decreases es.len() - i,
    {
        let ghost before = key_group_views(gs@);
        assert(ks.take(i + 1).drop_last() =~= ks.take(i as int));
        assert(ks.take(i + 1).last() == ks[i as int]);
        proof {
            lemma_key_slot(before, es@[i as int].size_bytes, hashes@[i as int]@);
        }
        match find_group(&gs, es[i].size_bytes, hashes[i].as_str()) {
            Some(k) => {
                let mut g = gs.remove(k);
                g.files.push(es[i].copied());
                gs.insert(k, g);
                assert(key_group_views(gs@) =~= before.update(
                    k as int,
                    (before[k as int].0, before[k as int].1, before[k as int].2.push(es@[i as int])),
                ));
            },
            None => {
                let mut files: Vec<FileEntry> = Vec::new();
                files.push(es[i].copied());
                gs.push(KeyGroup { size: es[i].size_bytes, hash: hashes[i].clone(), files });
                assert(key_group_views(gs@) =~= before.push(
                    (es@[i as int].size_bytes, hashes@[i as int]@, seq![es@[i as int]]),
                ));
            },
        }
        i = i + 1;
    }
    assert(ks.take(i as int) =~= ks);
    gs
}

fn keep_big(gs: Vec<KeyGroup>) -> (r: Vec<KeyGroup>)
    ensures
        key_group_views(r@) == big_groups(key_group_views(gs@)),
{
    let ghost gv = key_group_views(gs@);
    let mut rest = gs;
    let n0 = rest.len();
    let mut out: Vec<KeyGroup> = Vec::new();
    let mut k: usize = 0;
    while rest.len() > 0
        invariant
            k + rest@.len() == gv.len(),
            gv.len() <= usize::MAX,
            key_group_views(rest@) == gv.subrange(k as int, gv.len() as int),
            key_group_views(out@) == big_groups(gv.take(k as int)),
        decreases rest.len(),
    {
        assert(gv.take(k + 1).drop_last() =~= gv.take(k as int));
        assert(key_group_views(rest@)[0] == gv[k as int]);
        let ghost rv = key_group_views(rest@);
        let g = rest.remove(0);
        assert(key_group_views(rest@) =~= rv.drop_first());
        let ghost before = key_group_views(out@);
        if g.files.len() >= 2 {
            out.push(g);
            assert(key_group_views(out@) =~= before.push(gv[k as int]));
        }
        k = k + 1;
        assert(key_group_views(rest@) =~= gv.subrange(k as int, gv.len() as int));
    }
    assert(gv.take(k as int) =~= gv);
    out
}

fn take_chars(s: &str, n: usize) -> (r: String)
    ensures
        r@ == s@.take(if n <= s@.len() { n as int } else { s@.len() as int }),
{
    let cs = crate::text::chars_of(s);
    let m = if n <= cs.len() { n } else { cs.len() };
    let mut out: Vec<char> = Vec::new();
    let mut i: usize = 0;
    while i < m
        invariant
            m <= cs@.len(),
            cs@ == s@,
            i <= m,
            out@ == cs@.take(i as int),
        decreases m - i,
    {
        out.push(cs[i]);
        assert(cs@.take(i + 1) =~= cs@.take(i as int).push(cs@[i as int]));
        i = i + 1;
    }
    string_of(out.as_slice())
}

fn report_group(g: &KeyGroup, hard_links: usize) -> (d: DuplicateGroup)
    ensures
        is_group_for(d, key_group_view(*g), hard_links),
{
    let mut paths: Vec<String> = Vec::new();
    let mut i: usize = 0;
    while i < g.files.len()
        invariant
            i <= g.files@.len(),
            paths@.len() == i,
            forall|k: int| 0 <= k < i ==> #[trigger] paths@[k]@ == g.files@[k].path@,
        decreases g.files.len() - i,
    {
        paths.push(g.files[i].path.clone());
        i = i + 1;
    }
    let order = text_order(&paths);
    let mut files: Vec<FileEntry> = Vec::new();
    let mut k: usize = 0;
    while k < order.len()
        invariant
            paths@.len() == g.files@.len(),
            forall|j: int| 0 <= j < g.files@.len() ==> #[trigger] paths@[j]@ == g.files@[j].path@,
            is_index_perm(order@, g.files@.len()),
            adjacent_text(string_views(paths@), order@),
            k <= order@.len(),
            files@.len() == k,
            forall|j: int| 0 <= j < k ==> #[trigger] files@[j] == g.files@[order@[j] as int],
        decreases order.len() - k,
    {
        files.push(g.files[order[k]].copied());
        k = k + 1;
    }
    assert forall|j: int| 0 <= j < files@.len() - 1 implies text_le(#[trigger] files@[j].path@, files@[j + 1].path@) by {
        assert(string_views(paths@)[order@[j] as int] == paths@[order@[j] as int]@);
        assert(string_views(paths@)[order@[j + 1] as int] == paths@[order@[j + 1] as int]@);
    }
    let n = g.files.len() as u64;
    let extra: u64 = if n >= 1 { n - 1 } else { 0 };
    let total = match g.size.checked_mul(extra) {
        Some(v) => v,
        None => u64::MAX,
    };
    let d = DuplicateGroup { group_id: take_chars(g.hash.as_str(), 16), total_size_wasted: total, hard_link_count: hard_links, files };
    assert(d.total_size_wasted == wasted(g.size, g.files@.len()));
    assert(is_index_perm(order@, g.files@.len()));
    assert(d.group_id@ == g.hash@.take(if 16 <= g.hash@.len() { 16 } else { g.hash@.len() as int }));
    assert(d.files@.len() == order@.len());
    assert(forall|k: int| 0 <= k < order@.len() ==> #[trigger] d.files@[k] == g.files@[order@[k] as int]);
    assert(forall|k: int| 0 <= k < order@.len() - 1 ==> text_le(#[trigger] d.files@[k].path@, d.files@[k + 1].path@));
    assert(listed_by_path(d.files@, g.files@));
    d
}

/// The last pass: the files that passed the first 4 KiB comparison, with
/// the hashes of their whole content (`hashes`, one per file), grouped by
/// size and hash; groups of one are dropped, each group lists its files by
/// path, and the groups come most wasted bytes first.
pub fn duplicate_groups(entries: &Vec<FileEntry>, hashes: &Vec<String>, hard_link_count: usize) -> (r: Vec<DuplicateGroup>)
    requires
        hashes@.len() == entries@.len(),
    ensures
        reports_groups(r@, big_groups(key_groups(keyed(entries@, hashes@))), hard_link_count),
{
    let all = gather(entries, hashes);
    let big = keep_big(all);
    let ghost gv = key_group_views(big@);
    let mut keys: Vec<u128> = Vec::new();
    let mut i: usize = 0;
    while i < big.len()
        invariant
            i <= big@.len(),
            gv == key_group_views(big@),
            keys@ == group_waste_keys(gv).take(i as int),
        decreases big.len() - i,
    {
        let n = big[i].files.len() as u64;
        let extra: u64 = if n >= 1 { n - 1 } else { 0 };
        let w = match big[i].size.checked_mul(extra) {
            Some(v) => v,
            None => u64::MAX,
        };
        keys.push((u64::MAX - w) as u128);
        assert(group_waste_keys(gv).take(i + 1) =~= group_waste_keys(gv).take(i as int).push(
            (u64::MAX - wasted(gv[i as int].0, gv[i as int].2.len())) as u128,
        ));
        i = i + 1;
    }
    assert(keys@ =~= group_waste_keys(gv));
    let p = stable_order(&keys);
    let mut out: Vec<DuplicateGroup> = Vec::new();
    let mut k: usize = 0;
    while k < p.len()
        invariant
            gv == key_group_views(big@),
            is_stable_order(group_waste_keys(gv), p@),
            k <= p@.len(),
            out@.len() == k,
            forall|j: int| 0 <= j < k ==> is_group_for(#[trigger] out@[j], gv[p@[j] as int], hard_link_count),
        decreases p.len() - k,
    {
        out.push(report_group(&big[p[k]], hard_link_count));
        k = k + 1;
    }
    out
}

proof fn lemma_big_groups(g: Seq<(u64, Seq<char>, Seq<FileEntry>)>, k: int)
    requires
        0 <= k < big_groups(g).len(),
    ensures
        big_groups(g)[k].2.len() >= 2,
    decreases g.len(),
{
    let d = g.drop_last();
    if g.last().2.len() >= 2 && k == big_groups(d).len() {
    } else {
        lemma_big_groups(d, k);
    }
}

/// The file was found with this size and hash.
pub open spec fn found_with(ks: Seq<(u64, Seq<char>, FileEntry)>, size: u64, h: Seq<char>, f: FileEntry) -> bool {
    exists|i: int| 0 <= i < ks.len() && #[trigger] ks[i] == (size, h, f)
}

/// Every file of every group was found with that group's size and hash.
pub open spec fn members_found(g: Seq<(u64, Seq<char>, Seq<FileEntry>)>, ks: Seq<(u64, Seq<char>, FileEntry)>) -> bool {
    forall|k: int, j: int|
        0 <= k < g.len() && 0 <= j < g[k].2.len() ==> found_with(ks, g[k].0, g[k].1, #[trigger] g[k].2[j])
}

proof fn lemma_key_groups_members(ks: Seq<(u64, Seq<char>, FileEntry)>)
    ensures
        members_found(key_groups(ks), ks),
    decreases ks.len(),
{
    if ks.len() > 0 {
        let t = ks.drop_last();
        lemma_key_groups_members(t);
        let g0 = key_groups(t);
        let g = key_groups(ks);
        let (size, h, e) = ks.last();
        lemma_key_slot(g0, size, h);
        let last = ks.len() - 1;
        assert(ks[last] == (size, h, e));
        assert forall|k: int, j: int| 0 <= k < g.len() && 0 <= j < g[k].2.len() implies found_with(
            ks,
            g[k].0,
            g[k].1,
            #[trigger] g[k].2[j],
        ) by {
            match key_slot(g0, size, h) {
                Some(s) => {
                    if k == s && j == g0[s].2.len() {
                        assert(g[k].2[j] == e);
                        assert(ks[last] == (g[k].0, g[k].1, g[k].2[j]));
                    } else {
                        assert(g[k].2[j] == g0[k].2[j]);
                        assert(found_with(t, g0[k].0, g0[k].1, g0[k].2[j]));
                        let i = choose|i: int| 0 <= i < t.len() && #[trigger] t[i] == (g0[k].0, g0[k].1, g0[k].2[j]);
                        assert(ks[i] == t[i]);
                    }
                },
                None => {
                    if k == g0.len() {
                        assert(g[k].2[j] == e);
                        assert(ks[last] == (g[k].0, g[k].1, g[k].2[j]));
                    } else {
                        assert(g[k] == g0[k]);
                        assert(found_with(t, g0[k].0, g0[k].1, g0[k].2[j]));
                        let i = choose|i: int| 0 <= i < t.len() && #[trigger] t[i] == (g0[k].0, g0[k].1, g0[k].2[j]);
                        assert(ks[i] == t[i]);
                    }
                },
            }
        }
    }
}

proof fn lemma_big_groups_members(g: Seq<(u64, Seq<char>, Seq<FileEntry>)>, ks: Seq<(u64, Seq<char>, FileEntry)>)
    requires
        members_found(g, ks),
    ensures
        members_found(big_groups(g), ks),
    decreases g.len(),
{
    if g.len() > 0 {
        let d = g.drop_last();
        assert forall|k: int, j: int| 0 <= k < d.len() && 0 <= j < d[k].2.len() implies found_with(
            ks,
            d[k].0,
            d[k].1,
            #[trigger] d[k].2[j],
        ) by {
            assert(d[k] == g[k]);
            assert(d[k].2[j] == g[k].2[j]);
        }
        lemma_big_groups_members(d, ks);
        let b = big_groups(g);
        let bd = big_groups(d);
        assert forall|k: int, j: int| 0 <= k < b.len() && 0 <= j < b[k].2.len() implies found_with(
            ks,
            b[k].0,
            b[k].1,
            #[trigger] b[k].2[j],
        ) by {
            if k < bd.len() {
                assert(b[k] == bd[k]);
                assert(b[k].2[j] == bd[k].2[j]);
            } else {
                let last = g.len() - 1;
                assert(b[k] == g[last]);
                assert(b[k].2[j] == g[last].2[j]);
            }
        }
    }
}

/// What a duplicate report groups are copies: each group holds at least two
/// files, and each of its files was found with the group's size and content
/// hash.
pub proof fn law_group_members_share_size_and_hash(ks: Seq<(u64, Seq<char>, FileEntry)>, k: int, j: int)
    requires
        0 <= k < big_groups(key_groups(ks)).len(),
        0 <= j < big_groups(key_groups(ks))[k].2.len(),
    ensures
        big_groups(key_groups(ks))[k].2.len() >= 2,
        found_with(
            ks,
            big_groups(key_groups(ks))[k].0,
            big_groups(key_groups(ks))[k].1,
            big_groups(key_groups(ks))[k].2[j],
        ),
{
    lemma_big_groups(key_groups(ks), k);
    lemma_key_groups_members(ks);
    lemma_big_groups_members(key_groups(ks), ks);
    let g = big_groups(key_groups(ks));
    assert(g[k].2[j] == g[k].2[j]);
}


/// What a reported group wastes: every file of the group has the same size,
/// the group has at least two files, and its wasted bytes are that size times
/// one less than the number of files, saturating at `u64::MAX`.
pub proof fn law_group_waste_is_size_times_extra_copies(
    entries: Seq<FileEntry>,
    hashes: Seq<String>,
    hard_links: usize,
    out: Seq<DuplicateGroup>,
    k: int,
)
    requires
        hashes.len() == entries.len(),
        reports_groups(out, big_groups(key_groups(keyed(entries, hashes))), hard_links),
        0 <= k < out.len(),
    ensures
        out[k].files@.len() >= 2,
        forall|j: int| 0 <= j < out[k].files@.len() ==> #[trigger] out[k].files@[j].size_bytes == out[k].files@[0].size_bytes,
        out[k].total_size_wasted == (if out[k].files@[0].size_bytes * (out[k].files@.len() - 1) > u64::MAX {
            u64::MAX as int
        } else {
            out[k].files@[0].size_bytes * (out[k].files@.len() - 1)
        }),
{
    let ks = keyed(entries, hashes);
    let gs = big_groups(key_groups(ks));
    let p = choose|p: Seq<usize>|
        #![trigger is_stable_order(group_waste_keys(gs), p)]
        is_stable_order(group_waste_keys(gs), p) && out.len() == p.len() && forall|i: int|
            0 <= i < p.len() ==> is_group_for(#[trigger] out[i], gs[p[i] as int], hard_links);
    let gi = p[k] as int;
    assert(is_group_for(out[k], gs[gi], hard_links));
    let g = gs[gi];
    let files = out[k].files@;
    let q = choose|q: Seq<usize>|
        #![trigger is_index_perm(q, g.2.len())]
        is_index_perm(q, g.2.len()) && files.len() == q.len() && (forall|i: int|
            0 <= i < q.len() ==> #[trigger] files[i] == g.2[q[i] as int]) && forall|i: int|
            0 <= i < q.len() - 1 ==> text_le(#[trigger] files[i].path@, files[i + 1].path@);
    lemma_big_groups(key_groups(ks), gi);
    assert forall|j: int| 0 <= j < files.len() implies #[trigger] files[j].size_bytes == g.0 by {
        let qj = q[j] as int;
        assert(files[j] == g.2[qj]);
        law_group_members_share_size_and_hash(ks, gi, qj);
        let i = choose|i: int| 0 <= i < ks.len() && #[trigger] ks[i] == (g.0, g.1, g.2[qj]);
        assert(ks[i].0 == entries[i].size_bytes && ks[i].2 == entries[i]);
    }
    assert(files[0].size_bytes == g.0);
}

} // verus!
