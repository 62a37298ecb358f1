//! Stable ordering of records by a numeric key.
//!
//! The library sorts reports (risk items, zombie files, hotspots, directories)
//! with a stable sort on a key. Here the order is computed as a permutation of
//! indices: ascending by key, and by original position among equal keys, which
//! is exactly what a stable sort produces.
use vstd::prelude::*;

verus! {

/// `p` lists each of `0..n` exactly once.
pub open spec fn is_index_perm(p: Seq<usize>, n: nat) -> bool {
    &&& p.len() == n
    &&& forall|k: int| 0 <= k < p.len() ==> #[trigger] p[k] < n
    &&& forall|a: int, b: int| 0 <= a < b < p.len() ==> p[a] != p[b]
}

/// Position `i` comes before position `j` in a stable ascending sort by `keys`.
pub open spec fn stable_before(keys: Seq<u128>, i: int, j: int) -> bool {
    keys[i] < keys[j] || (keys[i] == keys[j] && i < j)
}

/// `p` is the order in which a stable ascending sort by `keys` lists the positions.
pub open spec fn is_stable_order(keys: Seq<u128>, p: Seq<usize>) -> bool {
    &&& is_index_perm(p, keys.len())
    &&& forall|a: int, b: int|
        0 <= a < b < p.len() ==> stable_before(keys, #[trigger] p[a] as int, #[trigger] p[b] as int)
}

/// The positions `0..keys.len()` in stable ascending order of `keys`.
pub fn stable_order(keys: &Vec<u128>) -> (p: Vec<usize>)
    ensures
        is_stable_order(keys@, p@),
{
    let n = keys.len();
    let mut out: Vec<usize> = Vec::new();
    let mut i: usize = 0;
    while i < n
        invariant
            n == keys@.len(),
            i <= n,
            out@.len() == i,
            forall|k: int| 0 <= k < out@.len() ==> #[trigger] out@[k] < i,
            forall|a: int, b: int| 0 <= a < b < out@.len() ==> out@[a] != out@[b],
            forall|a: int, b: int|
                0 <= a < b < out@.len() ==> stable_before(keys@, #[trigger] out@[a] as int, #[trigger] out@[b] as int),
        decreases n - i,
    {
        let key = keys[i];
        let mut pos: usize = 0;
        while pos < out.len() && keys[out[pos]] <= key
            invariant
                n == keys@.len(),
                i < n,
                key == keys@[i as int],
                pos <= out@.len(),
                forall|k: int| 0 <= k < out@.len() ==> #[trigger] out@[k] < i,
                forall|k: int| 0 <= k < pos ==> keys@[#[trigger] out@[k] as int] <= key,
            decreases out.len() - pos,
        {
            pos = pos + 1;
        }
        let ghost old_out = out@;
        out.insert(pos, i);
        proof {
            assert(out@ == old_out.insert(pos as int, i));
            assert forall|a: int, b: int| 0 <= a < b < out@.len() implies stable_before(
                keys@,
                #[trigger] out@[a] as int,
                #[trigger] out@[b] as int,
            ) by {
                if b < pos {
                    assert(out@[a] == old_out[a] && out@[b] == old_out[b]);
                } else if b == pos {
                    assert(out@[a] == old_out[a]);
                    assert(keys@[old_out[a] as int] <= key);
                } else if a < pos {
                    assert(out@[a] == old_out[a] && out@[b] == old_out[b - 1]);
                    if a < b - 1 {
                        assert(stable_before(keys@, old_out[a] as int, old_out[b - 1] as int));
                    }
                } else if a == pos {
                    assert(out@[b] == old_out[b - 1]);
                    assert(pos < old_out.len());
                    assert(keys@[old_out[pos as int] as int] > key);
                    if b - 1 > pos {
                        assert(stable_before(keys@, old_out[pos as int] as int, old_out[b - 1] as int));
                    }
                } else {
                    assert(out@[a] == old_out[a - 1] && out@[b] == old_out[b - 1]);
                }
            }
        }
        i = i + 1;
    }
    out
}

/// Text order by character codes, as strings compare.
pub open spec fn text_le(a: Seq<char>, b: Seq<char>) -> bool
    decreases a.len(),
{
    if a.len() == 0 {
        true
    } else if b.len() == 0 {
        false
    } else if a[0] != b[0] {
        (a[0] as u32) < (b[0] as u32)
    } else {
        text_le(a.drop_first(), b.drop_first())
    }
}

pub proof fn lemma_text_le_total(a: Seq<char>, b: Seq<char>)
    ensures
        text_le(a, b) || text_le(b, a),
    decreases a.len(),
{
    if a.len() > 0 && b.len() > 0 && a[0] == b[0] {
        lemma_text_le_total(a.drop_first(), b.drop_first());
    } else if a.len() > 0 && b.len() > 0 {
        let x = a[0];
        let y = b[0];
        vstd::utf8::char_u32_cast(x, x as u32);
        vstd::utf8::char_u32_cast(y, y as u32);
    }
}

/// Whether `a` sorts before or equal to `b`.
pub fn text_less_eq(a: &str, b: &str) -> (r: bool)
    ensures
        r == text_le(a@, b@),
{
    let av = crate::text::chars_of(a);
    let bv = crate::text::chars_of(b);
    let mut i: usize = 0;
    assert(av@.skip(0) =~= av@ && bv@.skip(0) =~= bv@);
    while i < av.len() && i < bv.len()
        invariant
            av@ == a@,
            bv@ == b@,
            i <= av@.len(),
            i <= bv@.len(),
            text_le(av@, bv@) == text_le(av@.skip(i as int), bv@.skip(i as int)),
        decreases av.len() - i,
    {
        let x = av[i];
        let y = bv[i];
        assert(av@.skip(i as int)[0] == x && bv@.skip(i as int)[0] == y);
        if x != y {
            let xc = x as u32;
            let yc = y as u32;
            assert(text_le(av@.skip(i as int), bv@.skip(i as int)) == (xc < yc));
            return xc < yc;
        }
        assert(av@.skip(i as int).drop_first() =~= av@.skip(i + 1));
        assert(bv@.skip(i as int).drop_first() =~= bv@.skip(i + 1));
        i = i + 1;
    }
    i == av.len()
}

/// The character views of a list of strings.
pub open spec fn string_views(v: Seq<String>) -> Seq<Seq<char>> {
    v.map_values(|s: String| s@)
}

/// Consecutive positions of `p` list keys in text order.
pub open spec fn adjacent_text(keys: Seq<Seq<char>>, p: Seq<usize>) -> bool {
    forall|k: int| 0 <= k < p.len() - 1 ==> text_le(keys[#[trigger] p[k] as int], keys[p[k + 1] as int])
}

proof fn lemma_insert_text(keys: Seq<Seq<char>>, order: Seq<usize>, pos: int, i: usize)
    requires
        adjacent_text(keys, order),
        0 <= pos <= order.len(),
        pos > 0 ==> text_le(keys[order[pos - 1] as int], keys[i as int]),
        pos < order.len() ==> text_le(keys[i as int], keys[order[pos] as int]),
    ensures
        adjacent_text(keys, order.insert(pos, i)),
{
    let r = order.insert(pos, i);
    assert forall|k: int| 0 <= k < r.len() - 1 implies text_le(keys[#[trigger] r[k] as int], keys[r[k + 1] as int]) by {
        if k + 1 < pos {
            assert(r[k] == order[k] && r[k + 1] == order[k + 1]);
        } else if k + 1 == pos {
            assert(r[k] == order[k]);
        } else if k == pos {
            assert(r[k + 1] == order[k]);
        } else {
            assert(r[k] == order[k - 1] && r[k + 1] == order[k]);
        }
    }
}

/// The positions of `keys`, each once, in text order of the keys.
pub fn text_order(keys: &Vec<String>) -> (p: Vec<usize>)
    ensures
        is_index_perm(p@, keys@.len()),
        adjacent_text(string_views(keys@), p@),
{
    let ghost kv = string_views(keys@);
    let n = keys.len();
    let mut order: Vec<usize> = Vec::new();
    let mut i: usize = 0;
    while i < n
        invariant
            n == keys@.len(),
            kv == string_views(keys@),
            i <= n,
            order@.len() == i,
            forall|k: int| 0 <= k < order@.len() ==> #[trigger] order@[k] < i,
            forall|a: int, b: int| 0 <= a < b < order@.len() ==> order@[a] != order@[b],
            adjacent_text(kv, order@),
        decreases n - i,
    {
        let mut pos: usize = 0;
        while pos < order.len() && text_less_eq(keys[order[pos]].as_str(), keys[i].as_str())
            invariant
                n == keys@.len(),
                kv == string_views(keys@),
                i < n,
                pos <= order@.len(),
                forall|k: int| 0 <= k < order@.len() ==> #[trigger] order@[k] < i,
                pos > 0 ==> text_le(kv[order@[pos - 1] as int], kv[i as int]),
            decreases order.len() - pos,
        {
            pos = pos + 1;
        }
        proof {
            if pos < order@.len() {
                lemma_text_le_total(kv[order@[pos as int] as int], kv[i as int]);
            }
            lemma_insert_text(kv, order@, pos as int, i);
        }
        let ghost old_order = order@;
        order.insert(pos, i);
        assert(order@ == old_order.insert(pos as int, i));
        i = i + 1;
    }
    order
}

} // verus!
