//! File fragmentation estimates: how many clusters a file spans, how many
//! extents it is taken to have, and the two counts its fragmentation ratio
//! is the quotient of. The ratio itself, and the averages of a report, are
//! fractions computed by the caller.
use vstd::prelude::*;
use crate::text::{has_sub, str_contains};

verus! {

/// The cluster size assumed where the file system's is not known.
pub const DEFAULT_CLUSTER_SIZE: u64 = 4096;

/// The number of files a drive analysis samples by default.
pub const DEFAULT_SAMPLE_LIMIT: usize = 500;

/// The clusters a file of `size` bytes spans: at least one.
pub open spec fn clusters_of(size: nat, cluster: nat) -> nat {
    let c: int = if cluster == 0 { 1 } else { cluster as int };
    let n: int = (size + c - 1) / c;
    if n <= 0 { 1 } else { n as nat }
}

/// The number of clusters of `cluster_size` bytes (at least one byte) that
/// `file_size` bytes fill, and never fewer than one.
pub fn cluster_count(file_size: u64, cluster_size: u64) -> (r: u64)
    ensures
        r == clusters_of(file_size as nat, cluster_size as nat),
{
    let c: u64 = if cluster_size == 0 { 1 } else { cluster_size };
    let q: u64 = file_size / c;
    let rem: u64 = file_size % c;
    assert(rem != 0 ==> q < 0xffff_ffff_ffff_ffff) by (nonlinear_arith)
        requires
            c >= 1,
            q == file_size / c,
            rem == file_size % c,
            file_size <= 0xffff_ffff_ffff_ffff,
    {
        if c == 1 {
            assert(rem == 0);
        } else {
            assert(q * c <= file_size);
        }
    }
    let n: u64 = q + if rem == 0 { 0 } else { 1 };
    assert(n == (file_size + c - 1) / (c as int)) by (nonlinear_arith)
        requires
            c >= 1,
            q == file_size / c,
            rem == file_size % c,
            n == q + if rem == 0 { 0int } else { 1int },
    {
    }
    if n == 0 { 1 } else { n }
}

/// The extents a file is taken to have when the platform does not report
/// them: none for an empty file; else one, and a second for a file of more
/// than 1024 clusters whose path names it `fragmented`.
pub open spec fn extent_estimate(path: Seq<char>, size: nat) -> nat {
    if size == 0 {
        0
    } else if clusters_of(size, DEFAULT_CLUSTER_SIZE as nat) > 1024 && has_sub(path, "fragmented"@) {
        2
    } else {
        1
    }
}

/// The estimated extent count of the file at `path` of `size_bytes` bytes.
pub fn estimate_extent_count(path: &str, size_bytes: u64) -> (r: u64)
    ensures
        r == extent_estimate(path@, size_bytes as nat),
{
    if size_bytes == 0 {
        return 0;
    }
    let clusters = cluster_count(size_bytes, DEFAULT_CLUSTER_SIZE);
    if clusters > 1024 && str_contains(path, "fragmented") {
        2
    } else {
        1
    }
}

/// The fragmentation ratio of a file is the extents beyond the first over
/// its clusters, clamped to 1; it is 0 for an empty file or one extent.
/// This gives the two counts, or `None` where the ratio is 0.
pub fn fragmentation_counts(extent_count: u64, file_size: u64, cluster_size: u64) -> (r: Option<(u64, u64)>)
    ensures
        (file_size == 0 || extent_count <= 1) ==> r is None,
        !(file_size == 0 || extent_count <= 1) ==> r == Some(
            ((extent_count - 1) as u64, clusters_of(file_size as nat, cluster_size as nat) as u64),
        ),
        r matches Some(p) ==> p.1 >= 1,
{
    if file_size == 0 || extent_count <= 1 {
        return None;
    }
    Some((extent_count - 1, cluster_count(file_size, cluster_size)))
}

} // verus!
