//! The state of the local models: whether enough snapshots were collected to
//! fine-tune them, and what the status says. The quality figures reported
//! with it are fractions and are filled in by the caller.
use vstd::prelude::*;
use crate::text::{concat, concat3, decimal, owned, u64_to_string};

verus! {

/// The snapshots a drive needs before the models can be fine-tuned on it.
pub const MIN_FINE_TUNE_SNAPSHOTS: usize = 60;

/// Whether `snapshot_count` snapshots are enough to fine-tune.
pub fn can_fine_tune(snapshot_count: usize) -> (r: bool)
    ensures
        r == (snapshot_count >= MIN_FINE_TUNE_SNAPSHOTS),
{
    snapshot_count >= MIN_FINE_TUNE_SNAPSHOTS
}

/// The refusal of a fine-tune request with too few snapshots.
pub open spec fn too_few_message(snapshot_count: nat) -> Seq<char> {
    "Fine-tune requires at least 60 snapshots; found "@ + decimal(snapshot_count)
}

/// A fine-tune request is accepted with at least the minimum of snapshots
/// and refused, with the count found, otherwise.
pub fn fine_tune_check(snapshot_count: usize) -> (r: Result<(), String>)
    ensures
        snapshot_count >= MIN_FINE_TUNE_SNAPSHOTS ==> r is Ok,
        snapshot_count < MIN_FINE_TUNE_SNAPSHOTS ==> (r matches Err(e) && e@ == too_few_message(
            snapshot_count as nat,
        )),
{
    if snapshot_count < MIN_FINE_TUNE_SNAPSHOTS {
        let found = u64_to_string(snapshot_count as u64);
        Err(concat("Fine-tune requires at least 60 snapshots; found ", found.as_str()))
    } else {
        Ok(())
    }
}

/// The status message for a drive with `snapshot_count` snapshots.
pub open spec fn status_message(snapshot_count: nat, fine_tuned: bool) -> Seq<char> {
    if fine_tuned && snapshot_count >= 60 {
        "Local fine-tune completed with snapshot-derived calibration."@
    } else if snapshot_count >= 60 {
        "Enough snapshots are available for local fine-tuning."@
    } else {
        "Collect "@ + decimal((60 - snapshot_count) as nat) + " more snapshot(s) before fine-tuning."@
    }
}

/// The message of the model status: the fine-tune is reported done where
/// it was run with enough snapshots, else whether enough are available, or
/// how many more are needed.
pub fn model_status_message(snapshot_count: usize, fine_tuned: bool) -> (r: String)
    ensures
        r@ == status_message(snapshot_count as nat, fine_tuned),
{
    let can = can_fine_tune(snapshot_count);
    if fine_tuned && can {
        owned("Local fine-tune completed with snapshot-derived calibration.")
    } else if can {
        owned("Enough snapshots are available for local fine-tuning.")
    } else {
        let missing = u64_to_string((MIN_FINE_TUNE_SNAPSHOTS - snapshot_count) as u64);
        concat3("Collect ", missing.as_str(), " more snapshot(s) before fine-tuning.")
    }
}

} // verus!
