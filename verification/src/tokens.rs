//! The cancellation slot of a kind of background scan: at most one scan of
//! the kind is active; starting one cancels the one before, a scan that ends
//! clears the slot only while it is still the active one, and a cancel
//! request stops whatever is active.
use vstd::prelude::*;

verus! {

/// The slot of one kind of scan. Tokens are numbered in the order they are
/// issued; the caller keeps the cancellation flag that each number stands for.
#[derive(Debug)]
pub struct CancelSlot {
    active: Option<u64>,
    issued: u64,
}

/// The slot as plain values: the active token and the last one issued.
pub type SlotView = (Option<u64>, u64);

/// Starting a scan: a fresh token becomes the active one.
pub open spec fn begun(s: SlotView) -> SlotView {
    (Some((s.1 + 1) as u64), (s.1 + 1) as u64)
}

/// A scan ends: the slot is cleared if its token is still the active one.
pub open spec fn finished(s: SlotView, token: u64) -> SlotView {
    if s.0 == Some(token) {
        (None, s.1)
    } else {
        s
    }
}

/// A cancel request: the slot is emptied.
pub open spec fn cancelled(s: SlotView) -> SlotView {
    (None, s.1)
}

/// Every token that was active was issued.
pub open spec fn slot_wf(s: SlotView) -> bool {
    s.0 matches Some(t) ==> 0 < t <= s.1
}

impl View for CancelSlot {
    type V = SlotView;

    closed spec fn view(&self) -> SlotView {
        (self.active, self.issued)
    }
}

impl CancelSlot {
    /// An empty slot.
    pub fn new() -> (r: CancelSlot)
        ensures
            r@ == (None::<u64>, 0u64),
    {
        CancelSlot { active: None, issued: 0 }
    }

    /// Start a scan: returns its token, and the token of the scan it
    /// replaces, which the caller cancels.
    pub fn begin(&mut self) -> (r: (u64, Option<u64>))
        requires
            old(self)@.1 < u64::MAX,
        ensures
            final(self)@ == begun(old(self)@),
            r.0 == final(self)@.1,
            r.1 == old(self)@.0,
    {
        let previous = self.active;
        self.issued = self.issued + 1;
        self.active = Some(self.issued);
        (self.issued, previous)
    }

    /// A scan with this token ended.
    pub fn finish(&mut self, token: u64)
        ensures
            final(self)@ == finished(old(self)@, token),
    {
        if self.active == Some(token) {
            self.active = None;
        }
    }

    /// Cancel the active scan: returns its token, which the caller signals.
    pub fn cancel(&mut self) -> (r: Option<u64>)
        ensures
            r == old(self)@.0,
            final(self)@ == cancelled(old(self)@),
    {
        let t = self.active;
        self.active = None;
        t
    }

    /// The active token.
    pub fn active(&self) -> (r: Option<u64>)
        ensures
            r == self@.0,
    {
        self.active
    }
}

/// Each operation keeps every active token an issued one.
pub proof fn law_slot_tokens_issued(s: SlotView, token: u64)
    requires
        slot_wf(s),
        s.1 < u64::MAX,
    ensures
        slot_wf(begun(s)),
        slot_wf(finished(s, token)),
        slot_wf(cancelled(s)),
{
}

/// Starting a scan hands back the scan it replaces, so that one is cancelled,
/// and the new scan is the active one.
pub proof fn law_begin_replaces_active(s: SlotView)
    requires
        slot_wf(s),
        s.1 < u64::MAX,
    ensures
        begun(s).0 == Some(begun(s).1),
        s.0 != begun(s).0,
{
}

/// A scan that was replaced cannot clear the slot of the scan that replaced
/// it when it ends.
pub proof fn law_stale_finish_keeps_newer(s: SlotView, old_token: u64)
    requires
        slot_wf(s),
        s.1 < u64::MAX,
        old_token <= s.1,
    ensures
        finished(begun(s), old_token) == begun(s),
{
}

/// A scan that ends while active leaves the slot empty, so a later cancel
/// stops nothing.
pub proof fn law_finish_then_cancel_is_empty(s: SlotView)
    requires
        slot_wf(s),
        s.1 < u64::MAX,
    ensures
        finished(begun(s), begun(s).1).0 is None,
        cancelled(finished(begun(s), begun(s).1)).0 is None,
{
}

} // verus!
