//! Alarm slots and the handles that name them.

use vstd::prelude::*;

verus! {

/// Number of alarm slots, and so the largest timer pool that can be installed.
pub const MAX_SUPPORTED_ALARM_COUNT: usize = 7;

/// One slot of the alarm table.
///
/// A slot starts out free and without a callback. Once claimed it stays
/// claimed; only a claimed slot carries a callback.
#[derive(Debug)]
pub struct AlarmState<C> {
    /// The wake-up action to run when the slot's timer fires, once registered.
    pub callback: Option<C>,
    /// Whether the slot has been handed out.
    pub allocated: bool,
}

impl<C: Copy> Clone for AlarmState<C> {
    fn clone(&self) -> (copy: Self)
        ensures
            copy == *self,
    {
        *self
    }
}

impl<C: Copy> Copy for AlarmState<C> {

}

impl<C> AlarmState<C> {
    /// A free slot with no callback.
    pub fn new() -> (slot: Self)
        ensures
            slot == Self::free(),
    {
        AlarmState { callback: None, allocated: false }
    }

    /// The free slot: not claimed, no callback.
    pub open spec fn free() -> Self {
        AlarmState { callback: None, allocated: false }
    }

    /// The invariant of a single slot: a callback is present only in a claimed slot.
    pub open spec fn wf(self) -> bool {
        self.callback is Some ==> self.allocated
    }
}

/// Names one slot of the alarm table.
///
/// A handle is a lookup key and nothing more: it owns nothing, and copying
/// it copies the name.
#[derive(Clone, Copy, Debug, PartialEq, Eq, Structural)]
pub struct AlarmHandle {
    id: u8,
}

impl AlarmHandle {
    /// The index of the slot that the handle names.
    pub closed spec fn slot(self) -> int {
        self.id as int
    }

    /// The handle of slot `id`.
    pub fn new(id: u8) -> (handle: Self)
        ensures
            handle.slot() == id,
    {
        AlarmHandle { id }
    }

    /// The index of the slot that the handle names.
    pub fn id(&self) -> (id: u8)
        ensures
            id == self.slot(),
    {
        self.id
    }

    /// Two handles that name the same slot are the same handle.
    pub proof fn lemma_slot_is_identity(self, other: Self)
        ensures
            self.slot() == other.slot() <==> self == other,
    {
    }
}

} // verus!
