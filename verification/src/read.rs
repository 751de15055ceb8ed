//! Reading from the cache where readers compete, as a state machine.
//!
//! A reader first looks without waiting for anyone. If it misses, it takes
//! the lock of its key, so that of all readers that miss the same key only
//! one at a time goes on, and looks again: the reader before it may have
//! filled the entry. Only if it misses again does it recompute the value and
//! install it.
//!
//! The caller looks, locks and computes; after each step it reports what
//! happened as a [`ReadEvent`], and [`Read::handle`] answers with the next
//! step.

use vstd::prelude::*;

verus! {

/// How far a read has come.
#[derive(Clone, Copy, Debug, PartialEq, Eq, Structural)]
pub enum ReadState {
    /// Nothing has been done yet.
    Start,
    /// The reader is looking for the first time, holding no lock of a key.
    FirstLook,
    /// The reader waits for the lock of its key.
    AwaitKey,
    /// The reader holds the lock of its key and is looking again.
    SecondLook,
    /// The reader holds the lock of its key and is recomputing the value.
    Computing,
    /// The reader holds the lock of its key and is installing the value.
    Installing,
    /// The read is over, and the lock of the key is free again.
    Finished,
}

/// What the caller reports.
#[derive(Clone, Copy, Debug, PartialEq, Eq, Structural)]
pub enum ReadEvent {
    /// The read begins.
    Started,
    /// A look found an entry that is good.
    Hit,
    /// A look found no entry, or one that is expired.
    Miss,
    /// The lock of the key has been acquired.
    KeyLocked,
    /// The recomputation has given a value.
    Computed,
    /// The recomputation has failed.
    Failed,
    /// The value is in the cache and its record in the backing store.
    Installed,
    /// The value is in the cache, but its record could not be written.
    NotWritten,
    /// A lock was found poisoned.
    Poisoned,
}

/// What the caller is to do next.
#[derive(Clone, Copy, Debug, PartialEq, Eq, Structural)]
pub enum ReadAction {
    /// Look for a good entry under the key, sharing the entries with other
    /// readers.
    LookUp,
    /// Acquire the lock of the key.
    LockKey,
    /// Call the function that recomputes the value.
    Recompute,
    /// Put the value into the cache and write its record.
    Install,
    /// Return a copy of the entry found.
    ReturnCached,
    /// Return the value recomputed.
    ReturnComputed,
    /// Return the failure met.
    ReturnFailure,
}

/// The events that a read in `state` can be told of.
pub open spec fn read_accepts(state: ReadState, event: ReadEvent) -> bool {
    match state {
        ReadState::Start => event == ReadEvent::Started,
        ReadState::FirstLook => event == ReadEvent::Hit || event == ReadEvent::Miss || event
            == ReadEvent::Poisoned,
        ReadState::AwaitKey => event == ReadEvent::KeyLocked || event == ReadEvent::Poisoned,
        ReadState::SecondLook => event == ReadEvent::Hit || event == ReadEvent::Miss || event
            == ReadEvent::Poisoned,
        ReadState::Computing => event == ReadEvent::Computed || event == ReadEvent::Failed,
        ReadState::Installing => event == ReadEvent::Installed || event == ReadEvent::NotWritten
            || event == ReadEvent::Poisoned,
        ReadState::Finished => false,
    }
}

/// The state that follows `state` on `event`.
pub open spec fn read_next_state(state: ReadState, event: ReadEvent) -> ReadState {
    match (state, event) {
        (ReadState::Start, ReadEvent::Started) => ReadState::FirstLook,
        (ReadState::FirstLook, ReadEvent::Miss) => ReadState::AwaitKey,
        (ReadState::AwaitKey, ReadEvent::KeyLocked) => ReadState::SecondLook,
        (ReadState::SecondLook, ReadEvent::Miss) => ReadState::Computing,
        (ReadState::Computing, ReadEvent::Computed) => ReadState::Installing,
        _ => ReadState::Finished,
    }
}

/// The answer to `event` in `state`.
pub open spec fn read_next_action(state: ReadState, event: ReadEvent) -> ReadAction {
    match (state, event) {
        (ReadState::Start, ReadEvent::Started) => ReadAction::LookUp,
        (ReadState::FirstLook, ReadEvent::Miss) => ReadAction::LockKey,
        (ReadState::AwaitKey, ReadEvent::KeyLocked) => ReadAction::LookUp,
        (ReadState::SecondLook, ReadEvent::Miss) => ReadAction::Recompute,
        (ReadState::Computing, ReadEvent::Computed) => ReadAction::Install,
        (ReadState::Installing, ReadEvent::Installed) => ReadAction::ReturnComputed,
        (_, ReadEvent::Hit) => ReadAction::ReturnCached,
        _ => ReadAction::ReturnFailure,
    }
}

/// Whether a reader in `state` holds the lock of its key.
pub open spec fn holds_key(state: ReadState) -> bool {
    state == ReadState::SecondLook || state == ReadState::Computing || state
        == ReadState::Installing
}

/// One read.
pub struct Read {
    pub state: ReadState,
}

impl Read {
    /// A read that has not begun.
    pub fn new() -> (read: Self)
        ensures
            read.state == ReadState::Start,
    {
        Read { state: ReadState::Start }
    }

    /// Tells whether `event` is one that the read can be told of now.
    pub fn can_handle(&self, event: ReadEvent) -> (ok: bool)
        ensures
            ok == read_accepts(self.state, event),
    {
        match self.state {
            ReadState::Start => event == ReadEvent::Started,
            ReadState::FirstLook | ReadState::SecondLook => event == ReadEvent::Hit || event
                == ReadEvent::Miss || event == ReadEvent::Poisoned,
            ReadState::AwaitKey => event == ReadEvent::KeyLocked || event == ReadEvent::Poisoned,
            ReadState::Computing => event == ReadEvent::Computed || event == ReadEvent::Failed,
            ReadState::Installing => event == ReadEvent::Installed || event
                == ReadEvent::NotWritten || event == ReadEvent::Poisoned,
            ReadState::Finished => false,
        }
    }

    /// Takes note of `event` and says what to do next.
    pub fn handle(&mut self, event: ReadEvent) -> (action: ReadAction)
        requires
            read_accepts(old(self).state, event),
        ensures
            final(self).state == read_next_state(old(self).state, event),
            action == read_next_action(old(self).state, event),
    {
        let (state, action) = match (self.state, event) {
            (ReadState::Start, ReadEvent::Started) => (ReadState::FirstLook, ReadAction::LookUp),
            (ReadState::FirstLook, ReadEvent::Miss) => (ReadState::AwaitKey, ReadAction::LockKey),
            (ReadState::AwaitKey, ReadEvent::KeyLocked) => (
                ReadState::SecondLook,
                ReadAction::LookUp,
            ),
            (ReadState::SecondLook, ReadEvent::Miss) => (
                ReadState::Computing,
                ReadAction::Recompute,
            ),
            (ReadState::Computing, ReadEvent::Computed) => (
                ReadState::Installing,
                ReadAction::Install,
            ),
            (ReadState::Installing, ReadEvent::Installed) => (
                ReadState::Finished,
                ReadAction::ReturnComputed,
            ),
            (_, ReadEvent::Hit) => (ReadState::Finished, ReadAction::ReturnCached),
            _ => (ReadState::Finished, ReadAction::ReturnFailure),
        };
        self.state = state;
        action
    }
}

/// The value is recomputed only by a reader that holds the lock of its key
/// and has looked again after taking it, and missed. A reader that finds a
/// good entry never recomputes, and none recomputes twice: after the
/// recomputation the reader installs or returns.
pub proof fn law_recompute_under_key_lock(state: ReadState, event: ReadEvent)
    requires
        read_accepts(state, event),
    ensures
        read_next_action(state, event) == ReadAction::Recompute <==> (state
            == ReadState::SecondLook && event == ReadEvent::Miss),
        read_next_action(state, event) == ReadAction::Recompute ==> holds_key(state) && holds_key(
            read_next_state(state, event),
        ),
        event == ReadEvent::Hit ==> read_next_action(state, event) == ReadAction::ReturnCached
            && read_next_state(state, event) == ReadState::Finished,
        state == ReadState::Computing ==> read_next_action(state, event) != ReadAction::Recompute
            && read_next_state(state, event) != ReadState::Computing,
        read_next_action(state, event) == ReadAction::Install ==> holds_key(state),
{
}

/// A failure of the recomputation is returned and nothing is installed; a
/// record that could not be written is reported, with the value left in the
/// cache.
pub proof fn law_failures_surface(state: ReadState, event: ReadEvent)
    requires
        read_accepts(state, event),
        event == ReadEvent::Failed || event == ReadEvent::NotWritten || event
            == ReadEvent::Poisoned,
    ensures
        read_next_action(state, event) == ReadAction::ReturnFailure,
        read_next_state(state, event) == ReadState::Finished,
{
}

} // verus!
