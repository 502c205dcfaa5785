//! The order in which the sync engine visits the heights of the data
//! availability layer: first every height from where it left off up to the
//! height that was current when it started, then each new height as it is
//! announced, one after another without a gap.

use vstd::prelude::*;

verus! {

/// Where the sync engine stands.
#[derive(Clone, Copy, Debug, PartialEq, Eq, Structural)]
pub enum SyncState {
    /// Nothing has been loaded yet.
    Init,
    /// Catching up: `current_height` is being processed, `end_height` is
    /// the last height of the catch-up.
    Historical { current_height: u64, end_height: u64 },
    /// Following the announcements: `expected_height` is the only height
    /// that may come next.
    Live { expected_height: u64 },
    /// Stopped for good.
    Fatal,
}

/// What happened outside the sync engine.
#[derive(Clone, Copy, Debug, PartialEq, Eq, Structural)]
pub enum SyncEvent {
    /// The first announced height was received and the height to resume
    /// from was loaded.
    Started { start_height: u64, end_height: u64 },
    /// The height that was handed out for processing was processed.
    HeightProcessed,
    /// A new height was announced.
    HeightReceived { height: u64 },
    /// Processing failed, or the announcements ended or were missed.
    Failed,
}

/// Why the sync engine stopped.
#[derive(Clone, Copy, Debug, PartialEq, Eq, Structural)]
pub enum SyncStop {
    /// An announced height was not the one that had to come next.
    NonSequential { expected: u64, got: u64 },
    /// The heights ran out of the range of 64 bits.
    HeightOverflow,
    /// The event reported a failure.
    Failed,
    /// The event cannot happen in the state the engine was in.
    Unexpected,
    /// The engine had stopped before.
    Stopped,
}

/// What the loop around the sync engine has to do next.
#[derive(Clone, Copy, Debug, PartialEq, Eq, Structural)]
pub enum SyncAction {
    /// Fetch what the layer holds at `height` and process it.
    Process { height: u64, is_real_time: bool },
    /// Wait for the next announcement.
    AwaitHeight,
    /// End the task with an error.
    Stop { reason: SyncStop },
}

/// The state that follows `state` on `event`, and what is to be done then.
pub open spec fn transition(state: SyncState, event: SyncEvent) -> (SyncState, SyncAction) {
    match (state, event) {
        (SyncState::Fatal, _) => (SyncState::Fatal, SyncAction::Stop { reason: SyncStop::Stopped }),
        (_, SyncEvent::Failed) => (SyncState::Fatal, SyncAction::Stop { reason: SyncStop::Failed }),
        (SyncState::Init, SyncEvent::Started { start_height, end_height }) => {
            if start_height <= end_height {
                (
                    SyncState::Historical { current_height: start_height, end_height },
                    SyncAction::Process { height: start_height, is_real_time: false },
                )
            } else {
                (SyncState::Live { expected_height: start_height }, SyncAction::AwaitHeight)
            }
        },
        (SyncState::Historical { current_height, end_height }, SyncEvent::HeightProcessed) => {
            if current_height == u64::MAX {
                (SyncState::Fatal, SyncAction::Stop { reason: SyncStop::HeightOverflow })
            } else if current_height < end_height {
                (
                    SyncState::Historical {
                        current_height: (current_height + 1) as u64,
                        end_height,
                    },
                    SyncAction::Process {
                        height: (current_height + 1) as u64,
                        is_real_time: false,
                    },
                )
            } else {
                (
                    SyncState::Live { expected_height: (current_height + 1) as u64 },
                    SyncAction::AwaitHeight,
                )
            }
        },
        (SyncState::Live { expected_height }, SyncEvent::HeightReceived { height }) => {
            if height == expected_height {
                (state, SyncAction::Process { height, is_real_time: true })
            } else {
                (
                    SyncState::Fatal,
                    SyncAction::Stop {
                        reason: SyncStop::NonSequential { expected: expected_height, got: height },
                    },
                )
            }
        },
        (SyncState::Live { expected_height }, SyncEvent::HeightProcessed) => {
            if expected_height == u64::MAX {
                (SyncState::Fatal, SyncAction::Stop { reason: SyncStop::HeightOverflow })
            } else {
                (
                    SyncState::Live { expected_height: (expected_height + 1) as u64 },
                    SyncAction::AwaitHeight,
                )
            }
        },
        _ => (SyncState::Fatal, SyncAction::Stop { reason: SyncStop::Unexpected }),
    }
}

impl SyncState {
    /// The state before anything was loaded.
    pub fn new() -> (state: SyncState)
        ensures
            state == SyncState::Init,
    {
        SyncState::Init
    }

    /// Whether the engine has stopped for good.
    pub fn is_fatal(&self) -> (out: bool)
        ensures
            out == (*self is Fatal),
    {
        match self {
            SyncState::Fatal => true,
            _ => false,
        }
    }

    /// Takes `event` and says what is to be done next.
    pub fn on_event(&mut self, event: SyncEvent) -> (action: SyncAction)
        ensures
            (*final(self), action) == transition(*old(self), event),
    {
        let (next, action) = match (*self, event) {
            (SyncState::Fatal, _) => (
                SyncState::Fatal,
                SyncAction::Stop { reason: SyncStop::Stopped },
            ),
            (_, SyncEvent::Failed) => (
                SyncState::Fatal,
                SyncAction::Stop { reason: SyncStop::Failed },
            ),
            (SyncState::Init, SyncEvent::Started { start_height, end_height }) => {
                if start_height <= end_height {
                    (
                        SyncState::Historical { current_height: start_height, end_height },
                        SyncAction::Process { height: start_height, is_real_time: false },
                    )
                } else {
                    (SyncState::Live { expected_height: start_height }, SyncAction::AwaitHeight)
                }
            },
            (SyncState::Historical { current_height, end_height }, SyncEvent::HeightProcessed) => {
                if current_height == u64::MAX {
                    (SyncState::Fatal, SyncAction::Stop { reason: SyncStop::HeightOverflow })
                } else if current_height < end_height {
                    (
                        SyncState::Historical { current_height: current_height + 1, end_height },
                        SyncAction::Process { height: current_height + 1, is_real_time: false },
                    )
                } else {
                    (
                        SyncState::Live { expected_height: current_height + 1 },
                        SyncAction::AwaitHeight,
                    )
                }
            },
            (SyncState::Live { expected_height }, SyncEvent::HeightReceived { height }) => {
                if height == expected_height {
                    (*self, SyncAction::Process { height, is_real_time: true })
                } else {
                    (
                        SyncState::Fatal,
                        SyncAction::Stop {
                            reason: SyncStop::NonSequential {
                                expected: expected_height,
                                got: height,
                            },
                        },
                    )
                }
            },
            (SyncState::Live { expected_height }, SyncEvent::HeightProcessed) => {
                if expected_height == u64::MAX {
                    (SyncState::Fatal, SyncAction::Stop { reason: SyncStop::HeightOverflow })
                } else {
                    (
                        SyncState::Live { expected_height: expected_height + 1 },
                        SyncAction::AwaitHeight,
                    )
                }
            },
            _ => (SyncState::Fatal, SyncAction::Stop { reason: SyncStop::Unexpected }),
        };
        *self = next;
        action
    }
}

/// The height that `state` hands out or waits for next, if it is running.
pub open spec fn pending_height(state: SyncState) -> Option<u64> {
    match state {
        SyncState::Historical { current_height, .. } => Some(current_height),
        SyncState::Live { expected_height } => Some(expected_height),
        _ => None,
    }
}

/// Heights are handed out in strictly ascending order without a gap: a
/// height that is handed out is the one the state was pending on, and once
/// it is processed the state pends on its successor.
pub proof fn lemma_heights_sequential(state: SyncState, event: SyncEvent)
    ensures
        transition(state, event).1 matches SyncAction::Process { height, .. } ==> pending_height(
            transition(state, event).0,
        ) == Some(height),
        event is HeightProcessed && pending_height(state) is Some && !(transition(
            state,
            event,
        ).0 is Fatal) ==> pending_height(transition(state, event).0) == Some(
            (pending_height(state)->Some_0 + 1) as u64,
        ) && pending_height(state)->Some_0 < u64::MAX,
        event is HeightReceived && !(transition(state, event).0 is Fatal) ==> pending_height(state)
            == Some(event->height) && transition(state, event).0 == state,
{
}

/// The stopped state is terminal.
pub proof fn lemma_fatal_is_terminal(event: SyncEvent)
    ensures
        transition(SyncState::Fatal, event).0 == SyncState::Fatal,
        transition(SyncState::Fatal, event).1 is Stop,
{
}

/// Catching up ends only after its last height: while the state is
/// catching up, the height in hand does not exceed the last height.
pub proof fn lemma_historical_is_inclusive(state: SyncState, event: SyncEvent)
    requires
        state matches SyncState::Historical { current_height, end_height } ==> current_height
            <= end_height,
    ensures
        transition(state, event).0 matches SyncState::Historical { current_height, end_height }
            ==> current_height <= end_height,
        state matches SyncState::Historical { current_height, end_height } ==> (event
            is HeightProcessed && transition(state, event).0 is Live ==> current_height
            == end_height),
{
}

} // verus!
