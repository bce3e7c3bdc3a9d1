//! Which turn is under way, and whether it was cancelled.

use crate::audio::{CancelScope, CancelToken};
use crate::time::Timestamp;
use vstd::prelude::*;

verus! {

/// A turn as it was when it started.
///
/// The epoch of the token alone decides on cancellation; the turn's number is for logs and
/// metrics.
#[derive(Debug, Clone, Copy, PartialEq, Eq, Structural)]
pub struct TurnContext {
    epoch_snapshot: u64,
    created_at: Timestamp,
    turn_id: u64,
}

/// A turn's data.
pub struct TurnView {
    pub epoch_snapshot: u64,
    pub created_at: Timestamp,
    pub turn_id: u64,
}

impl View for TurnContext {
    type V = TurnView;

    closed spec fn view(&self) -> TurnView {
        TurnView {
            epoch_snapshot: self.epoch_snapshot,
            created_at: self.created_at,
            turn_id: self.turn_id,
        }
    }
}

impl TurnContext {
    /// The turn's number.
    pub fn turn_id(&self) -> (r: u64)
        ensures
            r == self@.turn_id,
    {
        self.turn_id
    }

    /// When the turn started.
    pub fn created_at(&self) -> (r: Timestamp)
        ensures
            r == self@.created_at,
    {
        self.created_at
    }

    /// The token's epoch when the turn started.
    pub fn epoch_snapshot(&self) -> (r: u64)
        ensures
            r == self@.epoch_snapshot,
    {
        self.epoch_snapshot
    }

    /// Whether the token was cancelled since.
    pub fn is_cancelled(&self, token: &CancelToken) -> (r: bool)
        ensures
            r == (token.epoch != self@.epoch_snapshot),
    {
        token.current_epoch() != self.epoch_snapshot
    }

    /// The scope of what is done in this turn.
    pub fn scope(&self) -> (r: CancelScope)
        ensures
            r.epoch == self@.epoch_snapshot,
    {
        CancelScope { epoch: self.epoch_snapshot }
    }
}

/// Numbers turns, and holds the one under way.
#[derive(Debug, PartialEq, Eq, Structural)]
pub struct TurnManager {
    current: TurnContext,
    turn_seq: u64,
}

/// What a `TurnManager` holds.
pub struct ManagerView {
    /// The turn under way.
    pub current: TurnView,
    /// The number of the last turn.
    pub turn_seq: u64,
}

impl View for TurnManager {
    type V = ManagerView;

    closed spec fn view(&self) -> ManagerView {
        ManagerView { current: self.current@, turn_seq: self.turn_seq }
    }
}

impl ManagerView {
    /// The manager after the next turn has started.
    pub open spec fn advanced(self, token: CancelToken, now: Timestamp) -> Self {
        let turn_id = if self.turn_seq == u64::MAX {
            0
        } else {
            (self.turn_seq + 1) as u64
        };
        ManagerView {
            current: TurnView { epoch_snapshot: token.epoch, created_at: now, turn_id },
            turn_seq: turn_id,
        }
    }
}

impl TurnManager {
    /// A manager before the first turn.
    pub fn new(token: &CancelToken, now: Timestamp) -> (r: Self)
        ensures
            r@ == (ManagerView {
                current: TurnView { epoch_snapshot: token.epoch, created_at: now, turn_id: 0 },
                turn_seq: 0,
            }),
    {
        TurnManager {
            current: TurnContext {
                epoch_snapshot: token.current_epoch(),
                created_at: now,
                turn_id: 0,
            },
            turn_seq: 0,
        }
    }

    /// The turn under way.
    pub fn current_context(&self) -> (r: TurnContext)
        ensures
            r@ == self@.current,
    {
        self.current
    }

    /// Cancels the turn under way and starts the next.
    pub fn advance_turn(&mut self, token: &mut CancelToken, now: Timestamp) -> (r: TurnContext)
        ensures
            *final(token) == old(token).cancelled(),
            final(self)@ == old(self)@.advanced(old(token).cancelled(), now),
            r@ == final(self)@.current,
    {
        token.cancel();
        self.advance_turn_no_cancel(token, now)
    }

    /// Starts the next turn, where the token was cancelled already.
    pub fn advance_turn_no_cancel(&mut self, token: &CancelToken, now: Timestamp) -> (r: TurnContext)
        ensures
            final(self)@ == old(self)@.advanced(*token, now),
            r@ == final(self)@.current,
    {
        let turn_id: u64 = self.turn_seq.wrapping_add(1);
        self.turn_seq = turn_id;
        self.current =
        TurnContext { epoch_snapshot: token.current_epoch(), created_at: now, turn_id };
        self.current
    }
}

/// The next turn cancels the one before it and is not cancelled itself, and its number is one
/// higher while the numbers last.
pub proof fn law_next_turn_cancels_the_last(
    manager: ManagerView,
    token: CancelToken,
    now: Timestamp,
)
    requires
        manager.current.epoch_snapshot == token.epoch,
        manager.turn_seq < u64::MAX,
    ensures
        ({
            let after = token.cancelled();
            let next = manager.advanced(after, now).current;
            &&& manager.current.epoch_snapshot != after.epoch
            &&& next.epoch_snapshot == after.epoch
            &&& next.turn_id == manager.turn_seq + 1
        }),
{
}

/// A turn starts in the epoch at hand, now, with the number behind the last, which starts anew
/// behind the largest.
pub proof fn law_start_of_a_turn(manager: ManagerView, token: CancelToken, now: Timestamp)
    ensures
        ({
            let after = manager.advanced(token, now);
            &&& after.current.epoch_snapshot == token.epoch
            &&& after.current.created_at == now
            &&& after.current.turn_id == after.turn_seq
            &&& manager.turn_seq < u64::MAX ==> after.turn_seq == manager.turn_seq + 1
            &&& manager.turn_seq == u64::MAX ==> after.turn_seq == 0
        }),
{
}

} // verus!
