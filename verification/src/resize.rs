//! The decisions of the loop that waits for window-size changes: when to
//! call back, when to keep waiting and when to return.

use vstd::prelude::*;

verus! {

/// Whether the loop still listens.
#[derive(Clone, Copy, Debug, PartialEq, Eq, Structural)]
pub enum BridgeState {
    Listening,
    Stopped,
}

/// What the signal source handed to the loop.
#[derive(Clone, Copy, Debug, PartialEq, Eq, Structural)]
pub enum BridgeEvent {
    /// The window size changed.
    Resize,
    /// Some other signal arrived.
    OtherSignal,
    /// Delivery was stopped: the source has ended.
    Closed,
}

/// What the loop does next.
#[derive(Clone, Copy, Debug, PartialEq, Eq, Structural)]
pub enum BridgeAction {
    /// Call the callback once, and wait for the next event.
    Notify,
    /// Wait for the next event.
    Wait,
    /// Leave the loop.
    Return,
}

/// The state after `event`: the end of delivery stops the loop for good.
pub open spec fn next_state(state: BridgeState, event: BridgeEvent) -> BridgeState {
    if state == BridgeState::Listening && event != BridgeEvent::Closed {
        BridgeState::Listening
    } else {
        BridgeState::Stopped
    }
}

/// The action on `event`: one callback for each resize while listening.
pub open spec fn action_of(state: BridgeState, event: BridgeEvent) -> BridgeAction {
    match (state, event) {
        (BridgeState::Stopped, _) => BridgeAction::Return,
        (BridgeState::Listening, BridgeEvent::Closed) => BridgeAction::Return,
        (BridgeState::Listening, BridgeEvent::Resize) => BridgeAction::Notify,
        (BridgeState::Listening, BridgeEvent::OtherSignal) => BridgeAction::Wait,
    }
}

/// One turn of the loop.
pub fn step(state: BridgeState, event: BridgeEvent) -> (turn: (BridgeState, BridgeAction))
    ensures
        turn.0 == next_state(state, event),
        turn.1 == action_of(state, event),
{
    match state {
        BridgeState::Stopped => (BridgeState::Stopped, BridgeAction::Return),
        BridgeState::Listening => match event {
            BridgeEvent::Closed => (BridgeState::Stopped, BridgeAction::Return),
            BridgeEvent::Resize => (BridgeState::Listening, BridgeAction::Notify),
            BridgeEvent::OtherSignal => (BridgeState::Listening, BridgeAction::Wait),
        },
    }
}

/// The state after all of `events`, taken in order.
pub open spec fn state_after(state: BridgeState, events: Seq<BridgeEvent>) -> BridgeState
    decreases events.len(),
{
    if events.len() == 0 {
        state
    } else {
        next_state(state_after(state, events.drop_last()), events.last())
    }
}

/// Once delivery has been stopped, the loop is told to return on every later
/// event and never to call back again, whatever events follow.
pub proof fn lemma_stopped_never_notifies(
    before: Seq<BridgeEvent>,
    after: Seq<BridgeEvent>,
    event: BridgeEvent,
)
    ensures
        state_after(BridgeState::Listening, before.push(BridgeEvent::Closed) + after)
            == BridgeState::Stopped,
        action_of(
            state_after(BridgeState::Listening, before.push(BridgeEvent::Closed) + after),
            event,
        ) == BridgeAction::Return,
    decreases after.len(),
{
    let stopped = before.push(BridgeEvent::Closed);
    if after.len() == 0 {
        assert(stopped + after =~= stopped);
        assert(stopped.last() == BridgeEvent::Closed);
    } else {
        assert((stopped + after).drop_last() =~= stopped + after.drop_last());
        lemma_stopped_never_notifies(before, after.drop_last(), event);
    }
}

} // verus!
