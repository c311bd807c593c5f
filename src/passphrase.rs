//! The passphrase gate: the unlock passphrase is asked of a client at most
//! once at a time, and kept for the life of the process once given.
use crate::error::LairError;
use vstd::prelude::*;

verus! {

/// Where the passphrase cache stands.
pub enum GateState {
    /// No passphrase, and none asked for.
    Empty,
    /// A client was asked and has not answered yet.
    Pending,
    /// The passphrase is known.
    Held(String),
}

/// What happens to the passphrase cache.
pub enum GateEvent {
    /// Some operation needs the passphrase.
    Needed,
    /// The client answered with the passphrase.
    Answered(String),
    /// The client answered with an error.
    Refused,
    /// The connection that was asked went away.
    ConnectionDropped,
}

/// What the caller is to do after an event.
pub enum GateAction {
    /// Send `RequestUnlockPassphrase` on the active connection.
    SendUnlockRequest,
    /// A request is already out: wait for its answer.
    Wait,
    /// Hand this passphrase to whoever waits for it.
    Deliver(String),
    /// Fail whoever waits for it with this error.
    Fail(LairError),
    /// Nothing to do.
    Nothing,
}

/// One step of the passphrase cache.
pub open spec fn gate_step(state: GateState, event: GateEvent) -> (GateState, GateAction) {
    match (state, event) {
        (GateState::Empty, GateEvent::Needed) => (GateState::Pending, GateAction::SendUnlockRequest),
        (GateState::Pending, GateEvent::Needed) => (GateState::Pending, GateAction::Wait),
        (GateState::Held(p), GateEvent::Needed) => (GateState::Held(p), GateAction::Deliver(p)),
        (GateState::Pending, GateEvent::Answered(p)) => (GateState::Held(p), GateAction::Deliver(p)),
        (GateState::Pending, GateEvent::Refused) => (
            GateState::Empty,
            GateAction::Fail(LairError::PassphraseRefused),
        ),
        (GateState::Pending, GateEvent::ConnectionDropped) => (GateState::Empty, GateAction::Nothing),
        (s, _) => (s, GateAction::Nothing),
    }
}

/// Decide the next state and the action for an event.
pub fn step(state: GateState, event: GateEvent) -> (r: (GateState, GateAction))
    ensures
        r == gate_step(state, event),
{
    match (state, event) {
        (GateState::Empty, GateEvent::Needed) => (GateState::Pending, GateAction::SendUnlockRequest),
        (GateState::Pending, GateEvent::Needed) => (GateState::Pending, GateAction::Wait),
        (GateState::Held(p), GateEvent::Needed) => {
            let q = p.clone();
            (GateState::Held(p), GateAction::Deliver(q))
        },
        (GateState::Pending, GateEvent::Answered(p)) => {
            let q = p.clone();
            (GateState::Held(p), GateAction::Deliver(q))
        },
        (GateState::Pending, GateEvent::Refused) => (
            GateState::Empty,
            GateAction::Fail(LairError::PassphraseRefused),
        ),
        (GateState::Pending, GateEvent::ConnectionDropped) => (GateState::Empty, GateAction::Nothing),
        (s, _) => (s, GateAction::Nothing),
    }
}

/// The state after a run of events.
pub open spec fn gate_run(state: GateState, events: Seq<GateEvent>) -> GateState
    decreases events.len(),
{
    if events.len() == 0 {
        state
    } else {
        gate_run(gate_step(state, events[0]).0, events.drop_first())
    }
}

/// Whether a run of events makes the passphrase cache send an unlock request.
pub open spec fn run_sends_request(state: GateState, events: Seq<GateEvent>) -> bool
    decreases events.len(),
{
    if events.len() == 0 {
        false
    } else {
        gate_step(state, events[0]).1 is SendUnlockRequest || run_sends_request(
            gate_step(state, events[0]).0,
            events.drop_first(),
        )
    }
}

/// Once the passphrase is held it stays held, whatever happens, and no
/// further unlock request goes out.
pub proof fn lemma_held_is_final(p: String, events: Seq<GateEvent>)
    ensures
        gate_run(GateState::Held(p), events) == GateState::Held(p),
        !run_sends_request(GateState::Held(p), events),
    decreases events.len(),
{
    if events.len() > 0 {
        lemma_held_is_final(p, events.drop_first());
    }
}

/// While a request is out, further needs wait for it instead of asking again.
pub proof fn lemma_single_flight(events: Seq<GateEvent>)
    requires
        forall|i: int| 0 <= i < events.len() ==> #[trigger] events[i] is Needed,
    ensures
        gate_run(GateState::Pending, events) == GateState::Pending,
        !run_sends_request(GateState::Pending, events),
    decreases events.len(),
{
    if events.len() > 0 {
        assert forall|i: int| 0 <= i < events.drop_first().len() implies #[trigger] events.drop_first()[i] is Needed by {
            assert(events[i + 1] is Needed);
        }
        lemma_single_flight(events.drop_first());
    }
}

} // verus!
