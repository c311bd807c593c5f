use lair_keystore::error::LairError;
use lair_keystore::passphrase::{step, GateAction, GateEvent, GateState};

#[test]
fn passphrase_callback_asked_once() {
    let (s, a) = step(GateState::Empty, GateEvent::Needed);
    assert!(matches!(a, GateAction::SendUnlockRequest));
    let (s, a) = step(s, GateEvent::Needed);
    assert!(matches!(a, GateAction::Wait));
    let (s, a) = step(s, GateEvent::Answered("passphrase".to_string()));
    match a {
        GateAction::Deliver(p) => assert_eq!(p, "passphrase"),
        _ => panic!("expected delivery"),
    }
    let (s, a) = step(s, GateEvent::Needed);
    match a {
        GateAction::Deliver(p) => assert_eq!(p, "passphrase"),
        _ => panic!("expected cached delivery"),
    }
    let (s, a) = step(s, GateEvent::ConnectionDropped);
    assert!(matches!(a, GateAction::Nothing));
    match s {
        GateState::Held(p) => assert_eq!(p, "passphrase"),
        _ => panic!("passphrase lost"),
    }
}

#[test]
fn passphrase_refused_then_retried() {
    let (s, _) = step(GateState::Empty, GateEvent::Needed);
    let (s, a) = step(s, GateEvent::Refused);
    assert!(matches!(a, GateAction::Fail(LairError::PassphraseRefused)));
    assert!(matches!(s, GateState::Empty));
    let (s, a) = step(s, GateEvent::Needed);
    assert!(matches!(a, GateAction::SendUnlockRequest));
    let (s, a) = step(s, GateEvent::ConnectionDropped);
    assert!(matches!(a, GateAction::Nothing));
    let (_, a) = step(s, GateEvent::Needed);
    assert!(matches!(a, GateAction::SendUnlockRequest));
}
