use lair_keystore::dispatch::{is_reply, reply_tag, request_tag, Correlator, REPLY_BIT};
use lair_keystore::error::LairError;

#[test]
fn reply_tags_pair_with_requests() {
    assert_eq!(reply_tag(5), 0x8000_0005);
    assert!(is_reply(reply_tag(5)));
    assert!(!is_reply(5));
    assert_eq!(request_tag(0x8000_0005), 5);
    assert_eq!(REPLY_BIT, 0x8000_0000);
}

#[test]
fn correlation_ids_are_fresh_and_retired() {
    let mut c = Correlator::new();
    assert_eq!(c.register(), Ok(1));
    assert_eq!(c.register(), Ok(2));
    assert_eq!(c.register(), Ok(3));
    assert_eq!(c.resolve(2), Ok(()));
    assert_eq!(c.resolve(2), Err(LairError::ProtocolViolation));
    assert_eq!(c.resolve(9), Err(LairError::ProtocolViolation));
    assert_eq!(c.register(), Ok(4));
    assert_eq!(c.resolve(1), Ok(()));
    assert_eq!(c.resolve(3), Ok(()));
    assert_eq!(c.resolve(4), Ok(()));
}
