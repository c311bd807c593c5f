use lair_keystore::codec::{decode_entry, encode_entry};
use lair_keystore::entry::{EntryKind, EntryTlsCert, EntryX25519, LairEntry};
use lair_keystore::error::LairError;
use lair_keystore::keystore::Keystore;
use lair_keystore::sign_ed25519::sign_ed25519_keypair_new_from_entropy;

#[test]
fn x25519_entry_exact_bytes() {
    let e = LairEntry::X25519(EntryX25519 { priv_key: vec![1, 2], pub_key: vec![3] });
    assert_eq!(
        encode_entry(&e),
        vec![3, 2, 0, 0, 0, 0, 0, 0, 0, 1, 2, 1, 0, 0, 0, 0, 0, 0, 0, 3]
    );
}

#[test]
fn entries_round_trip() {
    let tls = LairEntry::TlsCert(EntryTlsCert {
        sni: "héllo.example".to_string(),
        priv_key_der: vec![9; 40],
        cert_der: vec![8; 100],
        cert_digest: vec![7; 32],
    });
    let sign = LairEntry::SignEd25519(sign_ed25519_keypair_new_from_entropy().unwrap());
    let x = LairEntry::X25519(EntryX25519 { priv_key: vec![], pub_key: vec![5; 32] });
    for e in [tls, sign, x] {
        let b = encode_entry(&e);
        assert_eq!(decode_entry(&b).unwrap(), e);
    }
}

#[test]
fn malformed_entries_are_bad_input() {
    assert_eq!(decode_entry(&[]).unwrap_err(), LairError::BadInput);
    assert_eq!(decode_entry(&[4]).unwrap_err(), LairError::BadInput);
    let e = LairEntry::X25519(EntryX25519 { priv_key: vec![1], pub_key: vec![2] });
    let mut b = encode_entry(&e);
    b.push(0);
    assert_eq!(decode_entry(&b).unwrap_err(), LairError::BadInput);
    b.pop();
    b.pop();
    assert_eq!(decode_entry(&b).unwrap_err(), LairError::BadInput);
    // a server name that is not UTF-8
    let mut t = vec![1u8, 1, 0, 0, 0, 0, 0, 0, 0, 0xff];
    for _ in 0..3 {
        t.extend_from_slice(&[0, 0, 0, 0, 0, 0, 0, 0]);
    }
    assert_eq!(decode_entry(&t).unwrap_err(), LairError::BadInput);
    t[9] = b'a';
    assert!(decode_entry(&t).is_ok());
}

#[test]
fn store_written_and_loaded_back() {
    let mut ks = Keystore::new();
    let (_, pub_key) = ks.sign_ed25519_new_from_entropy().unwrap();
    ks.append_entry(LairEntry::X25519(EntryX25519 { priv_key: vec![1; 32], pub_key: vec![2; 32] }))
        .unwrap();
    let files: Vec<Vec<u8>> = (1..=2).map(|i| ks.entry_file(i).unwrap()).collect();
    assert!(ks.entry_file(0).is_none());
    assert!(ks.entry_file(3).is_none());
    let loaded = Keystore::load(&files).unwrap();
    assert_eq!(loaded.last_entry_index(), 2);
    assert_eq!(loaded.entry_type(1), EntryKind::SignEd25519);
    assert_eq!(loaded.sign_ed25519_get(1).unwrap(), pub_key);
    assert_eq!(
        loaded.sign_ed25519_sign_by_index(1, b"m").unwrap(),
        ks.sign_ed25519_sign_by_index(1, b"m").unwrap()
    );
    assert_eq!(loaded.x25519_get(2).unwrap(), vec![2u8; 32]);
    let mut bad = files.clone();
    bad[1].push(0);
    assert!(matches!(Keystore::load(&bad), Err(LairError::BadInput)));
}
