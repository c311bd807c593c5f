use lair_keystore::entry::{EntryKind, EntryTlsCert, EntryX25519, LairEntry};
use lair_keystore::error::LairError;
use lair_keystore::keystore::{Keystore, LAIR_VER};
use lair_keystore::sign_ed25519::sign_ed25519_verify;
use std::sync::Arc;

fn tls(sni: &str, digest: u8) -> LairEntry {
    LairEntry::TlsCert(EntryTlsCert {
        sni: sni.to_string(),
        priv_key_der: vec![digest, 1, 1],
        cert_der: vec![digest, 2, 2, 2],
        cert_digest: vec![digest; 32],
    })
}

fn x25519(b: u8) -> LairEntry {
    LairEntry::X25519(EntryX25519 { priv_key: vec![b; 32], pub_key: vec![b ^ 0xff; 32] })
}

#[test]
fn lair_integration_test() {
    let mut ks = Keystore::new();
    let (name, version) = ks.server_info();
    assert_eq!("lair-keystore", name);
    assert_eq!(LAIR_VER, version);

    assert_eq!(0, ks.last_entry_index());
    assert_eq!(EntryKind::Invalid, ks.entry_type(0));

    let cert_index = ks.append_entry(tls("a.example", 5)).unwrap();
    assert_eq!(1, cert_index);
    assert_eq!(1, ks.last_entry_index());
    assert_eq!(EntryKind::TlsCert, ks.entry_type(1));
    let (cert_sni, cert_digest) = ks.tls_cert_get(cert_index).unwrap();
    assert_eq!(cert_sni, "a.example");
    assert_eq!(cert_digest, vec![5u8; 32]);

    let cert1 = ks.tls_cert_get_cert_by_index(cert_index).unwrap();
    let cert2 = ks.tls_cert_get_cert_by_sni(&cert_sni).unwrap();
    let cert3 = ks.tls_cert_get_cert_by_digest(&cert_digest).unwrap();
    assert_eq!(cert1, cert2);
    assert_eq!(cert2, cert3);
    let pk1 = ks.tls_cert_get_priv_key_by_index(cert_index).unwrap();
    let pk2 = ks.tls_cert_get_priv_key_by_sni(&cert_sni).unwrap();
    let pk3 = ks.tls_cert_get_priv_key_by_digest(&cert_digest).unwrap();
    assert_eq!(pk1, pk2);
    assert_eq!(pk2, pk3);

    let (sign_index, sign_pub_key) = ks.sign_ed25519_new_from_entropy().unwrap();
    assert_eq!(2, sign_index);
    assert_eq!(2, ks.last_entry_index());
    assert_eq!(EntryKind::SignEd25519, ks.entry_type(2));
    let sign_pub_key2 = ks.sign_ed25519_get(sign_index).unwrap();
    assert_eq!(sign_pub_key, sign_pub_key2);

    let data = b"test-data".to_vec();
    let sign1 = ks.sign_ed25519_sign_by_index(sign_index, &data).unwrap();
    let sign2 = ks.sign_ed25519_sign_by_pub_key(&sign_pub_key.0, &data).unwrap();
    assert_eq!(sign1, sign2);
    assert!(sign_ed25519_verify(sign_pub_key.clone(), Arc::new(data.clone()), sign1).unwrap());

    // the same requests again give byte-identical signatures
    let sign3 = ks.sign_ed25519_sign_by_index(sign_index, &data).unwrap();
    let sign4 = ks.sign_ed25519_sign_by_pub_key(&sign_pub_key.0, &data).unwrap();
    assert_eq!(sign2, sign3);
    assert_eq!(sign3, sign4);

    let alice_index = ks.append_entry(x25519(0x11)).unwrap();
    assert_eq!(3, alice_index);
    assert_eq!(3, ks.last_entry_index());
    assert_eq!(EntryKind::X25519, ks.entry_type(3));
    assert_eq!(ks.x25519_get(alice_index).unwrap(), vec![0xeeu8; 32]);
    let bob_index = ks.append_entry(x25519(0x22)).unwrap();
    assert_eq!(4, bob_index);
    let carol_index = ks.append_entry(x25519(0x33)).unwrap();
    assert_eq!(5, carol_index);
    assert_eq!(EntryKind::Invalid, ks.entry_type(6));
    assert_eq!(EntryKind::Invalid, ks.entry_type(0));
}

#[test]
fn new_from_entropy_indices_are_dense() {
    let mut ks = Keystore::new();
    for expect in 1u32..=5 {
        let i = if expect % 2 == 0 {
            ks.append_entry(x25519(expect as u8)).unwrap()
        } else {
            ks.sign_ed25519_new_from_entropy().unwrap().0
        };
        assert_eq!(i, expect);
        assert_eq!(ks.last_entry_index(), expect);
    }
}

#[test]
fn lookups_of_wrong_kind_or_range_fail() {
    let mut ks = Keystore::new();
    ks.append_entry(x25519(1)).unwrap();
    assert_eq!(ks.sign_ed25519_get(1).unwrap_err(), LairError::BadInput);
    assert_eq!(ks.sign_ed25519_get(0).unwrap_err(), LairError::BadInput);
    assert_eq!(ks.sign_ed25519_sign_by_index(1, b"m").unwrap_err(), LairError::BadInput);
    assert_eq!(ks.tls_cert_get(1).unwrap_err(), LairError::BadInput);
    assert_eq!(ks.tls_cert_get_cert_by_index(9).unwrap_err(), LairError::BadInput);
    assert_eq!(ks.x25519_get(2).unwrap_err(), LairError::BadInput);
    assert_eq!(
        ks.sign_ed25519_sign_by_pub_key(&[0u8; 32], b"m").unwrap_err(),
        LairError::UnknownKey
    );
    assert_eq!(
        ks.tls_cert_get_cert_by_sni(&"none".to_string()).unwrap_err(),
        LairError::UnknownKey
    );
    assert_eq!(
        ks.tls_cert_get_priv_key_by_digest(&[3u8; 32]).unwrap_err(),
        LairError::UnknownKey
    );
}

#[test]
fn duplicate_sni_earliest_wins() {
    let mut ks = Keystore::new();
    ks.append_entry(tls("dup", 1)).unwrap();
    ks.append_entry(tls("dup", 2)).unwrap();
    assert_eq!(ks.tls_cert_get_cert_by_sni(&"dup".to_string()).unwrap(), vec![1, 2, 2, 2]);
    assert_eq!(ks.tls_cert_get_cert_by_digest(&[2u8; 32]).unwrap(), vec![2, 2, 2, 2]);
}

#[test]
fn ed25519_and_x25519_keys_are_separate() {
    let mut ks = Keystore::new();
    let (_, p) = ks.sign_ed25519_new_from_entropy().unwrap();
    let mut x = p.0.to_vec();
    x.iter_mut().for_each(|b| *b ^= 0xff);
    // an X25519 entry whose public key equals the Ed25519 one
    ks.append_entry(LairEntry::X25519(EntryX25519 { priv_key: vec![0; 32], pub_key: p.0.to_vec() }))
        .unwrap();
    let s = ks.sign_ed25519_sign_by_pub_key(&p.0, b"m").unwrap();
    assert_eq!(s, ks.sign_ed25519_sign_by_index(1, b"m").unwrap());
    assert_eq!(
        ks.sign_ed25519_sign_by_pub_key(&x, b"m").unwrap_err(),
        LairError::UnknownKey
    );
}
