use lair_keystore::error::LairError;
use lair_keystore::sign_ed25519::{
    sign_ed25519, sign_ed25519_bytes, sign_ed25519_keypair_from_draw,
    sign_ed25519_keypair_new_from_entropy, sign_ed25519_verify,
    EntrySignEd25519, SignEd25519PrivKey, SignEd25519PubKey, SignEd25519Signature,
};
use std::num::Wrapping;
use std::sync::Arc;

#[test]
fn it_can_sign_and_verify() {
    let msg = Arc::new(vec![0, 1, 2, 3]);

    let EntrySignEd25519 { priv_key, pub_key } = sign_ed25519_keypair_new_from_entropy().unwrap();

    let sig = sign_ed25519(priv_key.clone(), msg.clone()).unwrap();

    assert!(sign_ed25519_verify(pub_key.clone(), msg.clone(), sig.clone()).unwrap());

    let mut bad_sig = (*sig.0).clone();
    bad_sig[0] = (Wrapping(bad_sig[0]) + Wrapping(1)).0;
    assert!(!sign_ed25519_verify(pub_key.clone(), msg.clone(), bad_sig.into()).unwrap());
}

#[test]
fn keypair_has_expected_lengths_and_differs() {
    let a = sign_ed25519_keypair_new_from_entropy().unwrap();
    let b = sign_ed25519_keypair_new_from_entropy().unwrap();
    assert_eq!(a.priv_key.0.len(), 32);
    assert_eq!(a.pub_key.0.len(), 32);
    assert_ne!(a.priv_key, b.priv_key);
    assert_ne!(a.pub_key, b.pub_key);
    // the public key is derived, not the seed handed back
    assert_ne!(*a.priv_key.0, *a.pub_key.0);
}

#[test]
fn signing_is_deterministic_and_64_bytes() {
    let seed: SignEd25519PrivKey = vec![7u8; 32].into();
    let msg = Arc::new(b"test-data".to_vec());
    let s1 = sign_ed25519(seed.clone(), msg.clone()).unwrap();
    let s2 = sign_ed25519_bytes(&vec![7u8; 32], b"test-data").unwrap();
    assert_eq!(s1, s2);
    assert_eq!(s1.0.len(), 64);
    assert_ne!(*s1.0, *msg);
}

#[test]
fn rfc8032_first_vector() {
    // RFC 8032, section 7.1, test 1 (empty message)
    let seed = hex_bytes("9d61b19deffd5a60ba844af492ec2cc44449c5697b326919703bac031cae7f60");
    let pk = hex_bytes("d75a980182b10ab7d54bfed3c964073a0ee172f3daa62325af021a68f707511a");
    let sig = hex_bytes(
        "e5564300c360ac729086e2cc806e828a84877f1eb8e5d974d873e065224901555fb8821590a33bacc61e39701cf9b46bd25bf5f0595bbe24655141438e7a100b",
    );
    let s = sign_ed25519(seed.clone().into(), Arc::new(vec![])).unwrap();
    assert_eq!(*s.0, sig);
    let pub_key: SignEd25519PubKey = pk.into();
    assert!(pub_key.verify(Arc::new(vec![]), sig.clone().into()).unwrap());
    assert!(!pub_key.verify(Arc::new(vec![1]), sig.into()).unwrap());
}

#[test]
fn short_seed_is_rejected() {
    let seed: SignEd25519PrivKey = vec![1u8; 31].into();
    assert_eq!(
        sign_ed25519(seed, Arc::new(vec![1, 2])).unwrap_err(),
        LairError::KeyDerivationFailed
    );
}

#[test]
fn wrong_length_inputs_are_bad_input() {
    let k = sign_ed25519_keypair_new_from_entropy().unwrap();
    let msg = Arc::new(vec![9u8]);
    let sig = sign_ed25519(k.priv_key.clone(), msg.clone()).unwrap();
    let short_pub: SignEd25519PubKey = vec![0u8; 31].into();
    assert_eq!(
        sign_ed25519_verify(short_pub, msg.clone(), sig.clone()).unwrap_err(),
        LairError::BadInput
    );
    let short_sig: SignEd25519Signature = vec![0u8; 63].into();
    assert_eq!(k.pub_key.verify(msg, short_sig).unwrap_err(), LairError::BadInput);
}

#[test]
fn keypair_from_draw_outcomes() {
    assert_eq!(
        sign_ed25519_keypair_from_draw(None).unwrap_err(),
        LairError::EntropyUnavailable
    );
    assert_eq!(
        sign_ed25519_keypair_from_draw(Some(vec![0u8; 31])).unwrap_err(),
        LairError::KeyDerivationFailed
    );
    // RFC 8032, section 7.1, test 1
    let seed = hex_bytes("9d61b19deffd5a60ba844af492ec2cc44449c5697b326919703bac031cae7f60");
    let e = sign_ed25519_keypair_from_draw(Some(seed.clone())).unwrap();
    assert_eq!(*e.priv_key.0, seed);
    assert_eq!(
        *e.pub_key.0,
        hex_bytes("d75a980182b10ab7d54bfed3c964073a0ee172f3daa62325af021a68f707511a")
    );
}

fn hex_bytes(s: &str) -> Vec<u8> {
    (0..s.len() / 2)
        .map(|i| u8::from_str_radix(&s[2 * i..2 * i + 2], 16).unwrap())
        .collect()
}
