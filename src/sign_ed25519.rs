//! Ed25519 signing keys, signatures and the operations on them.
use crate::error::{LairError, LairResult};
use std::sync::Arc;
use vstd::prelude::*;

verus! {

/// The public key that Ed25519 derives from a 32-byte seed.
pub uninterp spec fn ed25519_public_of(seed: Seq<u8>) -> Seq<u8>;

/// The detached Ed25519 signature of a message under a 32-byte seed.
pub uninterp spec fn ed25519_signature_of(seed: Seq<u8>, message: Seq<u8>) -> Seq<u8>;

/// Whether Ed25519 verification accepts a signature of a message under a public key.
pub uninterp spec fn ed25519_accepts(pub_key: Seq<u8>, message: Seq<u8>, signature: Seq<u8>) -> bool;

/// Length of an Ed25519 private seed.
pub const SEED_LEN: usize = 32;

/// Length of an Ed25519 public key.
pub const PUB_KEY_LEN: usize = 32;

/// Length of a detached Ed25519 signature.
pub const SIGNATURE_LEN: usize = 64;

/// Relies on `ring::rand::SystemRandom::new` and `SecureRandom::fill`: the
/// buffer is overwritten in place (its length kept) with bytes from the
/// operating system; `false` where the system refused to produce them.
#[verifier::external_body]
fn fill_from_system(dest: &mut Vec<u8>) -> (r: bool)
    ensures
        final(dest)@.len() == old(dest)@.len(),
{
    let sys_rand = ring::rand::SystemRandom::new();
    ring::rand::SecureRandom::fill(&sys_rand, dest.as_mut_slice()).is_ok()
}

/// Relies on `ring::signature::Ed25519KeyPair::from_seed_unchecked` and
/// `KeyPair::public_key`: a seed of exactly 32 bytes is accepted, any other
/// length rejected; the public key is 32 bytes and depends on the seed alone.
#[verifier::external_body]
fn derive_public(seed: &[u8]) -> (r: Option<Vec<u8>>)
    ensures
        r.is_some() <==> seed@.len() == SEED_LEN,
        r matches Some(p) ==> p@ == ed25519_public_of(seed@) && p@.len() == PUB_KEY_LEN,
{
    match ring::signature::Ed25519KeyPair::from_seed_unchecked(seed) {
        Ok(kp) => Some(ring::signature::KeyPair::public_key(&kp).as_ref().to_vec()),
        Err(_) => None,
    }
}

/// Relies on `ring::signature::Ed25519KeyPair::from_seed_unchecked` and
/// `Ed25519KeyPair::sign`: a seed of exactly 32 bytes is accepted, any other
/// length rejected; the signature is 64 bytes and depends on seed and message
/// alone (Ed25519 signing is deterministic).
#[verifier::external_body]
fn sign_with_seed(seed: &[u8], message: &[u8]) -> (r: Option<Vec<u8>>)
    ensures
        r.is_some() <==> seed@.len() == SEED_LEN,
        r matches Some(s) ==> s@ == ed25519_signature_of(seed@, message@) && s@.len()
            == SIGNATURE_LEN,
{
    match ring::signature::Ed25519KeyPair::from_seed_unchecked(seed) {
        Ok(kp) => Some(kp.sign(message).as_ref().to_vec()),
        Err(_) => None,
    }
}

/// Relies on `ring::signature::UnparsedPublicKey::verify` with `ED25519`: a
/// public key that is not 32 bytes or a signature that is not 64 bytes is
/// rejected, and a signature made with the seed of the public key is accepted.
#[verifier::external_body]
fn verify_raw(pub_key: &[u8], message: &[u8], signature: &[u8]) -> (r: bool)
    ensures
        r == ed25519_accepts(pub_key@, message@, signature@),
        pub_key@.len() != PUB_KEY_LEN ==> !r,
        signature@.len() != SIGNATURE_LEN ==> !r,
        made_by_seed_of(pub_key@, message@, signature@) ==> r,
{
    let key = ring::signature::UnparsedPublicKey::new(&ring::signature::ED25519, pub_key);
    key.verify(message, signature).is_ok()
}

/// The 32 byte Ed25519 private seed.
#[derive(Clone, Debug, PartialEq, Eq, PartialOrd, Ord, Hash)]
pub struct SignEd25519PrivKey(pub Arc<Vec<u8>>);

/// The 32 byte Ed25519 public key.
#[derive(Clone, Debug, PartialEq, Eq, PartialOrd, Ord, Hash)]
pub struct SignEd25519PubKey(pub Arc<Vec<u8>>);

/// The 64 byte detached Ed25519 signature.
#[derive(Clone, Debug, PartialEq, Eq, PartialOrd, Ord, Hash)]
pub struct SignEd25519Signature(pub Arc<Vec<u8>>);

impl View for SignEd25519PrivKey {
    type V = Seq<u8>;

    open spec fn view(&self) -> Seq<u8> {
        self.0@
    }
}

impl View for SignEd25519PubKey {
    type V = Seq<u8>;

    open spec fn view(&self) -> Seq<u8> {
        self.0@
    }
}

impl View for SignEd25519Signature {
    type V = Seq<u8>;

    open spec fn view(&self) -> Seq<u8> {
        self.0@
    }
}

impl From<Vec<u8>> for SignEd25519PrivKey {
    fn from(d: Vec<u8>) -> (r: Self)
        ensures
            r@ == d@,
    {
        SignEd25519PrivKey(Arc::new(d))
    }
}

impl vstd::std_specs::convert::FromSpecImpl<Vec<u8>> for SignEd25519PrivKey {
    open spec fn obeys_from_spec() -> bool {
        true
    }

    open spec fn from_spec(d: Vec<u8>) -> Self {
        SignEd25519PrivKey(Arc::new(d))
    }
}

impl From<Vec<u8>> for SignEd25519PubKey {
    fn from(d: Vec<u8>) -> (r: Self)
        ensures
            r@ == d@,
    {
        SignEd25519PubKey(Arc::new(d))
    }
}

impl vstd::std_specs::convert::FromSpecImpl<Vec<u8>> for SignEd25519PubKey {
    open spec fn obeys_from_spec() -> bool {
        true
    }

    open spec fn from_spec(d: Vec<u8>) -> Self {
        SignEd25519PubKey(Arc::new(d))
    }
}

impl From<Vec<u8>> for SignEd25519Signature {
    fn from(d: Vec<u8>) -> (r: Self)
        ensures
            r@ == d@,
    {
        SignEd25519Signature(Arc::new(d))
    }
}

impl vstd::std_specs::convert::FromSpecImpl<Vec<u8>> for SignEd25519Signature {
    open spec fn obeys_from_spec() -> bool {
        true
    }

    open spec fn from_spec(d: Vec<u8>) -> Self {
        SignEd25519Signature(Arc::new(d))
    }
}

/// A freshly generated Ed25519 keypair.
#[derive(Clone, Debug, PartialEq, Eq)]
pub struct EntrySignEd25519 {
    /// The private seed.
    pub priv_key: SignEd25519PrivKey,
    /// The public key derived from the seed.
    pub pub_key: SignEd25519PubKey,
}

impl EntrySignEd25519 {
    /// A keypair is well formed when its seed is 32 bytes and its public key
    /// is the one derived from that seed.
    pub open spec fn wf(&self) -> bool {
        &&& self.priv_key@.len() == SEED_LEN
        &&& self.pub_key@.len() == PUB_KEY_LEN
        &&& self.pub_key@ == ed25519_public_of(self.priv_key@)
    }
}

/// What signing yields: the signature of the message under a 32 byte seed,
/// or `KeyDerivationFailed` for a seed of any other length.
pub open spec fn sign_result(seed: Seq<u8>, message: Seq<u8>) -> LairResult<Seq<u8>> {
    if seed.len() == SEED_LEN {
        Ok(ed25519_signature_of(seed, message))
    } else {
        Err(LairError::KeyDerivationFailed)
    }
}

/// What verification yields: `BadInput` for a public key or signature of the
/// wrong length, `true` for a signature that the seed behind the public key
/// made of the message, otherwise whether Ed25519 accepts the signature.
pub open spec fn verify_result(pub_key: Seq<u8>, message: Seq<u8>, signature: Seq<u8>) -> LairResult<bool> {
    if pub_key.len() != PUB_KEY_LEN || signature.len() != SIGNATURE_LEN {
        Err(LairError::BadInput)
    } else if made_by_seed_of(pub_key, message, signature) {
        Ok(true)
    } else {
        Ok(ed25519_accepts(pub_key, message, signature))
    }
}

/// The signature is one that the seed behind the public key made of the
/// message (both of the lengths that derivation and signing produce).
pub open spec fn made_by_seed_of(pub_key: Seq<u8>, message: Seq<u8>, signature: Seq<u8>) -> bool {
    &&& pub_key.len() == PUB_KEY_LEN
    &&& signature.len() == SIGNATURE_LEN
    &&& exists|seed: Seq<u8>|
        seed.len() == SEED_LEN && pub_key == ed25519_public_of(seed) && signature
            == ed25519_signature_of(seed, message)
}

impl SignEd25519PubKey {
    /// Verify a signature on a message with this public key.
    pub fn verify(&self, message: Arc<Vec<u8>>, signature: SignEd25519Signature) -> (r: LairResult<bool>)
        ensures
            r == verify_result(self@, message@, signature@),
            self@.len() == PUB_KEY_LEN && signature@.len() == SIGNATURE_LEN ==> r == Ok::<
                bool,
                LairError,
            >(ed25519_accepts(self@, message@, signature@)),
    {
        let key: &Vec<u8> = &*self.0;
        let sig: &Vec<u8> = &*signature.0;
        if key.len() != PUB_KEY_LEN || sig.len() != SIGNATURE_LEN {
            return Err(LairError::BadInput);
        }
        Ok(verify_raw(key.as_slice(), (&*message).as_slice(), sig.as_slice()))
    }
}

/// Make a keypair from what the system random source gave: `None` where it
/// refused, else the drawn seed.
pub fn sign_ed25519_keypair_from_draw(drawn: Option<Vec<u8>>) -> (r: LairResult<EntrySignEd25519>)
    ensures
        match drawn {
            None => r == Err::<EntrySignEd25519, LairError>(LairError::EntropyUnavailable),
            Some(s) => if s@.len() == SEED_LEN {
                r matches Ok(e) && e.priv_key@ == s@ && e.pub_key@ == ed25519_public_of(s@)
                    && e.wf()
            } else {
                r == Err::<EntrySignEd25519, LairError>(LairError::KeyDerivationFailed)
            },
        },
{
    match drawn {
        None => Err(LairError::EntropyUnavailable),
        Some(seed) => match derive_public(seed.as_slice()) {
            Some(pub_key) => Ok(
                EntrySignEd25519 {
                    priv_key: SignEd25519PrivKey::from(seed),
                    pub_key: SignEd25519PubKey::from(pub_key),
                },
            ),
            None => Err(LairError::KeyDerivationFailed),
        },
    }
}

/// Generate a new random Ed25519 keypair: 32 bytes are drawn from the system
/// random source and handed to `sign_ed25519_keypair_from_draw`.
pub fn sign_ed25519_keypair_new_from_entropy() -> (r: LairResult<EntrySignEd25519>)
    ensures
        r matches Ok(e) ==> e.wf(),
        r is Err ==> r == Err::<EntrySignEd25519, LairError>(LairError::EntropyUnavailable),
{
    let mut seed: Vec<u8> = Vec::new();
    let mut i: usize = 0;
    while i < SEED_LEN
        invariant
            i <= SEED_LEN,
            seed@.len() == i,
        decreases SEED_LEN - i,
    {
        seed.push(0u8);
        i = i + 1;
    }
    if fill_from_system(&mut seed) {
        sign_ed25519_keypair_from_draw(Some(seed))
    } else {
        sign_ed25519_keypair_from_draw(None)
    }
}

/// The bytes of a signing result.
pub open spec fn sig_view(r: LairResult<SignEd25519Signature>) -> LairResult<Seq<u8>> {
    match r {
        Ok(s) => Ok(s@),
        Err(e) => Err(e),
    }
}

/// Sign a message with a private seed given as bytes.
pub fn sign_ed25519_bytes(seed: &[u8], message: &[u8]) -> (r: LairResult<SignEd25519Signature>)
    ensures
        sig_view(r) == sign_result(seed@, message@),
        r matches Ok(sig) ==> sig@.len() == SIGNATURE_LEN,
{
    match sign_with_seed(seed, message) {
        Some(sig) => Ok(SignEd25519Signature::from(sig)),
        None => Err(LairError::KeyDerivationFailed),
    }
}

/// Generate the detached signature of a message under a private seed.
pub fn sign_ed25519(priv_key: SignEd25519PrivKey, message: Arc<Vec<u8>>) -> (r: LairResult<SignEd25519Signature>)
    ensures
        sig_view(r) == sign_result(priv_key@, message@),
        r matches Ok(sig) ==> sig@.len() == SIGNATURE_LEN,
{
    sign_ed25519_bytes((&*priv_key.0).as_slice(), (&*message).as_slice())
}

/// Verify a signature on a message with a public key.
pub fn sign_ed25519_verify(
    pub_key: SignEd25519PubKey,
    message: Arc<Vec<u8>>,
    signature: SignEd25519Signature,
) -> (r: LairResult<bool>)
    ensures
        r == verify_result(pub_key@, message@, signature@),
        pub_key@.len() == PUB_KEY_LEN && signature@.len() == SIGNATURE_LEN ==> r == Ok::<
            bool,
            LairError,
        >(ed25519_accepts(pub_key@, message@, signature@)),
{
    pub_key.verify(message, signature)
}

/// A signature that a well-formed keypair's seed made of a message (64 bytes,
/// as signing yields it) verifies under that keypair's public key.
pub proof fn lemma_sign_then_verify(key: EntrySignEd25519, message: Seq<u8>, signature: Seq<u8>)
    requires
        key.wf(),
        sign_result(key.priv_key@, message) == Ok::<Seq<u8>, LairError>(signature),
        signature.len() == SIGNATURE_LEN,
    ensures
        verify_result(key.pub_key@, message, signature) == Ok::<bool, LairError>(true),
{
    assert(made_by_seed_of(key.pub_key@, message, signature)) by {
        let seed = key.priv_key@;
        assert(seed.len() == SEED_LEN && key.pub_key@ == ed25519_public_of(seed) && signature
            == ed25519_signature_of(seed, message));
    }
}

} // verus!
