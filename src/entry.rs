//! The entries that the keystore holds.
use crate::sign_ed25519::EntrySignEd25519;
use vstd::prelude::*;

verus! {

/// Index of an entry in the store: dense and assigned from 1; 0 means
/// "invalid / absent".
pub type KeystoreIndex = u32;

/// The kind of an entry.
#[derive(Clone, Copy, Debug, PartialEq, Eq, Structural)]
pub enum EntryKind {
    /// No entry (index 0, or beyond the last index).
    Invalid,
    /// A self-signed TLS certificate with its private key.
    TlsCert,
    /// An Ed25519 signing keypair.
    SignEd25519,
    /// An X25519 key-agreement keypair.
    X25519,
}

/// A self-signed TLS certificate with its private key.
#[derive(Clone, Debug, PartialEq, Eq)]
pub struct EntryTlsCert {
    /// The server name the certificate was made for.
    pub sni: String,
    /// The DER-encoded private key.
    pub priv_key_der: Vec<u8>,
    /// The DER-encoded certificate.
    pub cert_der: Vec<u8>,
    /// The digest of the certificate.
    pub cert_digest: Vec<u8>,
}

/// An X25519 key-agreement keypair.
#[derive(Clone, Debug, PartialEq, Eq)]
pub struct EntryX25519 {
    /// The private scalar.
    pub priv_key: Vec<u8>,
    /// The public point.
    pub pub_key: Vec<u8>,
}

/// One entry of the store.
#[derive(Clone, Debug, PartialEq, Eq)]
pub enum LairEntry {
    /// A TLS certificate entry.
    TlsCert(EntryTlsCert),
    /// An Ed25519 keypair entry.
    SignEd25519(EntrySignEd25519),
    /// An X25519 keypair entry.
    X25519(EntryX25519),
}

/// The kind of an entry.
pub open spec fn kind_of(e: LairEntry) -> EntryKind {
    match e {
        LairEntry::TlsCert(_) => EntryKind::TlsCert,
        LairEntry::SignEd25519(_) => EntryKind::SignEd25519,
        LairEntry::X25519(_) => EntryKind::X25519,
    }
}

impl LairEntry {
    /// The kind of this entry.
    pub fn kind(&self) -> (r: EntryKind)
        ensures
            r == kind_of(*self),
    {
        match self {
            LairEntry::TlsCert(_) => EntryKind::TlsCert,
            LairEntry::SignEd25519(_) => EntryKind::SignEd25519,
            LairEntry::X25519(_) => EntryKind::X25519,
        }
    }
}

} // verus!
