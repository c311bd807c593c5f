//! A local keystore: Ed25519 signing material, an append-only indexed entry
//! store with secondary lookups and the byte layout of its entry files, the
//! framing and reply correlation of its socket protocol, and the
//! single-flight passphrase cache.
use vstd::prelude::*;

pub mod bytes;
pub mod codec;
pub mod dispatch;
pub mod entry;
pub mod error;
pub mod frame;
pub mod keystore;
pub mod passphrase;
pub mod sign_ed25519;
pub mod store;

verus! {

} // verus!
