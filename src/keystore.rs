//! The keystore service: the operations that clients request, over the entry
//! store that it alone owns.
use crate::bytes::{bytes_view, copy_bytes};
use crate::codec::{decode_entry, encode_entry, entry_bytes, entry_model, parse_entry};
use crate::entry::{EntryKind, EntryTlsCert, EntryX25519, KeystoreIndex, LairEntry};
use crate::error::{LairError, LairResult};
use crate::sign_ed25519::{
    sig_view, sign_ed25519_bytes, sign_ed25519_keypair_new_from_entropy, sign_result,
    EntrySignEd25519, SignEd25519PubKey, SignEd25519Signature,
};
use crate::store::{
    first_where, has_tls_digest, has_tls_sni, is_first_where, kind_at, lemma_first_where_unique,
    sign_pub_is, tls_digest_is, tls_sni_is, EntryStore,
};
use vstd::prelude::*;

verus! {

/// The Ed25519 keypair at an index, if that entry is one.
pub open spec fn sign_entry_at(entries: Seq<LairEntry>, index: int) -> Option<EntrySignEd25519> {
    if 1 <= index <= entries.len() {
        match entries[index - 1] {
            LairEntry::SignEd25519(e) => Some(e),
            _ => None,
        }
    } else {
        None
    }
}

/// The X25519 keypair at an index, if that entry is one.
pub open spec fn x25519_entry_at(entries: Seq<LairEntry>, index: int) -> Option<EntryX25519> {
    if 1 <= index <= entries.len() {
        match entries[index - 1] {
            LairEntry::X25519(e) => Some(e),
            _ => None,
        }
    } else {
        None
    }
}

/// The TLS certificate at an index; `BadInput` where that entry is none.
pub open spec fn tls_by_index(entries: Seq<LairEntry>, index: int) -> LairResult<EntryTlsCert> {
    if 1 <= index <= entries.len() {
        match entries[index - 1] {
            LairEntry::TlsCert(t) => Ok(t),
            _ => Err(LairError::BadInput),
        }
    } else {
        Err(LairError::BadInput)
    }
}

/// The earliest TLS certificate for a server name; `UnknownKey` where none is.
pub open spec fn tls_by_sni(entries: Seq<LairEntry>, sni: Seq<char>) -> LairResult<EntryTlsCert> {
    match first_where(entries, tls_sni_is(sni)) {
        Some(i) => tls_by_index(entries, i as int),
        None => Err(LairError::UnknownKey),
    }
}

/// The earliest TLS certificate with a digest; `UnknownKey` where none is.
pub open spec fn tls_by_digest(entries: Seq<LairEntry>, digest: Seq<u8>) -> LairResult<
    EntryTlsCert,
> {
    match first_where(entries, tls_digest_is(digest)) {
        Some(i) => tls_by_index(entries, i as int),
        None => Err(LairError::UnknownKey),
    }
}

/// The certificate bytes of a lookup.
pub open spec fn cert_of(r: LairResult<EntryTlsCert>) -> LairResult<Seq<u8>> {
    match r {
        Ok(t) => Ok(t.cert_der@),
        Err(e) => Err(e),
    }
}

/// The private key bytes of a lookup.
pub open spec fn priv_key_of(r: LairResult<EntryTlsCert>) -> LairResult<Seq<u8>> {
    match r {
        Ok(t) => Ok(t.priv_key_der@),
        Err(e) => Err(e),
    }
}

/// What signing with the keypair at an index yields; `BadInput` where that
/// entry is no Ed25519 keypair.
pub open spec fn sign_by_index_result(entries: Seq<LairEntry>, index: int, message: Seq<u8>) -> LairResult<
    Seq<u8>,
> {
    match sign_entry_at(entries, index) {
        Some(e) => sign_result(e.priv_key@, message),
        None => Err(LairError::BadInput),
    }
}

/// What signing with the earliest keypair of a public key yields;
/// `UnknownKey` where no keypair has it.
pub open spec fn sign_by_pub_result(entries: Seq<LairEntry>, pub_key: Seq<u8>, message: Seq<u8>) -> LairResult<
    Seq<u8>,
> {
    match first_where(entries, sign_pub_is(pub_key)) {
        Some(i) => sign_by_index_result(entries, i as int, message),
        None => Err(LairError::UnknownKey),
    }
}

/// The name the service reports.
pub const SERVER_NAME: &'static str = "lair-keystore";

/// The version the service reports.
pub const LAIR_VER: &'static str = "0.0.1";

/// The keystore service state.
pub struct Keystore {
    store: EntryStore,
}

impl View for Keystore {
    type V = Seq<LairEntry>;

    closed spec fn view(&self) -> Seq<LairEntry> {
        self.store@
    }
}

impl Keystore {
    /// Every entry has an index that fits in 32 bits.
    pub open spec fn wf(&self) -> bool {
        self@.len() <= u32::MAX
    }

    /// A keystore without entries.
    pub fn new() -> (r: Self)
        ensures
            r.wf(),
            r@ == Seq::<LairEntry>::empty(),
    {
        Keystore { store: EntryStore::new() }
    }

    /// Rebuild a keystore from its entry files, in index order. Fails with
    /// `BadInput` at the first file that holds no entry.
    pub fn load(files: &Vec<Vec<u8>>) -> (r: LairResult<Keystore>)
        ensures
            r matches Ok(k) ==> k.wf() && k@.len() == files@.len() && forall|i: int|
                0 <= i < files@.len() ==> parse_entry(files@[i]@) == Some(
                    entry_model(#[trigger] k@[i]),
                ),
            (exists|i: int| 0 <= i < files@.len() && #[trigger] parse_entry(files@[i]@) is None)
                <==> r == Err::<Keystore, LairError>(LairError::BadInput),
            (forall|i: int| 0 <= i < files@.len() ==> #[trigger] parse_entry(files@[i]@) is Some)
                ==> (files@.len() <= u32::MAX <==> r is Ok),
            (forall|i: int| 0 <= i < files@.len() ==> #[trigger] parse_entry(files@[i]@) is Some)
                && files@.len() > u32::MAX ==> r == Err::<Keystore, LairError>(
                LairError::StoreWriteFailed,
            ),
    {
        let mut entries: Vec<LairEntry> = Vec::new();
        let mut i: usize = 0;
        while i < files.len()
            invariant
                i <= files@.len(),
                entries@.len() == i,
                forall|j: int| 0 <= j < i ==> parse_entry(files@[j]@) == Some(
                    entry_model(#[trigger] entries@[j]),
                ),
            decreases files@.len() - i,
        {
            let e = match decode_entry(files[i].as_slice()) {
                Ok(e) => e,
                Err(e) => {
                    return Err(e);
                },
            };
            entries.push(e);
            i = i + 1;
        }
        assert forall|j: int| 0 <= j < files@.len() implies #[trigger] parse_entry(files@[j]@) is Some by {
            assert(parse_entry(files@[j]@) == Some(entry_model(entries@[j])));
        }
        if entries.len() > 0xffff_ffffusize {
            return Err(LairError::StoreWriteFailed);
        }
        Ok(Keystore { store: EntryStore::from_entries(entries) })
    }

    /// The bytes that the entry at an index is written as; `None` for 0 and
    /// past the end.
    pub fn entry_file(&self, index: KeystoreIndex) -> (r: Option<Vec<u8>>)
        requires
            self.wf(),
        ensures
            r is Some <==> 1 <= index <= self@.len(),
            r matches Some(b) ==> b@ == entry_bytes(entry_model(self@[index - 1])),
    {
        match self.store.get(index) {
            Some(e) => Some(encode_entry(e)),
            None => None,
        }
    }

    /// The name and version of the service.
    pub fn server_info(&self) -> (r: (&'static str, &'static str))
        ensures
            r == (SERVER_NAME, LAIR_VER),
    {
        (SERVER_NAME, LAIR_VER)
    }

    /// The index of the newest entry; 0 when there is none.
    pub fn last_entry_index(&self) -> (r: KeystoreIndex)
        requires
            self.wf(),
        ensures
            r == self@.len(),
    {
        self.store.last_index()
    }

    /// The kind of the entry at an index; `Invalid` for 0 and past the end.
    pub fn entry_type(&self, index: KeystoreIndex) -> (r: EntryKind)
        requires
            self.wf(),
        ensures
            r == kind_at(self@, index as int),
    {
        self.store.kind(index)
    }

    /// Store an entry made elsewhere under the next index.
    pub fn append_entry(&mut self, entry: LairEntry) -> (r: LairResult<KeystoreIndex>)
        requires
            old(self).wf(),
        ensures
            final(self).wf(),
            old(self)@.len() < u32::MAX ==> r == Ok::<KeystoreIndex, LairError>(
                (old(self)@.len() + 1) as KeystoreIndex,
            ) && final(self)@ == old(self)@.push(entry),
            old(self)@.len() == u32::MAX ==> r == Err::<KeystoreIndex, LairError>(
                LairError::StoreWriteFailed,
            ) && final(self)@ == old(self)@,
    {
        self.store.append(entry)
    }

    /// Generate an Ed25519 keypair, store it under the next index and return
    /// that index with the public key.
    pub fn sign_ed25519_new_from_entropy(&mut self) -> (r: LairResult<
        (KeystoreIndex, SignEd25519PubKey),
    >)
        requires
            old(self).wf(),
        ensures
            final(self).wf(),
            r matches Ok((i, p)) ==> {
                &&& i == old(self)@.len() + 1
                &&& final(self)@.len() == i
                &&& final(self)@.drop_last() == old(self)@
                &&& final(self)@.last() matches LairEntry::SignEd25519(e)
                &&& e.wf()
                &&& e.pub_key@ == p@
            },
            r is Err ==> final(self)@ == old(self)@ && (r == Err::<
                (KeystoreIndex, SignEd25519PubKey),
                LairError,
            >(LairError::EntropyUnavailable) || r == Err::<
                (KeystoreIndex, SignEd25519PubKey),
                LairError,
            >(LairError::StoreWriteFailed)),
            old(self)@.len() == u32::MAX ==> r == Err::<
                (KeystoreIndex, SignEd25519PubKey),
                LairError,
            >(LairError::StoreWriteFailed),
            old(self)@.len() < u32::MAX ==> r != Err::<
                (KeystoreIndex, SignEd25519PubKey),
                LairError,
            >(LairError::StoreWriteFailed),
    {
        if self.store.last_index() == 0xffff_ffffu32 {
            return Err(LairError::StoreWriteFailed);
        }
        let entry = match sign_ed25519_keypair_new_from_entropy() {
            Ok(e) => e,
            Err(e) => {
                return Err(e);
            },
        };
        let pub_key = SignEd25519PubKey::from(copy_bytes((&*entry.pub_key.0).as_slice()));
        let ghost old_entries = self@;
        let ghost e = entry;
        match self.store.append(LairEntry::SignEd25519(entry)) {
            Ok(i) => {
                assert(self@.drop_last() =~= old_entries);
                Ok((i, pub_key))
            },
            Err(e) => Err(e),
        }
    }

    /// The public key of the Ed25519 keypair at an index.
    pub fn sign_ed25519_get(&self, index: KeystoreIndex) -> (r: LairResult<SignEd25519PubKey>)
        requires
            self.wf(),
        ensures
            match sign_entry_at(self@, index as int) {
                Some(e) => r matches Ok(p) && p@ == e.pub_key@,
                None => r == Err::<SignEd25519PubKey, LairError>(LairError::BadInput),
            },
    {
        match self.store.get(index) {
            Some(LairEntry::SignEd25519(e)) => Ok(
                SignEd25519PubKey::from(copy_bytes((&*e.pub_key.0).as_slice())),
            ),
            _ => Err(LairError::BadInput),
        }
    }

    /// Sign a message with the Ed25519 keypair at an index.
    pub fn sign_ed25519_sign_by_index(&self, index: KeystoreIndex, message: &[u8]) -> (r: LairResult<
        SignEd25519Signature,
    >)
        requires
            self.wf(),
        ensures
            sig_view(r) == sign_by_index_result(self@, index as int, message@),
    {
        match self.store.get(index) {
            Some(LairEntry::SignEd25519(e)) => sign_ed25519_bytes(
                (&*e.priv_key.0).as_slice(),
                message,
            ),
            _ => Err(LairError::BadInput),
        }
    }

    /// Sign a message with the earliest Ed25519 keypair that has this public key.
    pub fn sign_ed25519_sign_by_pub_key(&self, pub_key: &[u8], message: &[u8]) -> (r: LairResult<
        SignEd25519Signature,
    >)
        requires
            self.wf(),
        ensures
            sig_view(r) == sign_by_pub_result(self@, pub_key@, message@),
    {
        match self.store.find_sign_by_pub(pub_key) {
            Some(i) => self.sign_ed25519_sign_by_index(i, message),
            None => Err(LairError::UnknownKey),
        }
    }

    /// The public key of the X25519 keypair at an index.
    pub fn x25519_get(&self, index: KeystoreIndex) -> (r: LairResult<Vec<u8>>)
        requires
            self.wf(),
        ensures
            match x25519_entry_at(self@, index as int) {
                Some(e) => r matches Ok(p) && p@ == e.pub_key@,
                None => r == Err::<Vec<u8>, LairError>(LairError::BadInput),
            },
    {
        match self.store.get(index) {
            Some(LairEntry::X25519(e)) => Ok(copy_bytes(e.pub_key.as_slice())),
            _ => Err(LairError::BadInput),
        }
    }

    /// The TLS certificate entry at an index.
    fn tls_at(&self, index: KeystoreIndex) -> (r: LairResult<&EntryTlsCert>)
        requires
            self.wf(),
        ensures
            match (r, tls_by_index(self@, index as int)) {
                (Ok(t), Ok(u)) => *t == u,
                (Err(e), Err(f)) => e == f,
                _ => false,
            },
    {
        match self.store.get(index) {
            Some(LairEntry::TlsCert(t)) => Ok(t),
            _ => Err(LairError::BadInput),
        }
    }

    /// The server name and digest of the TLS certificate at an index.
    pub fn tls_cert_get(&self, index: KeystoreIndex) -> (r: LairResult<(String, Vec<u8>)>)
        requires
            self.wf(),
        ensures
            match tls_by_index(self@, index as int) {
                Ok(t) => r matches Ok((s, d)) && s@ == t.sni@ && d@ == t.cert_digest@,
                Err(e) => r == Err::<(String, Vec<u8>), LairError>(e),
            },
    {
        match self.tls_at(index) {
            Ok(t) => Ok((t.sni.clone(), copy_bytes(t.cert_digest.as_slice()))),
            Err(e) => Err(e),
        }
    }

    /// The certificate at an index.
    pub fn tls_cert_get_cert_by_index(&self, index: KeystoreIndex) -> (r: LairResult<Vec<u8>>)
        requires
            self.wf(),
        ensures
            bytes_view(r) == cert_of(tls_by_index(self@, index as int)),
    {
        match self.tls_at(index) {
            Ok(t) => Ok(copy_bytes(t.cert_der.as_slice())),
            Err(e) => Err(e),
        }
    }

    /// The certificate of the earliest TLS entry for a server name.
    pub fn tls_cert_get_cert_by_sni(&self, sni: &String) -> (r: LairResult<Vec<u8>>)
        requires
            self.wf(),
        ensures
            bytes_view(r) == cert_of(tls_by_sni(self@, sni@)),
    {
        match self.store.find_tls_by_sni(sni) {
            Some(i) => self.tls_cert_get_cert_by_index(i),
            None => Err(LairError::UnknownKey),
        }
    }

    /// The certificate of the earliest TLS entry with a digest.
    pub fn tls_cert_get_cert_by_digest(&self, digest: &[u8]) -> (r: LairResult<Vec<u8>>)
        requires
            self.wf(),
        ensures
            bytes_view(r) == cert_of(tls_by_digest(self@, digest@)),
    {
        match self.store.find_tls_by_digest(digest) {
            Some(i) => self.tls_cert_get_cert_by_index(i),
            None => Err(LairError::UnknownKey),
        }
    }

    /// The private key of the TLS entry at an index.
    pub fn tls_cert_get_priv_key_by_index(&self, index: KeystoreIndex) -> (r: LairResult<Vec<u8>>)
        requires
            self.wf(),
        ensures
            bytes_view(r) == priv_key_of(tls_by_index(self@, index as int)),
    {
        match self.tls_at(index) {
            Ok(t) => Ok(copy_bytes(t.priv_key_der.as_slice())),
            Err(e) => Err(e),
        }
    }

    /// The private key of the earliest TLS entry for a server name.
    pub fn tls_cert_get_priv_key_by_sni(&self, sni: &String) -> (r: LairResult<Vec<u8>>)
        requires
            self.wf(),
        ensures
            bytes_view(r) == priv_key_of(tls_by_sni(self@, sni@)),
    {
        match self.store.find_tls_by_sni(sni) {
            Some(i) => self.tls_cert_get_priv_key_by_index(i),
            None => Err(LairError::UnknownKey),
        }
    }

    /// The private key of the earliest TLS entry with a digest.
    pub fn tls_cert_get_priv_key_by_digest(&self, digest: &[u8]) -> (r: LairResult<Vec<u8>>)
        requires
            self.wf(),
        ensures
            bytes_view(r) == priv_key_of(tls_by_digest(self@, digest@)),
    {
        match self.store.find_tls_by_digest(digest) {
            Some(i) => self.tls_cert_get_priv_key_by_index(i),
            None => Err(LairError::UnknownKey),
        }
    }
}

/// Signing by a keypair's public key gives what signing by its index gives,
/// when no earlier keypair has that public key.
pub proof fn lemma_sign_by_pub_key_is_sign_by_index(
    entries: Seq<LairEntry>,
    index: KeystoreIndex,
    message: Seq<u8>,
)
    requires
        sign_entry_at(entries, index as int) is Some,
        is_first_where(
            entries,
            sign_pub_is(sign_entry_at(entries, index as int)->Some_0.pub_key@),
            Some(index),
        ),
    ensures
        sign_by_pub_result(entries, sign_entry_at(entries, index as int)->Some_0.pub_key@, message)
            == sign_by_index_result(entries, index as int, message),
{
    let k = sign_entry_at(entries, index as int)->Some_0.pub_key@;
    lemma_first_where_unique(entries, sign_pub_is(k), Some(index));
}

/// The certificate and private key found by index, by server name and by
/// digest are the same, when no earlier certificate has that server name or
/// that digest.
pub proof fn lemma_tls_triple_lookup(entries: Seq<LairEntry>, index: KeystoreIndex)
    requires
        tls_by_index(entries, index as int) is Ok,
        forall|j: int|
            0 <= j < index - 1 ==> !has_tls_sni(
                #[trigger] entries[j],
                tls_by_index(entries, index as int)->Ok_0.sni@,
            ),
        forall|j: int|
            0 <= j < index - 1 ==> !has_tls_digest(
                #[trigger] entries[j],
                tls_by_index(entries, index as int)->Ok_0.cert_digest@,
            ),
    ensures
        ({
            let t = tls_by_index(entries, index as int)->Ok_0;
            &&& tls_by_sni(entries, t.sni@) == tls_by_index(entries, index as int)
            &&& tls_by_digest(entries, t.cert_digest@) == tls_by_index(entries, index as int)
            &&& cert_of(tls_by_sni(entries, t.sni@)) == cert_of(tls_by_digest(entries, t.cert_digest@))
            &&& priv_key_of(tls_by_sni(entries, t.sni@)) == priv_key_of(
                tls_by_digest(entries, t.cert_digest@),
            )
        }),
{
    let t = tls_by_index(entries, index as int)->Ok_0;
    assert(is_first_where(entries, tls_sni_is(t.sni@), Some(index)));
    assert(is_first_where(entries, tls_digest_is(t.cert_digest@), Some(index)));
    lemma_first_where_unique(entries, tls_sni_is(t.sni@), Some(index));
    lemma_first_where_unique(entries, tls_digest_is(t.cert_digest@), Some(index));
}

} // verus!
