//! The append-only entry store with its secondary lookups.
use crate::bytes::bytes_eq;
use crate::entry::{kind_of, EntryKind, KeystoreIndex, LairEntry};
use crate::error::{LairError, LairResult};
use vstd::prelude::*;

verus! {

/// The entry is an Ed25519 keypair with this public key.
pub open spec fn has_sign_pub(e: LairEntry, k: Seq<u8>) -> bool {
    e matches LairEntry::SignEd25519(s) && s.pub_key@ == k
}

/// The entry is an X25519 keypair with this public key.
pub open spec fn has_x25519_pub(e: LairEntry, k: Seq<u8>) -> bool {
    e matches LairEntry::X25519(x) && x.pub_key@ == k
}

/// The entry is a TLS certificate for this server name.
pub open spec fn has_tls_sni(e: LairEntry, sni: Seq<char>) -> bool {
    e matches LairEntry::TlsCert(t) && t.sni@ == sni
}

/// The entry is a TLS certificate with this digest.
pub open spec fn has_tls_digest(e: LairEntry, digest: Seq<u8>) -> bool {
    e matches LairEntry::TlsCert(t) && t.cert_digest@ == digest
}

/// Entries that are Ed25519 keypairs with this public key.
pub open spec fn sign_pub_is(k: Seq<u8>) -> spec_fn(LairEntry) -> bool {
    |e: LairEntry| has_sign_pub(e, k)
}

/// Entries that are X25519 keypairs with this public key.
pub open spec fn x25519_pub_is(k: Seq<u8>) -> spec_fn(LairEntry) -> bool {
    |e: LairEntry| has_x25519_pub(e, k)
}

/// Entries that are TLS certificates for this server name.
pub open spec fn tls_sni_is(sni: Seq<char>) -> spec_fn(LairEntry) -> bool {
    |e: LairEntry| has_tls_sni(e, sni)
}

/// Entries that are TLS certificates with this digest.
pub open spec fn tls_digest_is(digest: Seq<u8>) -> spec_fn(LairEntry) -> bool {
    |e: LairEntry| has_tls_digest(e, digest)
}

/// `r` is the earliest index whose entry satisfies `p`, or `None` when no
/// entry does.
pub open spec fn is_first_where(
    entries: Seq<LairEntry>,
    p: spec_fn(LairEntry) -> bool,
    r: Option<KeystoreIndex>,
) -> bool {
    match r {
        Some(i) => {
            &&& 1 <= i <= entries.len()
            &&& p(entries[i - 1])
            &&& forall|j: int| 0 <= j < i - 1 ==> !p(#[trigger] entries[j])
        },
        None => forall|j: int| 0 <= j < entries.len() ==> !p(#[trigger] entries[j]),
    }
}

/// The earliest index whose entry satisfies `p`; `None` when no entry does.
pub open spec fn first_where(entries: Seq<LairEntry>, p: spec_fn(LairEntry) -> bool) -> Option<
    KeystoreIndex,
> {
    if exists|i: KeystoreIndex| is_first_where(entries, p, Some(i)) {
        Some(choose|i: KeystoreIndex| is_first_where(entries, p, Some(i)))
    } else {
        None
    }
}

/// At most one answer is the earliest match, and it is `first_where`.
pub proof fn lemma_first_where_unique(
    entries: Seq<LairEntry>,
    p: spec_fn(LairEntry) -> bool,
    r: Option<KeystoreIndex>,
)
    requires
        is_first_where(entries, p, r),
    ensures
        r == first_where(entries, p),
{
    match r {
        Some(i) => {
            let k = choose|k: KeystoreIndex| is_first_where(entries, p, Some(k));
            if k < i {
                assert(p(entries[k - 1]));
            } else if i < k {
                assert(p(entries[i - 1]));
            }
        },
        None => {
            if exists|i: KeystoreIndex| is_first_where(entries, p, Some(i)) {
                let k = choose|k: KeystoreIndex| is_first_where(entries, p, Some(k));
                assert(p(entries[k - 1]));
            }
        },
    }
}

/// The kind of the entry at an index; `Invalid` for 0 and past the end.
pub open spec fn kind_at(entries: Seq<LairEntry>, index: int) -> EntryKind {
    if 1 <= index <= entries.len() {
        kind_of(entries[index - 1])
    } else {
        EntryKind::Invalid
    }
}

/// Appending gives the new entry the index after the last, finds it there
/// unchanged, and leaves every earlier entry as it was.
pub proof fn lemma_append_then_get(entries: Seq<LairEntry>, e: LairEntry)
    ensures
        entries.push(e).len() == entries.len() + 1,
        entries.push(e)[entries.len() as int] == e,
        kind_at(entries.push(e), entries.len() + 1int) == kind_of(e),
        forall|j: int|
            1 <= j <= entries.len() ==> #[trigger] kind_at(entries.push(e), j) == kind_at(entries, j)
                && entries.push(e)[j - 1] == entries[j - 1],
{
}

/// After a run of appends, the `k`-th appended entry (from 0) sits at index
/// `start.len() + k + 1` with its own kind, so from an empty store the entries
/// made in turn get the indices 1, 2, 3, ... in the order they were made.
pub proof fn lemma_run_of_appends(start: Seq<LairEntry>, added: Seq<LairEntry>)
    ensures
        (start + added).len() == start.len() + added.len(),
        forall|k: int|
            0 <= k < added.len() ==> (start + added)[start.len() + k] == added[k] && #[trigger] kind_at(
                start + added,
                start.len() + k + 1,
            ) == kind_of(added[k]),
        kind_at(start + added, 0) == EntryKind::Invalid,
        kind_at(start + added, (start.len() + added.len() + 1) as int) == EntryKind::Invalid,
{
}

/// The in-memory entry store: entry `i` (from 1) is the `i`-th appended.
pub struct EntryStore {
    entries: Vec<LairEntry>,
}

impl View for EntryStore {
    type V = Seq<LairEntry>;

    closed spec fn view(&self) -> Seq<LairEntry> {
        self.entries@
    }
}

impl EntryStore {
    /// Every entry has an index that fits in 32 bits.
    pub open spec fn wf(&self) -> bool {
        self@.len() <= u32::MAX
    }

    /// An empty store.
    pub fn new() -> (r: Self)
        ensures
            r.wf(),
            r@ == Seq::<LairEntry>::empty(),
    {
        EntryStore { entries: Vec::new() }
    }

    /// A store that holds these entries, in this order.
    pub fn from_entries(entries: Vec<LairEntry>) -> (r: Self)
        requires
            entries@.len() <= u32::MAX,
        ensures
            r.wf(),
            r@ == entries@,
    {
        EntryStore { entries }
    }

    /// The index of the last entry; 0 for an empty store.
    pub fn last_index(&self) -> (r: KeystoreIndex)
        requires
            self.wf(),
        ensures
            r == self@.len(),
    {
        self.entries.len() as u32
    }

    /// Append an entry under the next index. Fails, leaving the store as it
    /// was, only when the 32-bit index space is used up.
    pub fn append(&mut self, entry: LairEntry) -> (r: LairResult<KeystoreIndex>)
        requires
            old(self).wf(),
        ensures
            final(self).wf(),
            old(self)@.len() < u32::MAX ==> r == Ok::<KeystoreIndex, LairError>(
                (old(self)@.len() + 1) as KeystoreIndex,
            ) && final(self)@ == old(self)@.push(entry),
            old(self)@.len() == u32::MAX ==> r == Err::<KeystoreIndex, LairError>(
                LairError::StoreWriteFailed,
            ) && final(self)@ == old(self)@,
    {
        if self.entries.len() >= 0xffff_ffffusize {
            return Err(LairError::StoreWriteFailed);
        }
        self.entries.push(entry);
        Ok(self.entries.len() as u32)
    }

    /// The entry at an index; `None` for 0 and past the end.
    pub fn get(&self, index: KeystoreIndex) -> (r: Option<&LairEntry>)
        requires
            self.wf(),
        ensures
            r is Some <==> 1 <= index <= self@.len(),
            r matches Some(e) ==> *e == self@[index - 1],
    {
        if index == 0 || index as usize > self.entries.len() {
            None
        } else {
            Some(&self.entries[index as usize - 1])
        }
    }

    /// The kind of the entry at an index; `Invalid` for 0 and past the end.
    pub fn kind(&self, index: KeystoreIndex) -> (r: EntryKind)
        requires
            self.wf(),
        ensures
            r == kind_at(self@, index as int),
    {
        match self.get(index) {
            Some(e) => e.kind(),
            None => EntryKind::Invalid,
        }
    }

    /// The earliest Ed25519 keypair with this public key.
    pub fn find_sign_by_pub(&self, pub_key: &[u8]) -> (r: Option<KeystoreIndex>)
        requires
            self.wf(),
        ensures
            is_first_where(self@, sign_pub_is(pub_key@), r),
            r == first_where(self@, sign_pub_is(pub_key@)),
    {
        let mut i: usize = 0;
        while i < self.entries.len()
            invariant
                self.wf(),
                i <= self@.len(),
                forall|j: int| 0 <= j < i ==> !has_sign_pub(#[trigger] self@[j], pub_key@),
            decreases self@.len() - i,
        {
            if let LairEntry::SignEd25519(s) = &self.entries[i] {
                if bytes_eq((&*s.pub_key.0).as_slice(), pub_key) {
                    proof {
                        lemma_first_where_unique(self@, sign_pub_is(pub_key@), Some((i + 1) as u32));
                    }
                    return Some((i + 1) as u32);
                }
            }
            i = i + 1;
        }
        proof {
            lemma_first_where_unique(self@, sign_pub_is(pub_key@), None);
        }
        None
    }

    /// The earliest X25519 keypair with this public key.
    pub fn find_x25519_by_pub(&self, pub_key: &[u8]) -> (r: Option<KeystoreIndex>)
        requires
            self.wf(),
        ensures
            is_first_where(self@, x25519_pub_is(pub_key@), r),
            r == first_where(self@, x25519_pub_is(pub_key@)),
    {
        let mut i: usize = 0;
        while i < self.entries.len()
            invariant
                self.wf(),
                i <= self@.len(),
                forall|j: int| 0 <= j < i ==> !has_x25519_pub(#[trigger] self@[j], pub_key@),
            decreases self@.len() - i,
        {
            if let LairEntry::X25519(x) = &self.entries[i] {
                if bytes_eq(x.pub_key.as_slice(), pub_key) {
                    proof {
                        lemma_first_where_unique(self@, x25519_pub_is(pub_key@), Some((i + 1) as u32));
                    }
                    return Some((i + 1) as u32);
                }
            }
            i = i + 1;
        }
        proof {
            lemma_first_where_unique(self@, x25519_pub_is(pub_key@), None);
        }
        None
    }

    /// The earliest TLS certificate for this server name.
    pub fn find_tls_by_sni(&self, sni: &String) -> (r: Option<KeystoreIndex>)
        requires
            self.wf(),
        ensures
            is_first_where(self@, tls_sni_is(sni@), r),
            r == first_where(self@, tls_sni_is(sni@)),
    {
        let mut i: usize = 0;
        while i < self.entries.len()
            invariant
                self.wf(),
                i <= self@.len(),
                forall|j: int| 0 <= j < i ==> !has_tls_sni(#[trigger] self@[j], sni@),
            decreases self@.len() - i,
        {
            if let LairEntry::TlsCert(t) = &self.entries[i] {
                if t.sni == *sni {
                    proof {
                        lemma_first_where_unique(self@, tls_sni_is(sni@), Some((i + 1) as u32));
                    }
                    return Some((i + 1) as u32);
                }
            }
            i = i + 1;
        }
        proof {
            lemma_first_where_unique(self@, tls_sni_is(sni@), None);
        }
        None
    }

    /// The earliest TLS certificate with this digest.
    pub fn find_tls_by_digest(&self, digest: &[u8]) -> (r: Option<KeystoreIndex>)
        requires
            self.wf(),
        ensures
            is_first_where(self@, tls_digest_is(digest@), r),
            r == first_where(self@, tls_digest_is(digest@)),
    {
        let mut i: usize = 0;
        while i < self.entries.len()
            invariant
                self.wf(),
                i <= self@.len(),
                forall|j: int| 0 <= j < i ==> !has_tls_digest(#[trigger] self@[j], digest@),
            decreases self@.len() - i,
        {
            if let LairEntry::TlsCert(t) = &self.entries[i] {
                if bytes_eq(t.cert_digest.as_slice(), digest) {
                    proof {
                        lemma_first_where_unique(self@, tls_digest_is(digest@), Some((i + 1) as u32));
                    }
                    return Some((i + 1) as u32);
                }
            }
            i = i + 1;
        }
        proof {
            lemma_first_where_unique(self@, tls_digest_is(digest@), None);
        }
        None
    }
}

} // verus!
