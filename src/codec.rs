//! The byte layout in which an entry is written to, and loaded from, its
//! file: a kind byte, then each field as an 8-byte little-endian length and
//! its bytes.
use crate::entry::{EntryTlsCert, EntryX25519, LairEntry};
use crate::error::{LairError, LairResult};
use crate::frame::{lemma_u64_round_trip, u64_at, u64_le};
use crate::sign_ed25519::{EntrySignEd25519, SignEd25519PrivKey, SignEd25519PubKey};
use vstd::prelude::*;
use vstd::utf8::{decode_utf8, encode_utf8, encode_utf8_decode_utf8, encode_utf8_valid_utf8, valid_utf8};

verus! {

/// Kind byte of a TLS certificate entry.
pub const KIND_TLS_CERT: u8 = 1;

/// Kind byte of an Ed25519 keypair entry.
pub const KIND_SIGN_ED25519: u8 = 2;

/// Kind byte of an X25519 keypair entry.
pub const KIND_X25519: u8 = 3;

/// What an entry holds, as plain values.
pub enum EntryModel {
    /// Server name, private key, certificate and digest.
    TlsCert(Seq<char>, Seq<u8>, Seq<u8>, Seq<u8>),
    /// Private seed and public key.
    SignEd25519(Seq<u8>, Seq<u8>),
    /// Private scalar and public point.
    X25519(Seq<u8>, Seq<u8>),
}

/// What an entry holds.
pub open spec fn entry_model(e: LairEntry) -> EntryModel {
    match e {
        LairEntry::TlsCert(t) => EntryModel::TlsCert(
            t.sni@,
            t.priv_key_der@,
            t.cert_der@,
            t.cert_digest@,
        ),
        LairEntry::SignEd25519(k) => EntryModel::SignEd25519(k.priv_key@, k.pub_key@),
        LairEntry::X25519(x) => EntryModel::X25519(x.priv_key@, x.pub_key@),
    }
}

/// One field: its length, then its bytes.
pub open spec fn field(s: Seq<u8>) -> Seq<u8> {
    u64_le(s.len() as u64) + s
}

/// The bytes an entry is written as.
pub open spec fn entry_bytes(m: EntryModel) -> Seq<u8> {
    match m {
        EntryModel::TlsCert(sni, k, c, d) => seq![KIND_TLS_CERT] + field(encode_utf8(sni)) + field(k)
            + field(c) + field(d),
        EntryModel::SignEd25519(k, p) => seq![KIND_SIGN_ED25519] + field(k) + field(p),
        EntryModel::X25519(k, p) => seq![KIND_X25519] + field(k) + field(p),
    }
}

/// Every field of the entry has a length that an 8-byte prefix can hold.
pub open spec fn fields_fit(m: EntryModel) -> bool {
    match m {
        EntryModel::TlsCert(sni, k, c, d) => encode_utf8(sni).len() <= u64::MAX && k.len()
            <= u64::MAX && c.len() <= u64::MAX && d.len() <= u64::MAX,
        EntryModel::SignEd25519(k, p) => k.len() <= u64::MAX && p.len() <= u64::MAX,
        EntryModel::X25519(k, p) => k.len() <= u64::MAX && p.len() <= u64::MAX,
    }
}

/// The field at an offset and the offset after it; `None` where the bytes
/// end before it does.
#[verifier::opaque]
pub open spec fn parse_field(b: Seq<u8>, at: int) -> Option<(Seq<u8>, int)> {
    if at < 0 || at + 8 > b.len() {
        None
    } else if u64_at(b, at) > b.len() - at - 8 {
        None
    } else {
        Some((b.subrange(at + 8, at + 8 + u64_at(b, at)), at + 8 + u64_at(b, at)))
    }
}

/// `k` fields from an offset that end exactly where the bytes end.
pub open spec fn parse_fields(b: Seq<u8>, at: int, k: nat) -> Option<Seq<Seq<u8>>>
    decreases k,
{
    if k == 0 {
        if at == b.len() {
            Some(Seq::<Seq<u8>>::empty())
        } else {
            None
        }
    } else {
        match parse_field(b, at) {
            Some((f, next)) => match parse_fields(b, next, (k - 1) as nat) {
                Some(rest) => Some(seq![f] + rest),
                None => None,
            },
            None => None,
        }
    }
}

/// The entry that bytes hold; `None` where they hold none.
pub open spec fn parse_entry(b: Seq<u8>) -> Option<EntryModel> {
    if b.len() == 0 {
        None
    } else if b[0] == KIND_TLS_CERT {
        match parse_fields(b, 1, 4) {
            Some(fs) => if valid_utf8(fs[0]) {
                Some(EntryModel::TlsCert(decode_utf8(fs[0]), fs[1], fs[2], fs[3]))
            } else {
                None
            },
            None => None,
        }
    } else if b[0] == KIND_SIGN_ED25519 {
        match parse_fields(b, 1, 2) {
            Some(fs) => Some(EntryModel::SignEd25519(fs[0], fs[1])),
            None => None,
        }
    } else if b[0] == KIND_X25519 {
        match parse_fields(b, 1, 2) {
            Some(fs) => Some(EntryModel::X25519(fs[0], fs[1])),
            None => None,
        }
    } else {
        None
    }
}

/// Relies on `String::from_utf8`: it succeeds exactly on valid UTF-8, and the
/// string then holds the characters those bytes encode.
#[verifier::external_body]
fn string_from_utf8(b: Vec<u8>) -> (r: Option<String>)
    ensures
        r is Some <==> valid_utf8(b@),
        r matches Some(s) ==> s@ == decode_utf8(b@),
{
    String::from_utf8(b).ok()
}

fn push_field(out: &mut Vec<u8>, s: &[u8])
    ensures
        final(out)@ == old(out)@ + field(s@),
{
    let n = s.len() as u64;
    out.push(n as u8);
    out.push((n >> 8u64) as u8);
    out.push((n >> 16u64) as u8);
    out.push((n >> 24u64) as u8);
    out.push((n >> 32u64) as u8);
    out.push((n >> 40u64) as u8);
    out.push((n >> 48u64) as u8);
    out.push((n >> 56u64) as u8);
    let ghost head = out@;
    let mut i: usize = 0;
    while i < s.len()
        invariant
            i <= s@.len(),
            out@ == head + s@.subrange(0, i as int),
        decreases s@.len() - i,
    {
        out.push(s[i]);
        i = i + 1;
        assert(out@ =~= head + s@.subrange(0, i as int));
    }
    assert(out@ =~= old(out)@ + field(s@));
}

/// Write an entry as bytes.
pub fn encode_entry(e: &LairEntry) -> (r: Vec<u8>)
    ensures
        r@ == entry_bytes(entry_model(*e)),
{
    let mut out: Vec<u8> = Vec::new();
    match e {
        LairEntry::TlsCert(t) => {
            out.push(KIND_TLS_CERT);
            push_field(&mut out, t.sni.as_str().as_bytes());
            push_field(&mut out, t.priv_key_der.as_slice());
            push_field(&mut out, t.cert_der.as_slice());
            push_field(&mut out, t.cert_digest.as_slice());
        },
        LairEntry::SignEd25519(k) => {
            out.push(KIND_SIGN_ED25519);
            push_field(&mut out, (&*k.priv_key.0).as_slice());
            push_field(&mut out, (&*k.pub_key.0).as_slice());
        },
        LairEntry::X25519(x) => {
            out.push(KIND_X25519);
            push_field(&mut out, x.priv_key.as_slice());
            push_field(&mut out, x.pub_key.as_slice());
        },
    }
    out
}

fn read_field(b: &[u8], at: usize) -> (r: Option<(Vec<u8>, usize)>)
    ensures
        match parse_field(b@, at as int) {
            Some((f, next)) => r matches Some((v, n)) && v@ == f && n == next,
            None => r is None,
        },
{
    reveal(parse_field);
    if at > b.len() || b.len() - at < 8 {
        return None;
    }
    let n = (b[at] as u64) | ((b[at + 1] as u64) << 8u64) | ((b[at + 2] as u64) << 16u64) | ((b[at
        + 3] as u64) << 24u64) | ((b[at + 4] as u64) << 32u64) | ((b[at + 5] as u64) << 40u64)
        | ((b[at + 6] as u64) << 48u64) | ((b[at + 7] as u64) << 56u64);
    if n > (b.len() - at - 8) as u64 {
        return None;
    }
    let start: usize = at + 8;
    let end: usize = start + n as usize;
    let mut v: Vec<u8> = Vec::new();
    let mut i: usize = start;
    while i < end
        invariant
            start <= i <= end <= b@.len(),
            v@ == b@.subrange(start as int, i as int),
        decreases end - i,
    {
        v.push(b[i]);
        i = i + 1;
        assert(v@ =~= b@.subrange(start as int, i as int));
    }
    Some((v, end))
}

/// Load an entry from bytes; `BadInput` where they hold none.
pub fn decode_entry(b: &[u8]) -> (r: LairResult<LairEntry>)
    ensures
        match parse_entry(b@) {
            Some(m) => r matches Ok(e) && entry_model(e) == m,
            None => r == Err::<LairEntry, LairError>(LairError::BadInput),
        },
{
    proof {
        reveal_with_fuel(parse_fields, 5);
    }
    if b.len() == 0 {
        return Err(LairError::BadInput);
    }
    let kind = b[0];
    if kind != KIND_TLS_CERT && kind != KIND_SIGN_ED25519 && kind != KIND_X25519 {
        return Err(LairError::BadInput);
    }
    let (f0, p1) = match read_field(b, 1) {
        Some(x) => x,
        None => {
            return Err(LairError::BadInput);
        },
    };
    let (f1, p2) = match read_field(b, p1) {
        Some(x) => x,
        None => {
            return Err(LairError::BadInput);
        },
    };
    if kind == KIND_SIGN_ED25519 || kind == KIND_X25519 {
        if p2 != b.len() {
            return Err(LairError::BadInput);
        }
        if kind == KIND_SIGN_ED25519 {
            return Ok(
                LairEntry::SignEd25519(
                    EntrySignEd25519 {
                        priv_key: SignEd25519PrivKey::from(f0),
                        pub_key: SignEd25519PubKey::from(f1),
                    },
                ),
            );
        } else {
            return Ok(LairEntry::X25519(EntryX25519 { priv_key: f0, pub_key: f1 }));
        }
    }
    let (f2, p3) = match read_field(b, p2) {
        Some(x) => x,
        None => {
            return Err(LairError::BadInput);
        },
    };
    let (f3, p4) = match read_field(b, p3) {
        Some(x) => x,
        None => {
            return Err(LairError::BadInput);
        },
    };
    if p4 != b.len() {
        return Err(LairError::BadInput);
    }
    match string_from_utf8(f0) {
        Some(sni) => Ok(
            LairEntry::TlsCert(
                EntryTlsCert { sni, priv_key_der: f1, cert_der: f2, cert_digest: f3 },
            ),
        ),
        None => Err(LairError::BadInput),
    }
}

proof fn lemma_parse_field_at(pre: Seq<u8>, s: Seq<u8>, post: Seq<u8>)
    requires
        s.len() <= u64::MAX,
    ensures
        parse_field(pre + field(s) + post, pre.len() as int) == Some::<(Seq<u8>, int)>(
            (s, (pre.len() + 8 + s.len()) as int),
        ),
{
    reveal(parse_field);
    let b = pre + field(s) + post;
    let at = pre.len() as int;
    lemma_u64_round_trip(s.len() as u64);
    assert(u64_at(b, at) == u64_at(u64_le(s.len() as u64), 0));
    assert(b.subrange(at + 8, at + 8 + s.len()) =~= s);
}

proof fn lemma_two_fields(t: u8, k: Seq<u8>, p: Seq<u8>)
    requires
        k.len() <= u64::MAX,
        p.len() <= u64::MAX,
    ensures
        parse_fields(seq![t] + field(k) + field(p), 1, 2) == Some(seq![k, p]),
{
    let b = seq![t] + field(k) + field(p);
    let pre = seq![t];
    lemma_parse_field_at(pre, k, field(p));
    lemma_parse_field_at(pre + field(k), p, Seq::empty());
    assert(b =~= (pre + field(k)) + field(p) + Seq::<u8>::empty());
    let n1: int = 9 + k.len() as int;
    let n2: int = n1 + 8 + p.len();
    assert(n2 == b.len());
    assert(parse_fields(b, n2, 0) == Some(Seq::<Seq<u8>>::empty()));
    assert(parse_fields(b, n1, 1) == Some(seq![p])) by {
        assert(seq![p] + Seq::<Seq<u8>>::empty() =~= seq![p]);
    }
    assert(seq![k] + seq![p] =~= seq![k, p]);
}

proof fn lemma_four_fields(t: u8, u: Seq<u8>, k: Seq<u8>, c: Seq<u8>, d: Seq<u8>)
    requires
        u.len() <= u64::MAX,
        k.len() <= u64::MAX,
        c.len() <= u64::MAX,
        d.len() <= u64::MAX,
    ensures
        parse_fields(seq![t] + field(u) + field(k) + field(c) + field(d), 1, 4) == Some(
            seq![u, k, c, d],
        ),
{
    let pre = seq![t];
    let b = pre + field(u) + field(k) + field(c) + field(d);
    lemma_parse_field_at(pre, u, field(k) + field(c) + field(d));
    assert(b =~= pre + field(u) + (field(k) + field(c) + field(d)));
    lemma_parse_field_at(pre + field(u), k, field(c) + field(d));
    assert(b =~= (pre + field(u)) + field(k) + (field(c) + field(d)));
    lemma_parse_field_at(pre + field(u) + field(k), c, field(d));
    assert(b =~= (pre + field(u) + field(k)) + field(c) + field(d));
    lemma_parse_field_at(pre + field(u) + field(k) + field(c), d, Seq::empty());
    assert(b =~= (pre + field(u) + field(k) + field(c)) + field(d) + Seq::<u8>::empty());
    let n1: int = 9 + u.len() as int;
    let n2: int = n1 + 8 + k.len();
    let n3: int = n2 + 8 + c.len();
    let n4: int = n3 + 8 + d.len();
    assert(n4 == b.len());
    assert(parse_fields(b, n4, 0) == Some(Seq::<Seq<u8>>::empty()));
    assert(parse_fields(b, n3, 1) == Some(seq![d])) by {
        assert(seq![d] + Seq::<Seq<u8>>::empty() =~= seq![d]);
    }
    assert(parse_fields(b, n2, 2) == Some(seq![c, d])) by {
        assert(seq![c] + seq![d] =~= seq![c, d]);
    }
    assert(parse_fields(b, n1, 3) == Some(seq![k, c, d])) by {
        assert(seq![k] + seq![c, d] =~= seq![k, c, d]);
    }
    assert(seq![u] + seq![k, c, d] =~= seq![u, k, c, d]);
}

/// An entry written as bytes and loaded back holds the same material.
pub proof fn lemma_entry_round_trip(m: EntryModel)
    requires
        fields_fit(m),
    ensures
        parse_entry(entry_bytes(m)) == Some(m),
{
    match m {
        EntryModel::TlsCert(sni, k, c, d) => {
            lemma_four_fields(KIND_TLS_CERT, encode_utf8(sni), k, c, d);
            encode_utf8_valid_utf8(sni);
            encode_utf8_decode_utf8(sni);
        },
        EntryModel::SignEd25519(k, p) => {
            lemma_two_fields(KIND_SIGN_ED25519, k, p);
        },
        EntryModel::X25519(k, p) => {
            lemma_two_fields(KIND_X25519, k, p);
        },
    }
}

/// Entry files written for a run of entries read back, file by file, as
/// those same entries: loading them rebuilds the store's material exactly.
pub proof fn lemma_store_files_load_back(entries: Seq<LairEntry>, files: Seq<Seq<u8>>)
    requires
        files.len() == entries.len(),
        forall|i: int| 0 <= i < entries.len() ==> fields_fit(entry_model(#[trigger] entries[i])),
        forall|i: int|
            0 <= i < entries.len() ==> #[trigger] files[i] == entry_bytes(entry_model(entries[i])),
    ensures
        forall|i: int|
            0 <= i < files.len() ==> #[trigger] parse_entry(files[i]) == Some(
                entry_model(entries[i]),
            ),
{
    assert forall|i: int| 0 <= i < files.len() implies #[trigger] parse_entry(files[i]) == Some(
        entry_model(entries[i]),
    ) by {
        assert(files[i] == entry_bytes(entry_model(entries[i])));
        assert(fields_fit(entry_model(entries[i])));
        lemma_entry_round_trip(entry_model(entries[i]));
    }
}

} // verus!
