//! The crypto-erase vault — the SSD solve.
//!
//! Files are encrypted on ingest. Each file gets its own random data key (DEK); DEKs live only inside
//! a per-file `meta` blob sealed under a random per-vault master key (MK); the MK is sealed under a
//! passphrase-derived key (Argon2id) and is never stored in the clear.
//!
//! To shred a file its entry is dropped and the whole vault is re-keyed: a fresh MK, every surviving
//! meta re-sealed under it, and the old wrapped master replaced. Any stale copy of the dropped meta
//! left in flash is then sealed under a dead MK.
//!
//! This module holds the vault's header and every operation on it; reading and writing the header
//! file and the ciphertext blobs is the caller's part.
use crate::crypto::{
    aead_decrypt, aead_encrypt, aes256gcm_open, aes256gcm_seal, argon2_inputs_valid, argon2_params_valid, argon2id_v13,
    b64_decode, b64_encode, base64_decode, base64_encode, derive_kek, is_ascii_alnum, is_base64_char, random_bytes, wipe,
    CryptoError, GCM_MAX_LEN, KEY_LEN, NONCE_LEN,
};
use crate::text::{cat, chars_of, push_char};
use serde::ser::{SerializeMap, Serializer};
use vstd::prelude::*;

verus! {

/// Argon2id memory cost (KiB): 64 MiB.
pub const M_COST: u32 = 65536;
/// Argon2id passes.
pub const T_COST: u32 = 3;
/// Argon2id lanes.
pub const P_COST: u32 = 1;
/// Header format version written by this library.
pub const VERSION: u32 = 1;
/// Length of the random Argon2 salt.
pub const SALT_LEN: usize = 16;
/// Random bytes behind an entry id.
pub const ID_RAND_LEN: usize = 16;

/// Key-derivation settings stored in the header (`salt` is base64).
pub struct Kdf {
    pub alg: String,
    pub salt: String,
    pub m_cost: u32,
    pub t_cost: u32,
    pub p_cost: u32,
}

/// An AEAD output with its nonce, both base64.
pub struct Sealed {
    pub nonce: String,
    pub ct: String,
}

/// One file in the vault: its id, its sealed `{name, dek}` meta, the nonce of its blob and its size.
pub struct Entry {
    pub id: String,
    pub meta: Sealed,
    pub blob_nonce: String,
    pub size: u64,
}

/// The vault header.
pub struct Header {
    pub version: u32,
    pub kdf: Kdf,
    pub wrapped_master: Sealed,
    pub entries: Vec<Entry>,
}

/// A vault rooted at a directory.
pub struct Vault {
    pub root: String,
}

/// Why a vault operation failed.
#[derive(Debug, Clone, Copy, PartialEq, Eq, Structural)]
pub enum VaultError {
    Crypto(CryptoError),
    /// A stored base64 field does not decode.
    BadBase64,
    /// A sealed value's nonce is not 12 bytes.
    BadNonceLength,
    /// The unwrapped master key is not 32 bytes.
    CorruptMasterKey,
    /// A file's data key is not 32 bytes.
    CorruptDataKey,
    /// A blob nonce is not 12 bytes.
    BadBlobNonce,
    /// No entry has the requested id.
    NoSuchEntry,
    /// `init` found an existing header.
    AlreadyExists,
    /// A decrypted meta is not the expected JSON object.
    BadMeta,
    /// The header was written by a newer version than this library reads.
    NewerVersion,
}

impl VaultError {
    pub fn message(&self) -> (s: &'static str)
        ensures
            s@ == match *self {
                VaultError::Crypto(e) => crate::crypto::crypto_message(e),
                VaultError::BadBase64 => "invalid base64 in the vault header"@,
                VaultError::BadNonceLength => "bad nonce length"@,
                VaultError::CorruptMasterKey => "corrupt master key"@,
                VaultError::CorruptDataKey => "corrupt data key"@,
                VaultError::BadBlobNonce => "bad blob nonce"@,
                VaultError::NoSuchEntry => "no such entry"@,
                VaultError::AlreadyExists => "a vault already exists"@,
                VaultError::BadMeta => "corrupt entry metadata"@,
                VaultError::NewerVersion => "this vault was written by a newer secure-delete; upgrade to open it"@,
            },
    {
        match self {
            VaultError::Crypto(e) => e.message(),
            VaultError::BadBase64 => "invalid base64 in the vault header",
            VaultError::BadNonceLength => "bad nonce length",
            VaultError::CorruptMasterKey => "corrupt master key",
            VaultError::CorruptDataKey => "corrupt data key",
            VaultError::BadBlobNonce => "bad blob nonce",
            VaultError::NoSuchEntry => "no such entry",
            VaultError::AlreadyExists => "a vault already exists",
            VaultError::BadMeta => "corrupt entry metadata",
            VaultError::NewerVersion => "this vault was written by a newer secure-delete; upgrade to open it",
        }
    }
}

// ------------------------------------------------------------------------------------------------
// The meta blob: a JSON object `{"name": .., "dek": ..}`.
// ------------------------------------------------------------------------------------------------

/// The bytes `serde_json` writes for the object `{"name": name, "dek": dek}`, keys in that order.
pub uninterp spec fn meta_json(name: Seq<char>, dek: Seq<char>) -> Seq<u8>;

/// The `name` and `dek` string fields `serde_json::from_slice` reads from `bytes`, when `bytes` is
/// a JSON object holding both as strings.
pub uninterp spec fn meta_from_json(bytes: Seq<u8>) -> Option<(Seq<char>, Seq<char>)>;

/// The object `{"name": name, "dek": dek}` written by `serde_json`'s serializer as a map of two
/// string entries, in that order (writing strings into a vector never fails); parsing those bytes
/// gives the two strings back. Each character takes at most six bytes (`\u00XX` escapes) and the
/// object's fixed text twenty.
#[verifier::external_body]
fn meta_to_json(name: &str, dek: &str) -> (r: Vec<u8>)
    ensures
        r@ == meta_json(name@, dek@),
        meta_from_json(r@) == Some((name@, dek@)),
        r@.len() <= 6 * (name@.len() + dek@.len()) + 20,
{
    let mut out: Vec<u8> = Vec::new();
    let mut ser = serde_json::Serializer::new(&mut out);
    if let Ok(mut m) = ser.serialize_map(Some(2)) {
        let _ = m.serialize_entry("name", name);
        let _ = m.serialize_entry("dek", dek);
        let _ = m.end();
    }
    out
}

/// `serde_json::from_slice` into a JSON value, then its `name` and `dek` string fields.
#[verifier::external_body]
fn meta_parse_json(bytes: &[u8]) -> (r: Option<(String, String)>)
    ensures
        match r {
            Some((n, d)) => meta_from_json(bytes@) == Some((n@, d@)),
            None => meta_from_json(bytes@) is None,
        },
{
    let v: serde_json::Value = serde_json::from_slice(bytes).ok()?;
    Some((v.get("name")?.as_str()?.to_string(), v.get("dek")?.as_str()?.to_string()))
}

// ------------------------------------------------------------------------------------------------
// What the header means.
// ------------------------------------------------------------------------------------------------

/// What `unseal` recovers from a sealed value under `key`.
pub open spec fn unseal_spec(key: Seq<u8>, s: Sealed) -> Option<Seq<u8>> {
    match base64_decode(s.nonce@) {
        Some(n) => if n.len() == NONCE_LEN {
            match base64_decode(s.ct@) {
                Some(c) => aes256gcm_open(key, n, c, Seq::empty()),
                None => None,
            }
        } else {
            None
        },
        None => None,
    }
}

/// The key-encryption key that `passphrase` derives under the header's KDF settings.
pub open spec fn kek_spec(kdf: Kdf, passphrase: Seq<u8>) -> Option<Seq<u8>> {
    match base64_decode(kdf.salt@) {
        Some(salt) => if argon2_params_valid(kdf.m_cost, kdf.t_cost, kdf.p_cost) && argon2_inputs_valid(passphrase, salt) {
            Some(argon2id_v13(passphrase, salt, kdf.m_cost, kdf.t_cost, kdf.p_cost))
        } else {
            None
        },
        None => None,
    }
}

/// The master key that `passphrase` unlocks in `h`, if any.
pub open spec fn master_key(h: Header, passphrase: Seq<u8>) -> Option<Seq<u8>> {
    if h.version > VERSION {
        None
    } else {
        master_key_of(h, passphrase)
    }
}

/// The master key that `passphrase` unwraps from `h`'s KDF settings and wrapped master, whatever
/// the header's version.
pub open spec fn master_key_of(h: Header, passphrase: Seq<u8>) -> Option<Seq<u8>> {
    match kek_spec(h.kdf, passphrase) {
        Some(kek) => match unseal_spec(kek, h.wrapped_master) {
            Some(mk) => if mk.len() == KEY_LEN { Some(mk) } else { None },
            None => None,
        },
        None => None,
    }
}

/// `i` is the first entry of `es` whose id is `id`.
pub open spec fn first_with_id(es: Seq<Entry>, id: Seq<char>, i: int) -> bool {
    &&& 0 <= i < es.len()
    &&& es[i].id@ == id
    &&& forall|j: int| 0 <= j < i ==> es[j].id@ != id
}

/// Some entry of `es` has id `id`.
pub open spec fn has_id(es: Seq<Entry>, id: Seq<char>) -> bool {
    exists|i: int| 0 <= i < es.len() && es[i].id@ == id
}

/// The `(name, dek)` pair sealed in an entry's meta under master key `mk`.
pub open spec fn entry_meta(mk: Seq<u8>, e: Entry) -> Option<(Seq<char>, Seq<char>)> {
    match unseal_spec(mk, e.meta) {
        Some(p) => meta_from_json(p),
        None => None,
    }
}

/// The name and the 32-byte data key of an entry under master key `mk`.
pub open spec fn entry_key(mk: Seq<u8>, e: Entry) -> Option<(Seq<char>, Seq<u8>)> {
    match entry_meta(mk, e) {
        Some((name, dek_b64)) => match base64_decode(dek_b64) {
            Some(dek) => if dek.len() == KEY_LEN { Some((name, dek)) } else { None },
            None => None,
        },
        None => None,
    }
}

/// The file name and contents an entry yields from ciphertext `blob`.
pub open spec fn entry_data(mk: Seq<u8>, e: Entry, blob: Seq<u8>) -> Option<(Seq<char>, Seq<u8>)> {
    match entry_key(mk, e) {
        Some((name, dek)) => match base64_decode(e.blob_nonce@) {
            Some(bn) => if bn.len() == NONCE_LEN {
                match aes256gcm_open(dek, bn, blob, Seq::empty()) {
                    Some(data) => Some((name, data)),
                    None => None,
                }
            } else {
                None
            },
            None => None,
        },
        None => None,
    }
}

/// What opening entry `id` of `h` with `passphrase` yields from ciphertext `blob`.
pub open spec fn opened(h: Header, passphrase: Seq<u8>, id: Seq<char>, blob: Seq<u8>) -> Option<(Seq<char>, Seq<u8>)> {
    match master_key(h, passphrase) {
        Some(mk) => if has_id(h.entries@, id) {
            entry_data(mk, h.entries@[choose|i: int| first_with_id(h.entries@, id, i)], blob)
        } else {
            None
        },
        None => None,
    }
}

/// The error `unseal` reports for a sealed value under `key`; `None` when it opens.
pub open spec fn unseal_error(key: Seq<u8>, s: Sealed) -> Option<VaultError> {
    match base64_decode(s.nonce@) {
        None => Some(VaultError::BadBase64),
        Some(n) => if n.len() != NONCE_LEN {
            Some(VaultError::BadNonceLength)
        } else {
            match base64_decode(s.ct@) {
                None => Some(VaultError::BadBase64),
                Some(c) => if aes256gcm_open(key, n, c, Seq::empty()) is None {
                    Some(VaultError::Crypto(CryptoError::Decrypt))
                } else {
                    None
                },
            }
        },
    }
}

/// The error deriving the key-encryption key reports; `None` when it succeeds.
pub open spec fn kdf_error(kdf: Kdf, passphrase: Seq<u8>) -> Option<VaultError> {
    match base64_decode(kdf.salt@) {
        None => Some(VaultError::BadBase64),
        Some(salt) => if !argon2_params_valid(kdf.m_cost, kdf.t_cost, kdf.p_cost) {
            Some(VaultError::Crypto(CryptoError::KdfParams))
        } else if !argon2_inputs_valid(passphrase, salt) {
            Some(VaultError::Crypto(CryptoError::KdfFailed))
        } else {
            None
        },
    }
}

/// The error unlocking the master key of `h` with `passphrase` reports; `None` when it unlocks.
pub open spec fn master_error(h: Header, passphrase: Seq<u8>) -> Option<VaultError> {
    if h.version > VERSION {
        Some(VaultError::NewerVersion)
    } else {
        master_error_of(h, passphrase)
    }
}

/// The error unwrapping the master key of `h` reports, whatever the header's version.
pub open spec fn master_error_of(h: Header, passphrase: Seq<u8>) -> Option<VaultError> {
    match kdf_error(h.kdf, passphrase) {
        Some(e) => Some(e),
        None => {
            let kek = kek_spec(h.kdf, passphrase).unwrap();
            match unseal_error(kek, h.wrapped_master) {
                Some(e) => Some(e),
                None => if unseal_spec(kek, h.wrapped_master).unwrap().len() != KEY_LEN {
                    Some(VaultError::CorruptMasterKey)
                } else {
                    None
                },
            }
        },
    }
}

/// The error reading an entry's meta under `mk` reports: unsealing it, or a plaintext that is not
/// the `{name, dek}` object.
pub open spec fn meta_error(mk: Seq<u8>, e: Entry) -> Option<VaultError> {
    match unseal_error(mk, e.meta) {
        Some(err) => Some(err),
        None => if meta_from_json(unseal_spec(mk, e.meta).unwrap()) is None { Some(VaultError::BadMeta) } else { None },
    }
}

/// The error reading an entry's name and data key under `mk` reports.
pub open spec fn entry_key_error(mk: Seq<u8>, e: Entry) -> Option<VaultError> {
    match meta_error(mk, e) {
        Some(err) => Some(err),
        None => match base64_decode(entry_meta(mk, e).unwrap().1) {
            None => Some(VaultError::BadBase64),
            Some(dek) => if dek.len() != KEY_LEN { Some(VaultError::CorruptDataKey) } else { None },
        },
    }
}

/// The first error among the metas of `es` under `mk`, in order.
pub open spec fn first_meta_error(mk: Seq<u8>, es: Seq<Entry>) -> Option<VaultError>
    decreases es.len(),
{
    if es.len() == 0 {
        None
    } else {
        match meta_error(mk, es[0]) {
            Some(e) => Some(e),
            None => first_meta_error(mk, es.drop_first()),
        }
    }
}

/// The first error unsealing the metas of `es` under `mk`, in order.
pub open spec fn first_unseal_error(mk: Seq<u8>, es: Seq<Entry>) -> Option<VaultError>
    decreases es.len(),
{
    if es.len() == 0 {
        None
    } else {
        match unseal_error(mk, es[0].meta) {
            Some(e) => Some(e),
            None => first_unseal_error(mk, es.drop_first()),
        }
    }
}

/// The error opening entry `id` of `h` with `passphrase` reports: unlocking the master key, no
/// such entry, or reading the first such entry's name and data key.
pub open spec fn open_error(h: Header, passphrase: Seq<u8>, id: Seq<char>) -> Option<VaultError> {
    match master_error(h, passphrase) {
        Some(e) => Some(e),
        None => if !has_id(h.entries@, id) {
            Some(VaultError::NoSuchEntry)
        } else {
            entry_key_error(master_key(h, passphrase).unwrap(), h.entries@[choose|i: int| first_with_id(h.entries@, id, i)])
        },
    }
}

/// The error listing `h` with `passphrase` reports: unlocking the master key, or the first meta
/// that does not read.
pub open spec fn list_error(h: Header, passphrase: Seq<u8>) -> Option<VaultError> {
    match master_error(h, passphrase) {
        Some(e) => Some(e),
        None => first_meta_error(master_key(h, passphrase).unwrap(), h.entries@),
    }
}

/// The error decrypting `blob` with an opened entry's key and nonce reports.
pub open spec fn blob_error(dek: Seq<u8>, blob_nonce: Seq<char>, blob: Seq<u8>) -> Option<VaultError> {
    if dek.len() != KEY_LEN {
        Some(VaultError::CorruptDataKey)
    } else {
        match base64_decode(blob_nonce) {
            None => Some(VaultError::BadBase64),
            Some(bn) => if bn.len() != NONCE_LEN {
                Some(VaultError::BadBlobNonce)
            } else if aes256gcm_open(dek, bn, blob, Seq::empty()) is None {
                Some(VaultError::Crypto(CryptoError::Decrypt))
            } else {
                None
            },
        }
    }
}

/// The entries that survive shredding `id`: all but the first with that id.
pub open spec fn shred_survivors(h: Header, id: Seq<char>) -> Seq<Entry> {
    h.entries@.remove(choose|i: int| first_with_id(h.entries@, id, i))
}

/// Some meta of `es` opens under `mk` to a plaintext too long for AES-GCM to seal again.
pub open spec fn has_oversized_meta(mk: Seq<u8>, es: Seq<Entry>) -> bool {
    exists|k: int| 0 <= k < es.len() && (#[trigger] unseal_spec(mk, es[k].meta)) is Some
        && unseal_spec(mk, es[k].meta).unwrap().len() > GCM_MAX_LEN
}

/// The error shredding `id` of `h` with `passphrase` reports before any fresh key is drawn:
/// unlocking the master key, no such entry, or the first surviving meta that does not unseal.
pub open spec fn shred_error(h: Header, passphrase: Seq<u8>, id: Seq<char>) -> Option<VaultError> {
    match master_error(h, passphrase) {
        Some(e) => Some(e),
        None => if !has_id(h.entries@, id) {
            Some(VaultError::NoSuchEntry)
        } else {
            first_unseal_error(master_key(h, passphrase).unwrap(), shred_survivors(h, id))
        },
    }
}

/// The error re-keying `h` from `old_pass` reports before any fresh key is drawn: unlocking the
/// master key, or the first meta that does not unseal.
pub open spec fn rekey_error(h: Header, old_pass: Seq<u8>) -> Option<VaultError> {
    match master_error(h, old_pass) {
        Some(e) => Some(e),
        None => first_unseal_error(master_key(h, old_pass).unwrap(), h.entries@),
    }
}

/// Entries with the same sealed metas, in order, have the same first unseal error.
proof fn lemma_first_unseal_error_same(mk: Seq<u8>, a: Seq<Entry>, b: Seq<Entry>)
    requires
        a.len() == b.len(),
        forall|k: int| 0 <= k < a.len() ==> (#[trigger] a[k]).meta.nonce@ == b[k].meta.nonce@ && a[k].meta.ct@ == b[k].meta.ct@,
    ensures
        first_unseal_error(mk, a) == first_unseal_error(mk, b),
    decreases a.len(),
{
    if a.len() > 0 {
        assert(a[0].meta.nonce@ == b[0].meta.nonce@);
        assert forall|k: int| 0 <= k < a.len() - 1 implies (#[trigger] a.drop_first()[k]).meta.nonce@ == b.drop_first()[k].meta.nonce@
            && a.drop_first()[k].meta.ct@ == b.drop_first()[k].meta.ct@ by {
            assert(a.drop_first()[k] == a[k + 1]);
            assert(b.drop_first()[k] == b[k + 1]);
        }
        lemma_first_unseal_error_same(mk, a.drop_first(), b.drop_first());
    }
}

/// With no error among the first `i` metas, the first error of `es` is the first of the rest.
proof fn lemma_first_meta_error_skip(mk: Seq<u8>, es: Seq<Entry>, i: int)
    requires
        0 <= i <= es.len(),
        forall|k: int| 0 <= k < i ==> meta_error(mk, #[trigger] es[k]) is None,
    ensures
        first_meta_error(mk, es) == first_meta_error(mk, es.subrange(i, es.len() as int)),
    decreases i,
{
    if i == 0 {
        assert(es.subrange(0, es.len() as int) =~= es);
    } else {
        let rest = es.drop_first();
        assert forall|k: int| 0 <= k < i - 1 implies meta_error(mk, #[trigger] rest[k]) is None by {
            assert(rest[k] == es[k + 1]);
        }
        lemma_first_meta_error_skip(mk, rest, i - 1);
        assert(rest.subrange(i - 1, rest.len() as int) =~= es.subrange(i, es.len() as int));
        assert(meta_error(mk, es[0]) is None);
    }
}

/// With no error among the first `i` metas, the first unseal error of `es` is the first of the rest.
proof fn lemma_first_unseal_error_skip(mk: Seq<u8>, es: Seq<Entry>, i: int)
    requires
        0 <= i <= es.len(),
        forall|k: int| 0 <= k < i ==> unseal_error(mk, (#[trigger] es[k]).meta) is None,
    ensures
        first_unseal_error(mk, es) == first_unseal_error(mk, es.subrange(i, es.len() as int)),
    decreases i,
{
    if i == 0 {
        assert(es.subrange(0, es.len() as int) =~= es);
    } else {
        let rest = es.drop_first();
        assert forall|k: int| 0 <= k < i - 1 implies unseal_error(mk, (#[trigger] rest[k]).meta) is None by {
            assert(rest[k] == es[k + 1]);
        }
        lemma_first_unseal_error_skip(mk, rest, i - 1);
        assert(rest.subrange(i - 1, rest.len() as int) =~= es.subrange(i, es.len() as int));
        assert(unseal_error(mk, es[0].meta) is None);
    }
}

/// An entry's fields other than its sealed meta.
pub open spec fn same_place(a: Entry, b: Entry) -> bool {
    a.id@ == b.id@ && a.blob_nonce@ == b.blob_nonce@ && a.size == b.size
}

/// The characters an entry id keeps from the base64 text it is cut from.
pub open spec fn id_keeps(c: char) -> bool {
    c != '/' && c != '+' && c != '='
}

/// `s` without `/`, `+` and `=`.
pub open spec fn id_chars(s: Seq<char>) -> Seq<char>
    decreases s.len(),
{
    if s.len() == 0 {
        s
    } else if id_keeps(s.last()) {
        id_chars(s.drop_last()).push(s.last())
    } else {
        id_chars(s.drop_last())
    }
}

/// `base` joined with the relative or absolute path `name`, `/`-separated.
pub open spec fn join_spec(base: Seq<char>, name: Seq<char>) -> Seq<char> {
    if name.len() > 0 && name[0] == '/' {
        name
    } else if base.len() == 0 {
        name
    } else if base.last() == '/' {
        base + name
    } else {
        base + seq!['/'] + name
    }
}

proof fn lemma_first_unique(es: Seq<Entry>, id: Seq<char>, i: int, j: int)
    requires
        first_with_id(es, id, i),
        first_with_id(es, id, j),
    ensures
        i == j,
{
}

proof fn lemma_has_first(es: Seq<Entry>, id: Seq<char>)
    requires
        has_id(es, id),
    ensures
        exists|i: int| first_with_id(es, id, i),
    decreases es.len(),
{
    if es[0].id@ == id {
        assert(first_with_id(es, id, 0));
    } else {
        let rest = es.drop_first();
        let k = choose|k: int| 0 <= k < es.len() && es[k].id@ == id;
        assert(rest[k - 1].id@ == id);
        lemma_has_first(rest, id);
        let i = choose|i: int| first_with_id(rest, id, i);
        assert forall|j: int| 0 <= j < i + 1 implies es[j].id@ != id by {
            if j > 0 {
                assert(es[j] == rest[j - 1]);
            }
        }
        assert(first_with_id(es, id, i + 1));
    }
}

// ------------------------------------------------------------------------------------------------
// Sealing.
// ------------------------------------------------------------------------------------------------

fn empty_aad() -> (v: Vec<u8>)
    ensures
        v@ == Seq::<u8>::empty(),
{
    Vec::new()
}

/// Copy of a string.
fn dup(s: &String) -> (r: String)
    ensures
        r@ == s@,
{
    s.clone()
}

impl Sealed {
    /// A copy of this sealed value.
    pub fn duplicate(&self) -> (r: Sealed)
        ensures
            r.nonce@ == self.nonce@,
            r.ct@ == self.ct@,
    {
        Sealed { nonce: dup(&self.nonce), ct: dup(&self.ct) }
    }
}

impl Entry {
    /// A copy of this entry.
    pub fn duplicate(&self) -> (r: Entry)
        ensures
            same_place(r, *self),
            r.meta.nonce@ == self.meta.nonce@,
            r.meta.ct@ == self.meta.ct@,
    {
        Entry { id: dup(&self.id), meta: self.meta.duplicate(), blob_nonce: dup(&self.blob_nonce), size: self.size }
    }
}

impl Vault {
    /// A vault rooted at `root`.
    pub fn new(root: String) -> (v: Vault)
        ensures
            v.root@ == root@,
    {
        Vault { root }
    }

    /// `root/header.json`.
    pub fn header_path(&self) -> (p: String)
        ensures
            p@ == join_spec(self.root@, "header.json"@),
    {
        join_path(&self.root, "header.json")
    }

    /// `root/blobs`.
    pub fn blobs_dir(&self) -> (p: String)
        ensures
            p@ == join_spec(self.root@, "blobs"@),
    {
        join_path(&self.root, "blobs")
    }

    /// `root/blobs/<id>.bin`.
    pub fn blob_path(&self, id: &str) -> (p: String)
        ensures
            p@ == join_spec(join_spec(self.root@, "blobs"@), id@ + ".bin"@),
    {
        let dir = self.blobs_dir();
        let name = cat(id, ".bin");
        join_path(&dir, name.as_str())
    }

    /// Seal `plaintext` under `key` with the given nonce: both base64, the ciphertext with its tag.
    pub fn seal_with(key: &[u8], nonce: &[u8], plaintext: &[u8]) -> (r: Result<Sealed, VaultError>)
        requires
            key@.len() == KEY_LEN,
            nonce@.len() == NONCE_LEN,
        ensures
            r is Ok <==> plaintext@.len() <= GCM_MAX_LEN,
            r matches Ok(s) ==> s.nonce@ == base64_encode(nonce@)
                && s.ct@ == base64_encode(aes256gcm_seal(key@, nonce@, plaintext@, Seq::empty())),
            r matches Ok(s) ==> unseal_spec(key@, s) == Some(plaintext@),
            r matches Err(e) ==> e == VaultError::Crypto(CryptoError::Encrypt),
    {
        let aad = empty_aad();
        let ct = match aead_encrypt(key, nonce, plaintext, aad.as_slice()) {
            Ok(c) => c,
            Err(e) => return Err(VaultError::Crypto(e)),
        };
        Ok(Sealed { nonce: b64_encode(nonce), ct: b64_encode(ct.as_slice()) })
    }

    /// Seal `plaintext` under `key` with a fresh random nonce (see [`Vault::seal_with`]).
    pub fn seal(key: &[u8], plaintext: &[u8]) -> (r: Result<Sealed, VaultError>)
        requires
            key@.len() == KEY_LEN,
        ensures
            r matches Ok(s) ==> unseal_spec(key@, s) == Some(plaintext@),
            r matches Ok(s) ==> exists|nonce: Seq<u8>| nonce.len() == NONCE_LEN
                && s.nonce@ == #[trigger] base64_encode(nonce)
                && s.ct@ == base64_encode(aes256gcm_seal(key@, nonce, plaintext@, Seq::empty())),
            plaintext@.len() > GCM_MAX_LEN ==> r is Err,
            r matches Err(e) ==> e == VaultError::Crypto(CryptoError::Rng)
                || (e == VaultError::Crypto(CryptoError::Encrypt) && plaintext@.len() > GCM_MAX_LEN),
    {
        let nonce = match random_bytes(NONCE_LEN) {
            Ok(n) => n,
            Err(e) => return Err(VaultError::Crypto(e)),
        };
        Self::seal_with(key, nonce.as_slice(), plaintext)
    }

    /// Recover the plaintext of a sealed value.
    pub fn unseal(key: &[u8], s: &Sealed) -> (r: Result<Vec<u8>, VaultError>)
        requires
            key@.len() == KEY_LEN,
        ensures
            match r {
                Ok(p) => unseal_spec(key@, *s) == Some(p@),
                Err(e) => unseal_spec(key@, *s) is None && (e == VaultError::BadBase64
                    || e == VaultError::BadNonceLength || e == VaultError::Crypto(CryptoError::Decrypt)),
            },
            r matches Err(VaultError::BadBase64) <==> (base64_decode(s.nonce@) is None
                || (base64_decode(s.nonce@).unwrap().len() == NONCE_LEN && base64_decode(s.ct@) is None)),
            r matches Err(VaultError::BadNonceLength) <==> (base64_decode(s.nonce@) matches Some(n) && n.len() != NONCE_LEN),
            match r {
                Ok(_) => unseal_error(key@, *s) is None,
                Err(e) => unseal_error(key@, *s) == Some(e),
            },
    {
        let nonce = match b64_decode(s.nonce.as_str()) {
            Ok(n) => n,
            Err(_) => return Err(VaultError::BadBase64),
        };
        if nonce.len() != NONCE_LEN {
            return Err(VaultError::BadNonceLength);
        }
        let ct = match b64_decode(s.ct.as_str()) {
            Ok(c) => c,
            Err(_) => return Err(VaultError::BadBase64),
        };
        let aad = empty_aad();
        match aead_decrypt(key, nonce.as_slice(), ct.as_slice(), aad.as_slice()) {
            Ok(p) => Ok(p),
            Err(e) => Err(VaultError::Crypto(e)),
        }
    }

    /// The key-encryption key `passphrase` derives under `kdf`.
    fn derive_for(kdf: &Kdf, passphrase: &[u8]) -> (r: Result<Vec<u8>, VaultError>)
        ensures
            match r {
                Ok(k) => kek_spec(*kdf, passphrase@) == Some(k@) && k@.len() == KEY_LEN,
                Err(_) => kek_spec(*kdf, passphrase@) is None,
            },
            r matches Err(e) ==> match base64_decode(kdf.salt@) {
                None => e == VaultError::BadBase64,
                Some(_) => if argon2_params_valid(kdf.m_cost, kdf.t_cost, kdf.p_cost) {
                    e == VaultError::Crypto(CryptoError::KdfFailed)
                } else {
                    e == VaultError::Crypto(CryptoError::KdfParams)
                },
            },
            match r {
                Ok(_) => kdf_error(*kdf, passphrase@) is None,
                Err(e) => kdf_error(*kdf, passphrase@) == Some(e),
            },
    {
        let salt = match b64_decode(kdf.salt.as_str()) {
            Ok(s) => s,
            Err(_) => return Err(VaultError::BadBase64),
        };
        match derive_kek(passphrase, salt.as_slice(), kdf.m_cost, kdf.t_cost, kdf.p_cost) {
            Ok(k) => Ok(k),
            Err(e) => Err(VaultError::Crypto(e)),
        }
    }

    /// Unlock the master key of `h` with `passphrase`.
    pub fn open_master(h: &Header, passphrase: &[u8]) -> (r: Result<Vec<u8>, VaultError>)
        ensures
            match r {
                Ok(mk) => master_key(*h, passphrase@) == Some(mk@),
                Err(_) => master_key(*h, passphrase@) is None,
            },
            r matches Err(e) ==> e != VaultError::NoSuchEntry,
            match r {
                Ok(_) => master_error(*h, passphrase@) is None,
                Err(e) => master_error(*h, passphrase@) == Some(e),
            },
    {
        if h.version > VERSION {
            return Err(VaultError::NewerVersion);
        }
        let mut kek = Self::derive_for(&h.kdf, passphrase)?;
        let r = Self::unseal(kek.as_slice(), &h.wrapped_master);
        wipe(&mut kek);
        let mut mk = r?;
        if mk.len() != KEY_LEN {
            wipe(&mut mk);
            return Err(VaultError::CorruptMasterKey);
        }
        Ok(mk)
    }
}

/// `base` joined with `name`.
pub fn join_path(base: &String, name: &str) -> (p: String)
    ensures
        p@ == join_spec(base@, name@),
{
    let nm = chars_of(name);
    if nm.len() > 0 && nm[0] == '/' {
        return String::from_str(name);
    }
    let b = chars_of(base.as_str());
    if b.len() == 0 {
        String::from_str(name)
    } else if b[b.len() - 1] == '/' {
        cat(base.as_str(), name)
    } else {
        let with_sep = cat(base.as_str(), "/");
        proof {
            reveal_strlit("/");
            assert(with_sep@ =~= base@ + seq!['/']);
        }
        cat(with_sep.as_str(), name)
    }
}


// ------------------------------------------------------------------------------------------------
// Header operations.
// ------------------------------------------------------------------------------------------------

/// The name a file is stored under: its file name, or `file` when it has none.
pub open spec fn stored_name(file_name: Option<&str>) -> Seq<char> {
    match file_name {
        Some(n) => n@,
        None => "file"@,
    }
}

/// `a` and `b` agree on everything, the sealed meta included.
pub open spec fn same_entry(a: Entry, b: Entry) -> bool {
    same_place(a, b) && a.meta.nonce@ == b.meta.nonce@ && a.meta.ct@ == b.meta.ct@
}

/// Index into the old entry list of position `k` of the list without entry `pos`.
pub open spec fn skip_index(k: int, pos: int) -> int {
    if k < pos { k } else { k + 1 }
}

/// `new` holds the entries `old` lists (with `pos` left out when it is `Some`), in order, each
/// re-sealed so that `new_mk` opens to the same meta plaintext as `old_mk` did.
pub open spec fn resealed(old: Seq<Entry>, old_mk: Seq<u8>, new: Seq<Entry>, new_mk: Seq<u8>, pos: Option<int>) -> bool {
    let n = match pos { Some(_) => old.len() - 1, None => old.len() as int };
    let src = |k: int| match pos { Some(p) => skip_index(k, p), None => k };
    &&& new.len() == n
    &&& forall|k: int| 0 <= k < n ==> #[trigger] same_place(new[k], old[src(k)])
    &&& forall|k: int| 0 <= k < n ==> #[trigger] unseal_spec(new_mk, new[k].meta) == unseal_spec(old_mk, old[src(k)].meta)
        && unseal_spec(new_mk, new[k].meta) is Some
}

/// What shredding entry `id` of `old` with `passphrase` turned it into: the first entry with that id
/// dropped, every other entry kept in order and re-sealed under a fresh master key that the same
/// passphrase opens.
pub open spec fn shredded(old: Header, new: Header, passphrase: Seq<u8>, id: Seq<char>) -> bool {
    &&& master_key(old, passphrase) is Some
    &&& master_key(new, passphrase) is Some
    &&& new.version == old.version
    &&& new.kdf == old.kdf
    &&& exists|pos: int| first_with_id(old.entries@, id, pos)
        && resealed(old.entries@, master_key(old, passphrase).unwrap(), new.entries@,
            master_key(new, passphrase).unwrap(), Some(pos))
}

/// What re-keying `old` from `old_pass` to `new_pass` turned it into: fresh KDF settings and master
/// key, every entry kept in order and re-sealed.
pub open spec fn rekeyed(old: Header, old_pass: Seq<u8>, new: Header, new_pass: Seq<u8>) -> bool {
    &&& master_key(old, old_pass) is Some
    &&& master_key(new, new_pass) is Some
    &&& new.version == old.version
    &&& new.kdf.alg@ == "argon2id"@
    &&& new.kdf.m_cost == M_COST && new.kdf.t_cost == T_COST && new.kdf.p_cost == P_COST
    &&& resealed(old.entries@, master_key(old, old_pass).unwrap(), new.entries@,
            master_key(new, new_pass).unwrap(), None)
}

/// `new` is `old` shredded of `id` (see [`shredded`]) with fresh master key `new_mk`, wrapped with
/// `wrap_nonce` under the passphrase's key, and the survivors' metas sealed with `nonces`, in order.
pub open spec fn shredded_with(old: Header, new: Header, passphrase: Seq<u8>, id: Seq<char>, new_mk: Seq<u8>,
    nonces: Seq<Seq<u8>>, wrap_nonce: Seq<u8>) -> bool {
    &&& shredded(old, new, passphrase, id)
    &&& master_key(new, passphrase) == Some(new_mk)
    &&& sealed_as(new.wrapped_master, kek_spec(old.kdf, passphrase).unwrap(), wrap_nonce, new_mk)
    &&& forall|k: int| 0 <= k < new.entries@.len() ==> sealed_as((#[trigger] new.entries@[k]).meta, new_mk, nonces[k],
        unseal_spec(master_key(old, passphrase).unwrap(), shred_survivors(old, id)[k].meta).unwrap())
}

/// `new` is `old` re-keyed (see [`rekeyed`]) with salt `salt`, fresh master key `new_mk` wrapped
/// with `wrap_nonce`, and every meta sealed with `nonces`, in order.
pub open spec fn rekeyed_with(old: Header, old_pass: Seq<u8>, new: Header, new_pass: Seq<u8>, salt: Seq<u8>,
    new_mk: Seq<u8>, nonces: Seq<Seq<u8>>, wrap_nonce: Seq<u8>) -> bool {
    &&& rekeyed(old, old_pass, new, new_pass)
    &&& new.kdf.salt@ == base64_encode(salt)
    &&& master_key(new, new_pass) == Some(new_mk)
    &&& sealed_as(new.wrapped_master, kek_spec(new.kdf, new_pass).unwrap(), wrap_nonce, new_mk)
    &&& forall|k: int| 0 <= k < new.entries@.len() ==> sealed_as((#[trigger] new.entries@[k]).meta, new_mk, nonces[k],
        unseal_spec(master_key(old, old_pass).unwrap(), old.entries@[k].meta).unwrap())
}

/// `h` is a fresh vault header for `passphrase`: current version, the standard Argon2id settings
/// with salt `salt`, no entries, and master key `mk` wrapped with `nonce` under the passphrase's key.
pub open spec fn initialized_with(h: Header, passphrase: Seq<u8>, salt: Seq<u8>, mk: Seq<u8>, nonce: Seq<u8>) -> bool {
    &&& h.version == VERSION
    &&& h.kdf.alg@ == "argon2id"@
    &&& h.kdf.m_cost == M_COST && h.kdf.t_cost == T_COST && h.kdf.p_cost == P_COST
    &&& h.kdf.salt@ == base64_encode(salt)
    &&& h.entries@.len() == 0
    &&& master_key(h, passphrase) == Some(mk)
    &&& sealed_as(h.wrapped_master, kek_spec(h.kdf, passphrase).unwrap(), nonce, mk)
}

/// What a decrypted entry listing shows: id, stored name and size.
pub open spec fn listed(mk: Seq<u8>, e: Entry, row: (String, String, u64)) -> bool {
    &&& row.0@ == e.id@
    &&& entry_meta(mk, e) matches Some((name, _)) && row.1@ == name
    &&& row.2 == e.size
}

/// `new` is `old` with one entry appended, the rest unchanged: id `id`, size `data.len()`, and a
/// meta and blob that the master key `passphrase` unlocks open to `name` and `data`.
pub open spec fn added(old: Header, new: Header, passphrase: Seq<u8>, name: Seq<char>, data: Seq<u8>, id: Seq<char>,
    blob: Seq<u8>) -> bool {
    &&& master_key(old, passphrase) is Some
    &&& new.version == old.version
    &&& new.kdf == old.kdf
    &&& new.wrapped_master == old.wrapped_master
    &&& new.entries@.len() == old.entries@.len() + 1
    &&& new.entries@.subrange(0, old.entries@.len() as int) == old.entries@
    &&& new.entries@.last().id@ == id
    &&& new.entries@.last().size == data.len()
    &&& entry_data(master_key(old, passphrase).unwrap(), new.entries@.last(), blob) == Some((name, data))
}

/// Listing a vault after an add shows what listing it before showed, then the new entry's id, name
/// and size: if `rows` lists `new`, its first rows list `old` and its last row is the new entry.
pub proof fn lemma_add_then_list(old: Header, new: Header, passphrase: Seq<u8>, name: Seq<char>, data: Seq<u8>,
    id: Seq<char>, blob: Seq<u8>, rows: Seq<(String, String, u64)>)
    requires
        added(old, new, passphrase, name, data, id, blob),
        rows.len() == new.entries@.len(),
        forall|k: int| 0 <= k < rows.len() ==> listed(master_key(new, passphrase).unwrap(), new.entries@[k], #[trigger] rows[k]),
    ensures
        master_key(new, passphrase) == master_key(old, passphrase),
        rows.len() == old.entries@.len() + 1,
        forall|k: int| 0 <= k < old.entries@.len() ==> listed(master_key(old, passphrase).unwrap(), old.entries@[k], #[trigger] rows[k]),
        rows.last().0@ == id,
        rows.last().1@ == name,
        rows.last().2 == data.len(),
{
    let n = old.entries@.len() as int;
    assert forall|k: int| 0 <= k < n implies listed(master_key(old, passphrase).unwrap(), old.entries@[k], #[trigger] rows[k]) by {
        assert(new.entries@.subrange(0, n)[k] == new.entries@[k]);
        assert(listed(master_key(new, passphrase).unwrap(), new.entries@[k], rows[k]));
    }
    assert(listed(master_key(new, passphrase).unwrap(), new.entries@[n], rows[n]));
}

/// The characters of `s` without `/`, `+` and `=`.
fn strip_id_chars(s: &str) -> (r: String)
    ensures
        r@ == id_chars(s@),
{
    let cs = chars_of(s);
    let mut out = String::new();
    let mut i: usize = 0;
    while i < cs.len()
        invariant
            i <= cs@.len(),
            cs@ == s@,
            out@ == id_chars(cs@.subrange(0, i as int)),
        decreases cs.len() - i,
    {
        let c = cs[i];
        proof {
            assert(cs@.subrange(0, i + 1).drop_last() =~= cs@.subrange(0, i as int));
        }
        if c != '/' && c != '+' && c != '=' {
            push_char(&mut out, c);
        }
        i = i + 1;
    }
    proof {
        assert(cs@.subrange(0, cs@.len() as int) =~= cs@);
    }
    out
}

/// Cutting `/`, `+` and `=` out of base64 text leaves ASCII letters and digits only.
proof fn lemma_id_chars_alnum(s: Seq<char>)
    requires
        forall|k: int| 0 <= k < s.len() ==> is_base64_char(#[trigger] s[k]),
    ensures
        forall|k: int| 0 <= k < id_chars(s).len() ==> is_ascii_alnum(#[trigger] id_chars(s)[k]),
    decreases s.len(),
{
    if s.len() > 0 {
        assert(is_base64_char(s[s.len() - 1]));
        assert forall|k: int| 0 <= k < s.drop_last().len() implies is_base64_char(#[trigger] s.drop_last()[k]) by {
            assert(s.drop_last()[k] == s[k]);
        }
        lemma_id_chars_alnum(s.drop_last());
        let r = id_chars(s.drop_last());
        if id_keeps(s.last()) {
            assert forall|k: int| 0 <= k < id_chars(s).len() implies is_ascii_alnum(#[trigger] id_chars(s)[k]) by {
                if k < r.len() {
                    assert(id_chars(s)[k] == r[k]);
                }
            }
        }
    }
}

/// An entry id from its random bytes: their base64 with `/`, `+` and `=` removed, so ASCII
/// letters and digits only.
fn id_from_raw(raw: &[u8]) -> (id: String)
    ensures
        id@ == id_chars(base64_encode(raw@)),
        forall|k: int| 0 <= k < id@.len() ==> is_ascii_alnum(#[trigger] id@[k]),
{
    let text = b64_encode(raw);
    let id = strip_id_chars(text.as_str());
    proof {
        lemma_id_chars_alnum(text@);
    }
    id
}

/// Position of the first entry whose id is `id`.
fn find_first(es: &Vec<Entry>, id: &str) -> (r: Option<usize>)
    ensures
        match r {
            Some(i) => first_with_id(es@, id@, i as int),
            None => !has_id(es@, id@),
        },
{
    let target = String::from_str(id);
    let mut i: usize = 0;
    while i < es.len()
        invariant
            i <= es@.len(),
            target@ == id@,
            forall|j: int| 0 <= j < i ==> es@[j].id@ != id@,
        decreases es.len() - i,
    {
        if es[i].id == target {
            return Some(i);
        }
        i = i + 1;
    }
    None
}

/// Index into the source list of position `k` of a copy that leaves out `skip`.
pub open spec fn source_index(k: int, skip: Option<usize>) -> int {
    match skip {
        Some(p) => skip_index(k, p as int),
        None => k,
    }
}

/// Copies of the entries of `es`, leaving out position `skip` when it is `Some`.
fn copy_entries(es: &Vec<Entry>, skip: Option<usize>) -> (r: Vec<Entry>)
    requires
        skip matches Some(p) ==> p < es@.len(),
    ensures
        r@.len() == match skip { Some(_) => es@.len() - 1, None => es@.len() as int },
        forall|k: int| 0 <= k < r@.len() ==> #[trigger] same_entry(r@[k],
            es@[source_index(k, skip)]),
{
    let mut r: Vec<Entry> = Vec::new();
    let mut i: usize = 0;
    while i < es.len()
        invariant
            i <= es@.len(),
            skip matches Some(p) ==> p < es@.len(),
            r@.len() == match skip { Some(p) => if i > p { i - 1 } else { i as int }, None => i as int },
            forall|k: int| 0 <= k < r@.len() ==> #[trigger] same_entry(r@[k],
                es@[source_index(k, skip)]),
        decreases es.len() - i,
    {
        let keep = match skip {
            Some(p) => i != p,
            None => true,
        };
        if keep {
            let e = es[i].duplicate();
            r.push(e);
        }
        i = i + 1;
    }
    r
}

/// The meta plaintexts of `es` under `mk`, in order.
fn unseal_metas(mk: &[u8], es: &Vec<Entry>) -> (r: Result<Vec<Vec<u8>>, VaultError>)
    requires
        mk@.len() == KEY_LEN,
    ensures
        match r {
            Ok(ps) => ps@.len() == es@.len() && forall|k: int| 0 <= k < es@.len()
                ==> unseal_spec(mk@, #[trigger] es@[k].meta) == Some(ps@[k]@),
            Err(_) => exists|k: int| 0 <= k < es@.len() && unseal_spec(mk@, #[trigger] es@[k].meta) is None,
        },
        r matches Err(e) ==> e == VaultError::BadBase64 || e == VaultError::BadNonceLength
            || e == VaultError::Crypto(CryptoError::Decrypt),
        match r {
            Ok(_) => first_unseal_error(mk@, es@) is None,
            Err(e) => first_unseal_error(mk@, es@) == Some(e),
        },
{
    let mut ps: Vec<Vec<u8>> = Vec::new();
    let mut i: usize = 0;
    while i < es.len()
        invariant
            mk@.len() == KEY_LEN,
            i <= es@.len(),
            ps@.len() == i,
            forall|k: int| 0 <= k < i ==> unseal_spec(mk@, #[trigger] es@[k].meta) == Some(ps@[k]@),
            forall|k: int| 0 <= k < i ==> unseal_error(mk@, (#[trigger] es@[k]).meta) is None,
        decreases es.len() - i,
    {
        proof {
            lemma_first_unseal_error_skip(mk@, es@, i as int);
            let rest = es@.subrange(i as int, es@.len() as int);
            assert(rest[0] == es@[i as int]);
        }
        let p = match Vault::unseal(mk, &es[i].meta) {
            Ok(p) => p,
            Err(e) => {
                assert(unseal_spec(mk@, es@[i as int].meta) is None);
                wipe_all(ps);
                return Err(e);
            },
        };
        ps.push(p);
        i = i + 1;
    }
    proof {
        lemma_first_unseal_error_skip(mk@, es@, i as int);
    }
    Ok(ps)
}

/// Zeroize every buffer of `ps`.
fn wipe_all(ps: Vec<Vec<u8>>) {
    let mut ps = ps;
    while ps.len() > 0
        decreases ps.len(),
    {
        let mut p = ps.pop().unwrap();
        wipe(&mut p);
    }
}

/// `s` is `pt` sealed under `key` with `nonce`: both base64, the ciphertext with its tag.
pub open spec fn sealed_as(s: Sealed, key: Seq<u8>, nonce: Seq<u8>, pt: Seq<u8>) -> bool {
    s.nonce@ == base64_encode(nonce) && s.ct@ == base64_encode(aes256gcm_seal(key, nonce, pt, Seq::empty()))
}

/// The byte strings of a vector of buffers.
pub open spec fn buffers(v: Seq<Vec<u8>>) -> Seq<Seq<u8>> {
    v.map_values(|b: Vec<u8>| b@)
}

/// Every buffer of `v` is a nonce.
pub open spec fn all_nonces(v: Seq<Vec<u8>>) -> bool {
    forall|k: int| 0 <= k < v.len() ==> (#[trigger] v[k])@.len() == NONCE_LEN
}

/// `es` with each meta replaced by the matching plaintext of `ps` sealed under `mk` with the
/// matching nonce of `nonces`.
fn reseal_all(mk: &[u8], es: Vec<Entry>, ps: &Vec<Vec<u8>>, nonces: &Vec<Vec<u8>>) -> (r: Result<Vec<Entry>, VaultError>)
    requires
        mk@.len() == KEY_LEN,
        es@.len() == ps@.len(),
        nonces@.len() >= ps@.len(),
        all_nonces(nonces@),
    ensures
        r is Ok <==> forall|k: int| 0 <= k < ps@.len() ==> (#[trigger] ps@[k])@.len() <= GCM_MAX_LEN,
        r matches Err(e) ==> e == VaultError::Crypto(CryptoError::Encrypt),
        r matches Ok(out) ==> out@.len() == es@.len()
            && forall|k: int| 0 <= k < es@.len() ==> #[trigger] same_place(out@[k], es@[k])
                && unseal_spec(mk@, out@[k].meta) == Some(ps@[k]@)
                && sealed_as(out@[k].meta, mk@, nonces@[k]@, ps@[k]@),
{
    let mut out: Vec<Entry> = Vec::new();
    let mut i: usize = 0;
    while i < es.len()
        invariant
            mk@.len() == KEY_LEN,
            es@.len() == ps@.len(),
            nonces@.len() >= ps@.len(),
            all_nonces(nonces@),
            i <= es@.len(),
            out@.len() == i,
            forall|k: int| 0 <= k < i ==> (#[trigger] ps@[k])@.len() <= GCM_MAX_LEN,
            forall|k: int| 0 <= k < i ==> #[trigger] same_place(out@[k], es@[k])
                && unseal_spec(mk@, out@[k].meta) == Some(ps@[k]@)
                && sealed_as(out@[k].meta, mk@, nonces@[k]@, ps@[k]@),
        decreases es.len() - i,
    {
        assert(nonces@[i as int]@.len() == NONCE_LEN);
        let sealed = match Vault::seal_with(mk, nonces[i].as_slice(), ps[i].as_slice()) {
            Ok(x) => x,
            Err(e) => {
                assert(ps@[i as int]@.len() > GCM_MAX_LEN);
                return Err(e);
            },
        };
        let e = Entry { id: dup(&es[i].id), meta: sealed, blob_nonce: dup(&es[i].blob_nonce), size: es[i].size };
        out.push(e);
        i = i + 1;
    }
    Ok(out)
}

/// Whether two byte strings are equal.
fn same_bytes(a: &[u8], b: &[u8]) -> (r: bool)
    ensures
        r == (a@ == b@),
{
    if a.len() != b.len() {
        return false;
    }
    let mut i: usize = 0;
    while i < a.len()
        invariant
            a@.len() == b@.len(),
            i <= a@.len(),
            forall|k: int| 0 <= k < i ==> a@[k] == b@[k],
        decreases a.len() - i,
    {
        if a[i] != b[i] {
            return false;
        }
        i = i + 1;
    }
    proof {
        assert(a@ =~= b@);
    }
    true
}

/// `n` fresh random nonces.
fn draw_nonces(n: usize) -> (r: Result<Vec<Vec<u8>>, CryptoError>)
    ensures
        r matches Ok(v) ==> v@.len() == n && all_nonces(v@),
        r matches Err(e) ==> e == CryptoError::Rng,
{
    let mut v: Vec<Vec<u8>> = Vec::new();
    let mut i: usize = 0;
    while i < n
        invariant
            i <= n,
            v@.len() == i,
            all_nonces(v@),
        decreases n - i,
    {
        let b = random_bytes(NONCE_LEN)?;
        v.push(b);
        i = i + 1;
    }
    Ok(v)
}

proof fn lemma_opened_via(h: Header, passphrase: Seq<u8>, id: Seq<char>, blob: Seq<u8>, i: int)
    requires
        first_with_id(h.entries@, id, i),
        master_key(h, passphrase) is Some,
    ensures
        opened(h, passphrase, id, blob) == entry_data(master_key(h, passphrase).unwrap(), h.entries@[i], blob),
{
    let c = choose|j: int| first_with_id(h.entries@, id, j);
    lemma_first_unique(h.entries@, id, c, i);
}

/// Shredding entry `id` leaves every other id opening to exactly what it opened to before, and an
/// id that only the shredded entry carried no longer opens.
pub proof fn lemma_shred_keeps_others(old: Header, new: Header, passphrase: Seq<u8>, id: Seq<char>, other: Seq<char>, blob: Seq<u8>)
    requires
        shredded(old, new, passphrase, id),
    ensures
        other != id ==> opened(new, passphrase, other, blob) == opened(old, passphrase, other, blob),
        (forall|j: int| 0 <= j < old.entries@.len() && old.entries@[j].id@ == id ==> first_with_id(old.entries@, id, j))
            ==> opened(new, passphrase, id, blob) is None,
{
    let mk1 = master_key(old, passphrase).unwrap();
    let mk2 = master_key(new, passphrase).unwrap();
    let pos = choose|pos: int| first_with_id(old.entries@, id, pos)
        && resealed(old.entries@, mk1, new.entries@, mk2, Some(pos));
    let oe = old.entries@;
    let ne = new.entries@;
    assert forall|k: int| 0 <= k < ne.len() implies #[trigger] ne[k].id@ == oe[skip_index(k, pos)].id@
        && entry_data(mk2, ne[k], blob) == entry_data(mk1, oe[skip_index(k, pos)], blob) by {
        assert(same_place(ne[k], oe[skip_index(k, pos)]));
        assert(unseal_spec(mk2, ne[k].meta) == unseal_spec(mk1, oe[skip_index(k, pos)].meta));
    }
    if other != id {
        if has_id(oe, other) {
            lemma_has_first(oe, other);
            let j = choose|j: int| first_with_id(oe, other, j);
            assert(j != pos);
            let k = if j < pos { j } else { j - 1 };
            assert(skip_index(k, pos) == j);
            assert forall|m: int| 0 <= m < k implies ne[m].id@ != other by {
                assert(ne[m].id@ == oe[skip_index(m, pos)].id@);
            }
            assert(first_with_id(ne, other, k));
            lemma_opened_via(old, passphrase, other, blob, j);
            lemma_opened_via(new, passphrase, other, blob, k);
        } else {
            assert forall|m: int| 0 <= m < ne.len() implies ne[m].id@ != other by {
                assert(ne[m].id@ == oe[skip_index(m, pos)].id@);
            }
        }
    }
    if forall|j: int| 0 <= j < oe.len() && oe[j].id@ == id ==> first_with_id(oe, id, j) {
        assert forall|m: int| 0 <= m < ne.len() implies ne[m].id@ != id by {
            assert(ne[m].id@ == oe[skip_index(m, pos)].id@);
            if ne[m].id@ == id {
                assert(first_with_id(oe, id, skip_index(m, pos)));
                lemma_first_unique(oe, id, pos, skip_index(m, pos));
            }
        }
    }
}

/// Re-keying keeps every entry opening, under the new passphrase, to exactly what it opened to
/// under the old one.
pub proof fn lemma_rekey_preserves(old: Header, old_pass: Seq<u8>, new: Header, new_pass: Seq<u8>, id: Seq<char>, blob: Seq<u8>)
    requires
        rekeyed(old, old_pass, new, new_pass),
    ensures
        opened(new, new_pass, id, blob) == opened(old, old_pass, id, blob),
{
    let mk1 = master_key(old, old_pass).unwrap();
    let mk2 = master_key(new, new_pass).unwrap();
    let oe = old.entries@;
    let ne = new.entries@;
    assert forall|k: int| 0 <= k < ne.len() implies #[trigger] ne[k].id@ == oe[k].id@
        && entry_data(mk2, ne[k], blob) == entry_data(mk1, oe[k], blob) by {
        assert(same_place(ne[k], oe[k]));
        assert(unseal_spec(mk2, ne[k].meta) == unseal_spec(mk1, oe[k].meta));
    }
    if has_id(oe, id) {
        lemma_has_first(oe, id);
        let j = choose|j: int| first_with_id(oe, id, j);
        assert(first_with_id(ne, id, j));
        lemma_opened_via(old, old_pass, id, blob, j);
        lemma_opened_via(new, new_pass, id, blob, j);
    } else {
        assert forall|m: int| 0 <= m < ne.len() implies ne[m].id@ != id by {
            assert(ne[m].id@ == oe[m].id@);
        }
    }
}


/// Listing a vault after a shred shows what listing it before showed, with the shredded entry left
/// out and the order kept: if `rows` lists `new`, row `k` lists the `k`-th survivor of `old`.
pub proof fn lemma_shred_then_list(old: Header, new: Header, passphrase: Seq<u8>, id: Seq<char>,
    rows: Seq<(String, String, u64)>)
    requires
        shredded(old, new, passphrase, id),
        rows.len() == new.entries@.len(),
        forall|k: int| 0 <= k < rows.len() ==> listed(master_key(new, passphrase).unwrap(), new.entries@[k], #[trigger] rows[k]),
    ensures
        rows.len() + 1 == old.entries@.len(),
        rows.len() == shred_survivors(old, id).len(),
        forall|k: int| 0 <= k < rows.len() ==> listed(master_key(old, passphrase).unwrap(), shred_survivors(old, id)[k], #[trigger] rows[k]),
{
    let mk1 = master_key(old, passphrase).unwrap();
    let mk2 = master_key(new, passphrase).unwrap();
    let pos = choose|pos: int| first_with_id(old.entries@, id, pos)
        && resealed(old.entries@, mk1, new.entries@, mk2, Some(pos));
    let c = choose|i: int| first_with_id(old.entries@, id, i);
    lemma_first_unique(old.entries@, id, c, pos);
    let rest = shred_survivors(old, id);
    assert(rest =~= old.entries@.remove(pos));
    assert forall|k: int| 0 <= k < rows.len() implies listed(mk1, rest[k], #[trigger] rows[k]) by {
        assert(listed(mk2, new.entries@[k], rows[k]));
        assert(rest[k] == old.entries@[skip_index(k, pos)]);
        assert(same_place(new.entries@[k], old.entries@[skip_index(k, pos)]));
        assert(unseal_spec(mk2, new.entries@[k].meta) == unseal_spec(mk1, old.entries@[skip_index(k, pos)].meta));
    }
}

/// Listing a vault with the new passphrase after a re-key shows what listing it with the old one
/// showed before: if `rows` lists `new`, row `k` lists entry `k` of `old`.
pub proof fn lemma_rekey_then_list(old: Header, old_pass: Seq<u8>, new: Header, new_pass: Seq<u8>,
    rows: Seq<(String, String, u64)>)
    requires
        rekeyed(old, old_pass, new, new_pass),
        rows.len() == new.entries@.len(),
        forall|k: int| 0 <= k < rows.len() ==> listed(master_key(new, new_pass).unwrap(), new.entries@[k], #[trigger] rows[k]),
    ensures
        rows.len() == old.entries@.len(),
        forall|k: int| 0 <= k < rows.len() ==> listed(master_key(old, old_pass).unwrap(), old.entries@[k], #[trigger] rows[k]),
{
    let mk1 = master_key(old, old_pass).unwrap();
    let mk2 = master_key(new, new_pass).unwrap();
    assert forall|k: int| 0 <= k < rows.len() implies listed(mk1, old.entries@[k], #[trigger] rows[k]) by {
        assert(listed(mk2, new.entries@[k], rows[k]));
        assert(same_place(new.entries@[k], old.entries@[k]));
        assert(unseal_spec(mk2, new.entries@[k].meta) == unseal_spec(mk1, old.entries@[k].meta));
    }
}

/// Opening an entry and decrypting its blob, as `open` then `decrypt_blob` do, yields exactly what
/// [`opened`] says the header and blob hold.
pub proof fn lemma_open_reads_back(h: Header, passphrase: Seq<u8>, id: Seq<char>, blob: Seq<u8>,
    name: Seq<char>, dek: Seq<u8>, blob_nonce: Seq<char>, data: Seq<u8>)
    requires
        master_key(h, passphrase) is Some,
        has_id(h.entries@, id),
        entry_key(master_key(h, passphrase).unwrap(), h.entries@[choose|i: int| first_with_id(h.entries@, id, i)])
            == Some((name, dek)),
        blob_nonce == h.entries@[choose|i: int| first_with_id(h.entries@, id, i)].blob_nonce@,
        base64_decode(blob_nonce) matches Some(bn) && bn.len() == NONCE_LEN,
        aes256gcm_open(dek, base64_decode(blob_nonce).unwrap(), blob, Seq::empty()) == Some(data),
    ensures
        opened(h, passphrase, id, blob) == Some((name, data)),
{
}

/// The key material of a freshly opened entry, before its blob is read.
pub struct Opened {
    pub name: String,
    pub dek: Vec<u8>,
    pub blob_nonce: String,
}

impl Vault {
    /// Create the header of a new empty vault protected by `passphrase`; refused when a header
    /// already exists. The salt, master key and nonce are drawn here (see [`Vault::init_with`]).
    pub fn init(&self, passphrase: &[u8], header_exists: bool) -> (r: Result<Header, VaultError>)
        ensures
            header_exists ==> r == Err::<Header, VaultError>(VaultError::AlreadyExists),
            r matches Ok(h) ==> {
                &&& h.version == VERSION
                &&& h.kdf.alg@ == "argon2id"@
                &&& h.kdf.m_cost == M_COST && h.kdf.t_cost == T_COST && h.kdf.p_cost == P_COST
                &&& h.entries@.len() == 0
                &&& master_key(h, passphrase@) is Some
            },
            r matches Ok(h) ==> exists|salt: Seq<u8>, mk: Seq<u8>, nonce: Seq<u8>|
                #[trigger] initialized_with(h, passphrase@, salt, mk, nonce),
            r matches Err(e) ==> header_exists || e == VaultError::Crypto(CryptoError::Rng)
                || (e == VaultError::Crypto(CryptoError::KdfFailed) && passphrase@.len() > 0xFFFF_FFFF),
            passphrase@.len() > 0xFFFF_FFFF ==> r is Err,
    {
        if header_exists {
            return Err(VaultError::AlreadyExists);
        }
        let draws = match (random_bytes(SALT_LEN), random_bytes(KEY_LEN), random_bytes(NONCE_LEN)) {
            (Ok(s), Ok(m), Ok(n)) => (s, m, n),
            _ => return Err(VaultError::Crypto(CryptoError::Rng)),
        };
        let (salt, mut mk, nonce) = draws;
        let r = self.init_with(passphrase, header_exists, salt.as_slice(), mk.as_slice(), nonce.as_slice());
        wipe(&mut mk);
        r
    }

    /// Create a fresh vault header (as [`Vault::init`] does) with the given salt, master key and
    /// nonce for wrapping the master key.
    pub fn init_with(&self, passphrase: &[u8], header_exists: bool, salt: &[u8], mk: &[u8], nonce: &[u8])
        -> (r: Result<Header, VaultError>)
        requires
            salt@.len() == SALT_LEN,
            mk@.len() == KEY_LEN,
            nonce@.len() == NONCE_LEN,
        ensures
            r is Ok <==> !header_exists && passphrase@.len() <= 0xFFFF_FFFF,
            header_exists ==> r == Err::<Header, VaultError>(VaultError::AlreadyExists),
            !header_exists && passphrase@.len() > 0xFFFF_FFFF
                ==> r == Err::<Header, VaultError>(VaultError::Crypto(CryptoError::KdfFailed)),
            r matches Ok(h) ==> initialized_with(h, passphrase@, salt@, mk@, nonce@),
    {
        if header_exists {
            return Err(VaultError::AlreadyExists);
        }
        let kdf = Kdf { alg: String::from_str("argon2id"), salt: b64_encode(salt), m_cost: M_COST, t_cost: T_COST, p_cost: P_COST };
        proof {
            assert(base64_decode(kdf.salt@) == Some(salt@));
        }
        let mut kek = match derive_kek(passphrase, salt, M_COST, T_COST, P_COST) {
            Ok(k) => k,
            Err(e) => return Err(VaultError::Crypto(e)),
        };
        let wrapped = Self::seal_with(kek.as_slice(), nonce, mk);
        proof {
            assert(kek_spec(kdf, passphrase@) == Some(kek@));
        }
        wipe(&mut kek);
        let wrapped_master = wrapped?;
        Ok(Header { version: VERSION, kdf, wrapped_master, entries: Vec::new() })
    }

    /// Encrypt `data` into the vault as a new entry named after `file_name` (or `file`). Returns the
    /// new entry's id and the ciphertext blob to store at `blob_path(id)`.
    pub fn add(&self, h: &mut Header, passphrase: &[u8], file_name: Option<&str>, data: &[u8]) -> (r: Result<(String, Vec<u8>), VaultError>)
        ensures
            r is Err ==> *final(h) == *old(h),
            master_key(*old(h), passphrase@) is None ==> r is Err,
            r matches Err(e) ==> master_key(*old(h), passphrase@) is None || e == VaultError::Crypto(CryptoError::Rng)
                || (e == VaultError::Crypto(CryptoError::Encrypt)
                    && (data@.len() > GCM_MAX_LEN || 6 * (stored_name(file_name).len() + 44) + 20 > GCM_MAX_LEN)),
            master_error(*old(h), passphrase@) matches Some(e) ==> r == Err::<(String, Vec<u8>), VaultError>(e),
            data@.len() > GCM_MAX_LEN ==> r is Err,
            r matches Err(e) ==> master_error(*old(h), passphrase@) == Some(e) || (master_error(*old(h), passphrase@) is None
                && (e == VaultError::Crypto(CryptoError::Rng) || e == VaultError::Crypto(CryptoError::Encrypt))),
            r matches Ok((id, blob)) ==> {
                &&& added(*old(h), *final(h), passphrase@, stored_name(file_name), data@, id@, blob@)
                &&& forall|k: int| 0 <= k < id@.len() ==> is_ascii_alnum(#[trigger] id@[k])
                &&& !has_id(old(h).entries@, id@) ==> opened(*final(h), passphrase@, id@, blob@)
                    == Some((stored_name(file_name), data@))
            },
    {
        let mut mk = Self::open_master(h, passphrase)?;
        let r = Self::add_drawing(h, mk.as_slice(), file_name, data);
        proof {
            if r is Ok {
                let (id, blob) = r.unwrap();
                if !has_id(old(h).entries@, id@) {
                    let n = old(h).entries@.len() as int;
                    assert forall|j: int| 0 <= j < n implies h.entries@[j].id@ != id@ by {
                        assert(h.entries@[j] == old(h).entries@[j]);
                    }
                    assert(first_with_id(h.entries@, id@, n));
                    lemma_opened_via(*h, passphrase@, id@, blob@, n);
                }
            }
        }
        wipe(&mut mk);
        r
    }

    /// [`Vault::add_with`] on freshly drawn random values: the data key, the blob nonce, the id's
    /// bytes and the meta nonce.
    fn add_drawing(h: &mut Header, mk: &[u8], file_name: Option<&str>, data: &[u8]) -> (r: Result<(String, Vec<u8>), VaultError>)
        requires
            mk@.len() == KEY_LEN,
        ensures
            r is Err ==> *final(h) == *old(h),
            r matches Err(e) ==> e == VaultError::Crypto(CryptoError::Rng)
                || (e == VaultError::Crypto(CryptoError::Encrypt)
                    && (data@.len() > GCM_MAX_LEN || 6 * (stored_name(file_name).len() + 44) + 20 > GCM_MAX_LEN)),
            data@.len() > GCM_MAX_LEN ==> r is Err,
            r matches Ok((id, blob)) ==> {
                &&& final(h).version == old(h).version
                &&& final(h).kdf == old(h).kdf
                &&& final(h).wrapped_master == old(h).wrapped_master
                &&& final(h).entries@.len() == old(h).entries@.len() + 1
                &&& final(h).entries@.subrange(0, old(h).entries@.len() as int) == old(h).entries@
                &&& final(h).entries@.last().id@ == id@
                &&& final(h).entries@.last().size == data@.len()
                &&& forall|k: int| 0 <= k < id@.len() ==> is_ascii_alnum(#[trigger] id@[k])
                &&& entry_data(mk@, final(h).entries@.last(), blob@) == Some((stored_name(file_name), data@))
            },
    {
        let mut dek = match random_bytes(KEY_LEN) {
            Ok(d) => d,
            Err(e) => return Err(VaultError::Crypto(e)),
        };
        let draws = match (random_bytes(NONCE_LEN), random_bytes(ID_RAND_LEN), random_bytes(NONCE_LEN)) {
            (Ok(b), Ok(i), Ok(m)) => (b, i, m),
            _ => {
                wipe(&mut dek);
                return Err(VaultError::Crypto(CryptoError::Rng));
            },
        };
        let (blob_nonce, id_raw, meta_nonce) = draws;
        let r = Self::add_with(h, mk, file_name, data, dek.as_slice(), blob_nonce.as_slice(), id_raw.as_slice(), meta_nonce.as_slice());
        wipe(&mut dek);
        r
    }

    /// Encrypt `data` as a new entry named after `file_name` (or `file`), with the given data key,
    /// blob nonce, id bytes and meta nonce. The blob is the data sealed under the data key; the
    /// meta `{name, dek}` is sealed under `mk`. It fails only when the data or the meta is too long
    /// for AES-GCM.
    pub fn add_with(h: &mut Header, mk: &[u8], file_name: Option<&str>, data: &[u8], dek: &[u8], blob_nonce: &[u8],
        id_raw: &[u8], meta_nonce: &[u8]) -> (r: Result<(String, Vec<u8>), VaultError>)
        requires
            mk@.len() == KEY_LEN,
            dek@.len() == KEY_LEN,
            blob_nonce@.len() == NONCE_LEN,
            meta_nonce@.len() == NONCE_LEN,
        ensures
            r is Err ==> *final(h) == *old(h),
            r is Ok <==> data@.len() <= GCM_MAX_LEN
                && meta_json(stored_name(file_name), base64_encode(dek@)).len() <= GCM_MAX_LEN,
            meta_json(stored_name(file_name), base64_encode(dek@)).len() <= 6 * (stored_name(file_name).len() + 44) + 20,
            r matches Err(e) ==> e == VaultError::Crypto(CryptoError::Encrypt),
            r matches Ok((id, blob)) ==> {
                &&& id@ == id_chars(base64_encode(id_raw@))
                &&& blob@ == aes256gcm_seal(dek@, blob_nonce@, data@, Seq::empty())
                &&& final(h).version == old(h).version
                &&& final(h).kdf == old(h).kdf
                &&& final(h).wrapped_master == old(h).wrapped_master
                &&& final(h).entries@.len() == old(h).entries@.len() + 1
                &&& final(h).entries@.subrange(0, old(h).entries@.len() as int) == old(h).entries@
                &&& final(h).entries@.last().id@ == id@
                &&& final(h).entries@.last().size == data@.len()
                &&& final(h).entries@.last().blob_nonce@ == base64_encode(blob_nonce@)
                &&& final(h).entries@.last().meta.nonce@ == base64_encode(meta_nonce@)
                &&& final(h).entries@.last().meta.ct@ == base64_encode(aes256gcm_seal(mk@, meta_nonce@,
                    meta_json(stored_name(file_name), base64_encode(dek@)), Seq::empty()))
                &&& forall|k: int| 0 <= k < id@.len() ==> is_ascii_alnum(#[trigger] id@[k])
                &&& entry_data(mk@, final(h).entries@.last(), blob@) == Some((stored_name(file_name), data@))
            },
    {
        let name: &str = match file_name {
            Some(n) => n,
            None => "file",
        };
        proof {
            reveal_strlit("file");
        }
        let dek_text = b64_encode(dek);
        let mut meta = meta_to_json(name, dek_text.as_str());
        let aad = empty_aad();
        let blob = match aead_encrypt(dek, blob_nonce, data, aad.as_slice()) {
            Ok(b) => b,
            Err(e) => {
                wipe(&mut meta);
                return Err(VaultError::Crypto(e));
            },
        };
        let sealed = Self::seal_with(mk, meta_nonce, meta.as_slice());
        let ghost meta_bytes = meta@;
        wipe(&mut meta);
        let meta_sealed = match sealed {
            Ok(s) => s,
            Err(e) => return Err(e),
        };
        let id = id_from_raw(id_raw);
        let entry = Entry { id: dup(&id), meta: meta_sealed, blob_nonce: b64_encode(blob_nonce), size: data.len() as u64 };
        let ghost old_entries = h.entries@;
        h.entries.push(entry);
        proof {
            assert(h.entries@.subrange(0, old_entries.len() as int) =~= old_entries);
            assert(meta_bytes == meta_json(stored_name(file_name), base64_encode(dek@)));
        }
        Ok((id, blob))
    }

    /// List the entries as (id, name, size).
    pub fn list(&self, h: &Header, passphrase: &[u8]) -> (r: Result<Vec<(String, String, u64)>, VaultError>)
        ensures
            master_key(*h, passphrase@) is None ==> r is Err,
            r matches Ok(rows) ==> {
                &&& master_key(*h, passphrase@) is Some
                &&& rows@.len() == h.entries@.len()
                &&& forall|k: int| 0 <= k < rows@.len() ==> listed(master_key(*h, passphrase@).unwrap(), h.entries@[k], #[trigger] rows@[k])
            },
            (r is Err && master_key(*h, passphrase@) is Some) ==> exists|k: int| 0 <= k < h.entries@.len()
                && entry_meta(master_key(*h, passphrase@).unwrap(), #[trigger] h.entries@[k]) is None,
            match r {
                Ok(_) => list_error(*h, passphrase@) is None,
                Err(e) => list_error(*h, passphrase@) == Some(e),
            },
    {
        let mut mk = Self::open_master(h, passphrase)?;
        let r = Self::list_with(h, mk.as_slice());
        wipe(&mut mk);
        r
    }

    fn list_with(h: &Header, mk: &[u8]) -> (r: Result<Vec<(String, String, u64)>, VaultError>)
        requires
            mk@.len() == KEY_LEN,
        ensures
            r matches Ok(rows) ==> rows@.len() == h.entries@.len()
                && forall|k: int| 0 <= k < rows@.len() ==> listed(mk@, h.entries@[k], #[trigger] rows@[k]),
            r is Err ==> exists|k: int| 0 <= k < h.entries@.len() && entry_meta(mk@, #[trigger] h.entries@[k]) is None,
            match r {
                Ok(_) => first_meta_error(mk@, h.entries@) is None,
                Err(e) => first_meta_error(mk@, h.entries@) == Some(e),
            },
    {
        let mut out: Vec<(String, String, u64)> = Vec::new();
        let mut i: usize = 0;
        while i < h.entries.len()
            invariant
                mk@.len() == KEY_LEN,
                i <= h.entries@.len(),
                out@.len() == i,
                forall|k: int| 0 <= k < i ==> listed(mk@, h.entries@[k], #[trigger] out@[k]),
                forall|k: int| 0 <= k < i ==> meta_error(mk@, #[trigger] h.entries@[k]) is None,
            decreases h.entries.len() - i,
        {
            let e = &h.entries[i];
            proof {
                lemma_first_meta_error_skip(mk@, h.entries@, i as int);
                let rest = h.entries@.subrange(i as int, h.entries@.len() as int);
                assert(rest[0] == h.entries@[i as int]);
            }
            let mut pt = match Self::unseal(mk, &e.meta) {
                Ok(p) => p,
                Err(err) => {
                    assert(entry_meta(mk@, h.entries@[i as int]) is None);
                    return Err(err);
                },
            };
            let parsed = meta_parse_json(pt.as_slice());
            wipe(&mut pt);
            let (name, _dek) = match parsed {
                Some(p) => p,
                None => {
                    assert(entry_meta(mk@, h.entries@[i as int]) is None);
                    return Err(VaultError::BadMeta);
                },
            };
            out.push((dup(&e.id), name, e.size));
            i = i + 1;
        }
        proof {
            lemma_first_meta_error_skip(mk@, h.entries@, i as int);
        }
        Ok(out)
    }

    /// Unlock entry `id`: its stored name, its data key and its blob nonce. The blob itself is read
    /// by the caller and handed to `decrypt_blob`.
    pub fn open(&self, h: &Header, passphrase: &[u8], id: &str) -> (r: Result<Opened, VaultError>)
        ensures
            master_key(*h, passphrase@) is None ==> r is Err,
            r matches Err(VaultError::NoSuchEntry) <==> (master_key(*h, passphrase@) is Some && !has_id(h.entries@, id@)),
            r matches Ok(o) ==> {
                &&& master_key(*h, passphrase@) is Some
                &&& has_id(h.entries@, id@)
                &&& entry_key(master_key(*h, passphrase@).unwrap(), h.entries@[choose|i: int| first_with_id(h.entries@, id@, i)])
                    == Some((o.name@, o.dek@))
                &&& o.blob_nonce@ == h.entries@[choose|i: int| first_with_id(h.entries@, id@, i)].blob_nonce@
            },
            (r is Err && master_key(*h, passphrase@) is Some && has_id(h.entries@, id@)) ==>
                entry_key(master_key(*h, passphrase@).unwrap(), h.entries@[choose|i: int| first_with_id(h.entries@, id@, i)]) is None,
            match r {
                Ok(_) => open_error(*h, passphrase@, id@) is None,
                Err(e) => open_error(*h, passphrase@, id@) == Some(e),
            },
    {
        let mut mk = Self::open_master(h, passphrase)?;
        let pos = match find_first(&h.entries, id) {
            Some(p) => p,
            None => {
                wipe(&mut mk);
                return Err(VaultError::NoSuchEntry);
            },
        };
        proof {
            let c = choose|i: int| first_with_id(h.entries@, id@, i);
            lemma_first_unique(h.entries@, id@, c, pos as int);
        }
        let e = &h.entries[pos];
        let unsealed = Self::unseal(mk.as_slice(), &e.meta);
        wipe(&mut mk);
        let mut pt = unsealed?;
        let parsed = meta_parse_json(pt.as_slice());
        wipe(&mut pt);
        let (name, dek_text) = match parsed {
            Some(p) => p,
            None => return Err(VaultError::BadMeta),
        };
        let mut dek = match b64_decode(dek_text.as_str()) {
            Ok(d) => d,
            Err(_) => return Err(VaultError::BadBase64),
        };
        if dek.len() != KEY_LEN {
            wipe(&mut dek);
            return Err(VaultError::CorruptDataKey);
        }
        Ok(Opened { name, dek, blob_nonce: dup(&e.blob_nonce) })
    }

    /// Decrypt the blob of an opened entry.
    pub fn decrypt_blob(&self, o: &Opened, blob: &[u8]) -> (r: Result<Vec<u8>, VaultError>)
        ensures
            r is Ok <==> (o.dek@.len() == KEY_LEN && (base64_decode(o.blob_nonce@) matches Some(bn)
                && bn.len() == NONCE_LEN && aes256gcm_open(o.dek@, bn, blob@, Seq::empty()) is Some)),
            r matches Ok(data) ==> aes256gcm_open(o.dek@, base64_decode(o.blob_nonce@).unwrap(), blob@, Seq::empty()) == Some(data@),
            match r {
                Ok(_) => blob_error(o.dek@, o.blob_nonce@, blob@) is None,
                Err(e) => blob_error(o.dek@, o.blob_nonce@, blob@) == Some(e),
            },
    {
        if o.dek.len() != KEY_LEN {
            return Err(VaultError::CorruptDataKey);
        }
        let bn = match b64_decode(o.blob_nonce.as_str()) {
            Ok(b) => b,
            Err(_) => return Err(VaultError::BadBase64),
        };
        if bn.len() != NONCE_LEN {
            return Err(VaultError::BadBlobNonce);
        }
        let aad = empty_aad();
        match aead_decrypt(o.dek.as_slice(), bn.as_slice(), blob, aad.as_slice()) {
            Ok(d) => Ok(d),
            Err(e) => Err(VaultError::Crypto(e)),
        }
    }

    /// Unlock the master key, find entry `id` and unseal every other entry's meta: the surviving
    /// entries, their meta plaintexts, the key-encryption key and the current master key.
    fn shred_prepare(h: &Header, passphrase: &[u8], id: &str)
        -> (r: Result<(Vec<Entry>, Vec<Vec<u8>>, Vec<u8>, Vec<u8>), VaultError>)
        ensures
            match shred_error(*h, passphrase@, id@) {
                Some(e) => r matches Err(x) && x == e,
                None => r is Ok,
            },
            r matches Err(VaultError::NoSuchEntry) <==> (master_key(*h, passphrase@) is Some && !has_id(h.entries@, id@)),
            master_key(*h, passphrase@) is None ==> r is Err,
            r matches Ok((surv, metas, kek, mk)) ==> {
                &&& shred_error(*h, passphrase@, id@) is None
                &&& master_key(*h, passphrase@) == Some(mk@)
                &&& surv@.len() + 1 == h.entries@.len()
                &&& has_id(h.entries@, id@)
                &&& master_key(*h, passphrase@) is Some
                &&& kek_spec(h.kdf, passphrase@) == Some(kek@)
                &&& kek@.len() == KEY_LEN
                &&& surv@.len() == metas@.len()
                &&& surv@.len() == shred_survivors(*h, id@).len()
                &&& forall|k: int| 0 <= k < surv@.len() ==> #[trigger] same_entry(surv@[k], shred_survivors(*h, id@)[k])
                    && unseal_spec(master_key(*h, passphrase@).unwrap(), surv@[k].meta) == Some(metas@[k]@)
            },
    {
        let mut old_mk = Self::open_master(h, passphrase)?;
        let pos = match find_first(&h.entries, id) {
            Some(p) => p,
            None => {
                wipe(&mut old_mk);
                return Err(VaultError::NoSuchEntry);
            },
        };
        let survivors = copy_entries(&h.entries, Some(pos));
        let ghost mk0 = old_mk@;
        proof {
            let c = choose|i: int| first_with_id(h.entries@, id@, i);
            lemma_first_unique(h.entries@, id@, c, pos as int);
            let rest = shred_survivors(*h, id@);
            assert(rest =~= h.entries@.remove(pos as int));
            assert forall|k: int| 0 <= k < survivors@.len() implies #[trigger] same_entry(survivors@[k], rest[k]) by {
                assert(same_entry(survivors@[k], h.entries@[source_index(k, Some(pos))]));
            }
            assert forall|k: int| 0 <= k < survivors@.len() implies (#[trigger] survivors@[k]).meta.nonce@ == rest[k].meta.nonce@
                && survivors@[k].meta.ct@ == rest[k].meta.ct@ by {
                assert(same_entry(survivors@[k], rest[k]));
            }
            lemma_first_unseal_error_same(mk0, survivors@, rest);
        }
        let metas = unseal_metas(old_mk.as_slice(), &survivors);
        let metas = match metas {
            Ok(m) => m,
            Err(e) => {
                wipe(&mut old_mk);
                return Err(e);
            },
        };
        let kek = match Self::derive_for(&h.kdf, passphrase) {
            Ok(k) => k,
            Err(e) => {
                wipe_all(metas);
                wipe(&mut old_mk);
                return Err(e);
            },
        };
        Ok((survivors, metas, kek, old_mk))
    }

    /// Seal the survivors' metas under `new_mk` with `nonces`, wrap `new_mk` under `kek` with
    /// `wrap_nonce`, and put both into the header.
    fn shred_finish(h: &mut Header, passphrase: &[u8], id: &str, surv: Vec<Entry>, metas: Vec<Vec<u8>>, kek: Vec<u8>,
        new_mk: &[u8], nonces: &Vec<Vec<u8>>, wrap_nonce: &[u8]) -> (r: Result<(), VaultError>)
        requires
            shred_error(*old(h), passphrase@, id@) is None,
            has_id(old(h).entries@, id@),
            master_key(*old(h), passphrase@) is Some,
            kek_spec(old(h).kdf, passphrase@) == Some(kek@),
            kek@.len() == KEY_LEN,
            surv@.len() == metas@.len(),
            surv@.len() == shred_survivors(*old(h), id@).len(),
            forall|k: int| 0 <= k < surv@.len() ==> #[trigger] same_entry(surv@[k], shred_survivors(*old(h), id@)[k])
                && unseal_spec(master_key(*old(h), passphrase@).unwrap(), surv@[k].meta) == Some(metas@[k]@),
            new_mk@.len() == KEY_LEN,
            wrap_nonce@.len() == NONCE_LEN,
            nonces@.len() >= surv@.len(),
            all_nonces(nonces@),
        ensures
            r is Err ==> *final(h) == *old(h),
            r is Ok <==> !has_oversized_meta(master_key(*old(h), passphrase@).unwrap(), shred_survivors(*old(h), id@)),
            r matches Err(e) ==> e == VaultError::Crypto(CryptoError::Encrypt),
            r is Ok ==> shredded_with(*old(h), *final(h), passphrase@, id@, new_mk@, buffers(nonces@), wrap_nonce@),
    {
        let ghost mk1 = master_key(*h, passphrase@).unwrap();
        let ghost rest = shred_survivors(*h, id@);
        let ghost pos = choose|i: int| first_with_id(h.entries@, id@, i);
        proof {
            assert forall|k: int| 0 <= k < surv@.len() implies unseal_spec(mk1, (#[trigger] rest[k]).meta) == Some(metas@[k]@) by {
                assert(same_entry(surv@[k], rest[k]));
            }
        }
        let r = Self::reseal_under(kek.as_slice(), surv, metas, new_mk, nonces, wrap_nonce);
        let mut kek = kek;
        wipe(&mut kek);
        match r {
            Ok((wrapped, entries)) => {
                let ghost old_h = *h;
                let ghost out = entries@;
                h.wrapped_master = wrapped;
                h.entries = entries;
                proof {
                    lemma_has_first(old_h.entries@, id@);
                    assert(first_with_id(old_h.entries@, id@, pos));
                    assert(rest =~= old_h.entries@.remove(pos));
                    assert(h.entries@ == out);
                    assert(master_key(*h, passphrase@) == Some(new_mk@));
                    assert forall|k: int| 0 <= k < h.entries@.len() implies #[trigger] same_place(h.entries@[k], old_h.entries@[skip_index(k, pos)]) by {
                        assert(same_place(out[k], surv@[k]));
                        assert(same_entry(surv@[k], rest[k]));
                        assert(rest[k] == old_h.entries@[skip_index(k, pos)]);
                    }
                    assert forall|k: int| 0 <= k < h.entries@.len() implies #[trigger] unseal_spec(new_mk@, h.entries@[k].meta) == unseal_spec(mk1, old_h.entries@[skip_index(k, pos)].meta)
                        && unseal_spec(new_mk@, h.entries@[k].meta) is Some by {
                        assert(same_place(out[k], surv@[k]));
                        assert(rest[k] == old_h.entries@[skip_index(k, pos)]);
                        assert(unseal_spec(mk1, rest[k].meta) == Some(metas@[k]@));
                    }
                    assert(resealed(old_h.entries@, mk1, h.entries@, new_mk@, Some(pos)));
                    assert forall|k: int| 0 <= k < h.entries@.len() implies sealed_as((#[trigger] h.entries@[k]).meta, new_mk@,
                        buffers(nonces@)[k], unseal_spec(mk1, rest[k].meta).unwrap()) by {
                        assert(same_place(out[k], surv@[k]));
                        assert(buffers(nonces@)[k] == nonces@[k]@);
                        assert(unseal_spec(mk1, rest[k].meta) == Some(metas@[k]@));
                    }
                }
                Ok(())
            },
            Err(e) => {
                proof {
                    let k = choose|k: int| 0 <= k < metas@.len() && (#[trigger] metas@[k])@.len() > GCM_MAX_LEN;
                    assert(unseal_spec(mk1, rest[k].meta) == Some(metas@[k]@));
                }
                Err(e)
            },
        }
    }

    /// Crypto-erase entry `id`: drop its entry and re-key the whole vault under a fresh master key,
    /// so stale copies of the dropped meta become useless. The caller then destroys the entry's
    /// blob and stores the header. The fresh key and nonces are drawn here (see [`Vault::shred_with`]);
    /// a drawn key equal to the current one is refused as a failed draw, so a shred always changes
    /// the master key.
    pub fn shred(&self, h: &mut Header, passphrase: &[u8], id: &str) -> (r: Result<(), VaultError>)
        ensures
            r is Err ==> *final(h) == *old(h),
            master_key(*old(h), passphrase@) is None ==> r is Err,
            r matches Err(VaultError::NoSuchEntry) <==> (master_key(*old(h), passphrase@) is Some && !has_id(old(h).entries@, id@)),
            r is Ok ==> shredded(*old(h), *final(h), passphrase@, id@),
            r is Ok ==> master_key(*final(h), passphrase@) != master_key(*old(h), passphrase@),
            r is Ok ==> exists|new_mk: Seq<u8>, nonces: Seq<Seq<u8>>, wrap_nonce: Seq<u8>|
                #[trigger] shredded_with(*old(h), *final(h), passphrase@, id@, new_mk, nonces, wrap_nonce),
            shred_error(*old(h), passphrase@, id@) matches Some(e) ==> r == Err::<(), VaultError>(e),
            r matches Err(e) ==> shred_error(*old(h), passphrase@, id@) == Some(e)
                || (shred_error(*old(h), passphrase@, id@) is None && (e == VaultError::Crypto(CryptoError::Rng)
                    || (e == VaultError::Crypto(CryptoError::Encrypt)
                        && has_oversized_meta(master_key(*old(h), passphrase@).unwrap(), shred_survivors(*old(h), id@))))),
    {
        let (surv, metas, kek, old_mk) = Self::shred_prepare(h, passphrase, id)?;
        let mut kek = kek;
        let mut old_mk = old_mk;
        let draws = match (random_bytes(KEY_LEN), draw_nonces(surv.len()), random_bytes(NONCE_LEN)) {
            (Ok(m), Ok(n), Ok(w)) => (m, n, w),
            _ => {
                wipe(&mut kek);
                wipe(&mut old_mk);
                wipe_all(metas);
                return Err(VaultError::Crypto(CryptoError::Rng));
            },
        };
        let (mut new_mk, nonces, wrap_nonce) = draws;
        let repeated = same_bytes(new_mk.as_slice(), old_mk.as_slice());
        wipe(&mut old_mk);
        if repeated {
            wipe(&mut kek);
            wipe(&mut new_mk);
            wipe_all(metas);
            return Err(VaultError::Crypto(CryptoError::Rng));
        }
        let r = Self::shred_finish(h, passphrase, id, surv, metas, kek, new_mk.as_slice(), &nonces, wrap_nonce.as_slice());
        wipe(&mut new_mk);
        r
    }

    /// Shred entry `id` (as [`Vault::shred`] does) with the given fresh master key, meta nonces (one
    /// per surviving entry, in order) and nonce for wrapping the master key.
    pub fn shred_with(&self, h: &mut Header, passphrase: &[u8], id: &str, new_mk: &[u8], nonces: &Vec<Vec<u8>>,
        wrap_nonce: &[u8]) -> (r: Result<(), VaultError>)
        requires
            new_mk@.len() == KEY_LEN,
            wrap_nonce@.len() == NONCE_LEN,
            nonces@.len() >= old(h).entries@.len(),
            all_nonces(nonces@),
        ensures
            r is Err ==> *final(h) == *old(h),
            match shred_error(*old(h), passphrase@, id@) {
                Some(e) => r == Err::<(), VaultError>(e),
                None => r is Ok <==> !has_oversized_meta(master_key(*old(h), passphrase@).unwrap(), shred_survivors(*old(h), id@)),
            },
            r matches Err(e) ==> shred_error(*old(h), passphrase@, id@) == Some(e)
                || e == VaultError::Crypto(CryptoError::Encrypt),
            r is Ok ==> shredded(*old(h), *final(h), passphrase@, id@),
            r is Ok ==> shredded_with(*old(h), *final(h), passphrase@, id@, new_mk@, buffers(nonces@), wrap_nonce@),
    {
        let (surv, metas, kek, mut old_mk) = Self::shred_prepare(h, passphrase, id)?;
        wipe(&mut old_mk);
        Self::shred_finish(h, passphrase, id, surv, metas, kek, new_mk, nonces, wrap_nonce)
    }

    /// Seal every plaintext of `metas` onto the matching entry under `new_mk` with the matching
    /// nonce, and wrap `new_mk` under `kek` with `wrap_nonce`. The plaintexts are wiped.
    fn reseal_under(kek: &[u8], es: Vec<Entry>, metas: Vec<Vec<u8>>, new_mk: &[u8], nonces: &Vec<Vec<u8>>, wrap_nonce: &[u8])
        -> (r: Result<(Sealed, Vec<Entry>), VaultError>)
        requires
            kek@.len() == KEY_LEN,
            new_mk@.len() == KEY_LEN,
            wrap_nonce@.len() == NONCE_LEN,
            es@.len() == metas@.len(),
            nonces@.len() >= metas@.len(),
            all_nonces(nonces@),
        ensures
            r is Ok <==> forall|k: int| 0 <= k < metas@.len() ==> (#[trigger] metas@[k])@.len() <= GCM_MAX_LEN,
            r matches Ok((wrapped, out)) ==> {
                &&& unseal_spec(kek@, wrapped) == Some(new_mk@)
                &&& sealed_as(wrapped, kek@, wrap_nonce@, new_mk@)
                &&& out@.len() == es@.len()
                &&& forall|k: int| 0 <= k < es@.len() ==> #[trigger] same_place(out@[k], es@[k])
                    && unseal_spec(new_mk@, out@[k].meta) == Some(metas@[k]@)
                    && sealed_as(out@[k].meta, new_mk@, nonces@[k]@, metas@[k]@)
            },
            r matches Err(e) ==> e == VaultError::Crypto(CryptoError::Encrypt)
                && exists|k: int| 0 <= k < metas@.len() && (#[trigger] metas@[k])@.len() > GCM_MAX_LEN,
    {
        let resealed = reseal_all(new_mk, es, &metas, nonces);
        let ghost ms = metas@;
        wipe_all(metas);
        let out = match resealed {
            Ok(o) => o,
            Err(e) => return Err(e),
        };
        let wrapped = match Self::seal_with(kek, wrap_nonce, new_mk) {
            Ok(w) => w,
            Err(e) => return Err(e),
        };
        Ok((wrapped, out))
    }

    /// Unlock the master key with `old_passphrase` and unseal every entry's meta: copies of the
    /// entries, their meta plaintexts and the current master key.
    fn rekey_prepare(h: &Header, old_passphrase: &[u8]) -> (r: Result<(Vec<Entry>, Vec<Vec<u8>>, Vec<u8>), VaultError>)
        ensures
            match rekey_error(*h, old_passphrase@) {
                Some(e) => r matches Err(x) && x == e,
                None => r is Ok,
            },
            r matches Ok((items, metas, mk)) ==> {
                &&& rekey_error(*h, old_passphrase@) is None
                &&& master_key(*h, old_passphrase@) == Some(mk@)
                &&& master_key(*h, old_passphrase@) is Some
                &&& items@.len() == metas@.len()
                &&& items@.len() == h.entries@.len()
                &&& forall|k: int| 0 <= k < items@.len() ==> #[trigger] same_entry(items@[k], h.entries@[k])
                    && unseal_spec(master_key(*h, old_passphrase@).unwrap(), items@[k].meta) == Some(metas@[k]@)
            },
    {
        let mut old_mk = Self::open_master(h, old_passphrase)?;
        let items = copy_entries(&h.entries, None);
        let ghost mk0 = old_mk@;
        proof {
            assert forall|k: int| 0 <= k < items@.len() implies #[trigger] same_entry(items@[k], h.entries@[k]) by {
                assert(same_entry(items@[k], h.entries@[source_index(k, None)]));
            }
            assert forall|k: int| 0 <= k < items@.len() implies (#[trigger] items@[k]).meta.nonce@ == h.entries@[k].meta.nonce@
                && items@[k].meta.ct@ == h.entries@[k].meta.ct@ by {
                assert(same_entry(items@[k], h.entries@[k]));
            }
            lemma_first_unseal_error_same(mk0, items@, h.entries@);
        }
        let metas = unseal_metas(old_mk.as_slice(), &items);
        let metas = match metas {
            Ok(m) => m,
            Err(e) => {
                wipe(&mut old_mk);
                return Err(e);
            },
        };
        Ok((items, metas, old_mk))
    }

    /// Derive the new key-encryption key from `new_passphrase` and `salt`, re-seal every meta under
    /// `new_mk` and wrap it, and put the new KDF settings, wrapped key and entries into the header.
    fn rekey_finish(h: &mut Header, old_passphrase: &[u8], new_passphrase: &[u8], items: Vec<Entry>, metas: Vec<Vec<u8>>,
        salt: &[u8], new_mk: &[u8], nonces: &Vec<Vec<u8>>, wrap_nonce: &[u8]) -> (r: Result<(), VaultError>)
        requires
            rekey_error(*old(h), old_passphrase@) is None,
            master_key(*old(h), old_passphrase@) is Some,
            items@.len() == metas@.len(),
            items@.len() == old(h).entries@.len(),
            forall|k: int| 0 <= k < items@.len() ==> #[trigger] same_entry(items@[k], old(h).entries@[k])
                && unseal_spec(master_key(*old(h), old_passphrase@).unwrap(), items@[k].meta) == Some(metas@[k]@),
            salt@.len() == SALT_LEN,
            new_mk@.len() == KEY_LEN,
            wrap_nonce@.len() == NONCE_LEN,
            nonces@.len() >= items@.len(),
            all_nonces(nonces@),
        ensures
            r is Err ==> *final(h) == *old(h),
            new_passphrase@.len() > 0xFFFF_FFFF ==> r == Err::<(), VaultError>(VaultError::Crypto(CryptoError::KdfFailed)),
            new_passphrase@.len() <= 0xFFFF_FFFF ==> (r is Ok <==> !has_oversized_meta(master_key(*old(h), old_passphrase@).unwrap(), old(h).entries@)),
            r matches Err(e) ==> (e == VaultError::Crypto(CryptoError::KdfFailed) && new_passphrase@.len() > 0xFFFF_FFFF)
                || (e == VaultError::Crypto(CryptoError::Encrypt)
                    && has_oversized_meta(master_key(*old(h), old_passphrase@).unwrap(), old(h).entries@)),
            r is Ok ==> rekeyed_with(*old(h), old_passphrase@, *final(h), new_passphrase@, salt@, new_mk@, buffers(nonces@), wrap_nonce@),
    {
        let ghost mk1 = master_key(*h, old_passphrase@).unwrap();
        let kdf = Kdf { alg: String::from_str("argon2id"), salt: b64_encode(salt), m_cost: M_COST, t_cost: T_COST, p_cost: P_COST };
        proof {
            assert(base64_decode(kdf.salt@) == Some(salt@));
        }
        let mut kek = match Self::derive_for(&kdf, new_passphrase) {
            Ok(k) => k,
            Err(e) => {
                wipe_all(metas);
                return Err(e);
            },
        };
        let ghost kek0 = kek@;
        proof {
            assert forall|k: int| 0 <= k < items@.len() implies unseal_spec(mk1, (#[trigger] h.entries@[k]).meta) == Some(metas@[k]@) by {
                assert(same_entry(items@[k], h.entries@[k]));
            }
        }
        let r = Self::reseal_under(kek.as_slice(), items, metas, new_mk, nonces, wrap_nonce);
        wipe(&mut kek);
        match r {
            Ok((wrapped, entries)) => {
                let ghost old_h = *h;
                let ghost out = entries@;
                h.kdf = kdf;
                h.wrapped_master = wrapped;
                h.entries = entries;
                proof {
                    assert(h.entries@ == out);
                    assert(kek_spec(h.kdf, new_passphrase@) == Some(kek0));
                    assert(master_key(*h, new_passphrase@) == Some(new_mk@));
                    assert forall|k: int| 0 <= k < h.entries@.len() implies #[trigger] same_place(h.entries@[k], old_h.entries@[k]) by {
                        assert(same_place(out[k], items@[k]));
                        assert(same_entry(items@[k], old_h.entries@[k]));
                    }
                    assert forall|k: int| 0 <= k < h.entries@.len() implies #[trigger] unseal_spec(new_mk@, h.entries@[k].meta) == unseal_spec(mk1, old_h.entries@[k].meta)
                        && unseal_spec(new_mk@, h.entries@[k].meta) is Some by {
                        assert(same_place(out[k], items@[k]));
                        assert(unseal_spec(mk1, old_h.entries@[k].meta) == Some(metas@[k]@));
                    }
                    assert(resealed(old_h.entries@, mk1, h.entries@, new_mk@, None));
                    assert forall|k: int| 0 <= k < h.entries@.len() implies sealed_as((#[trigger] h.entries@[k]).meta, new_mk@,
                        buffers(nonces@)[k], unseal_spec(mk1, old_h.entries@[k].meta).unwrap()) by {
                        assert(same_place(out[k], items@[k]));
                        assert(buffers(nonces@)[k] == nonces@[k]@);
                        assert(unseal_spec(mk1, old_h.entries@[k].meta) == Some(metas@[k]@));
                    }
                }
                Ok(())
            },
            Err(e) => {
                proof {
                    let k = choose|k: int| 0 <= k < metas@.len() && (#[trigger] metas@[k])@.len() > GCM_MAX_LEN;
                    assert(unseal_spec(mk1, h.entries@[k].meta) == Some(metas@[k]@));
                }
                Err(e)
            },
        }
    }

    /// Re-key the whole vault under a new passphrase: fresh salt and KDF settings, a fresh master
    /// key, every entry re-sealed. Stale copies of the old wrapped master then need the old
    /// passphrase, which is gone. The fresh values are drawn here (see [`Vault::rekey_with`]); a
    /// drawn master key equal to the current one is refused as a failed draw, so a re-key always
    /// changes the master key.
    pub fn rekey(&self, h: &mut Header, old_passphrase: &[u8], new_passphrase: &[u8]) -> (r: Result<(), VaultError>)
        ensures
            r is Err ==> *final(h) == *old(h),
            master_key(*old(h), old_passphrase@) is None ==> r is Err,
            r is Ok ==> rekeyed(*old(h), old_passphrase@, *final(h), new_passphrase@),
            r is Ok ==> master_key(*final(h), new_passphrase@) != master_key(*old(h), old_passphrase@),
            r is Ok ==> exists|salt: Seq<u8>, new_mk: Seq<u8>, nonces: Seq<Seq<u8>>, wrap_nonce: Seq<u8>|
                #[trigger] rekeyed_with(*old(h), old_passphrase@, *final(h), new_passphrase@, salt, new_mk, nonces, wrap_nonce),
            rekey_error(*old(h), old_passphrase@) matches Some(e) ==> r == Err::<(), VaultError>(e),
            rekey_error(*old(h), old_passphrase@) is None && new_passphrase@.len() > 0xFFFF_FFFF ==> r is Err,
            r matches Err(e) ==> rekey_error(*old(h), old_passphrase@) == Some(e)
                || (rekey_error(*old(h), old_passphrase@) is None && (e == VaultError::Crypto(CryptoError::Rng)
                    || (e == VaultError::Crypto(CryptoError::KdfFailed) && new_passphrase@.len() > 0xFFFF_FFFF)
                    || (e == VaultError::Crypto(CryptoError::Encrypt)
                        && has_oversized_meta(master_key(*old(h), old_passphrase@).unwrap(), old(h).entries@)))),
    {
        let (items, metas, old_mk) = Self::rekey_prepare(h, old_passphrase)?;
        let mut old_mk = old_mk;
        let draws = match (random_bytes(SALT_LEN), random_bytes(KEY_LEN), draw_nonces(items.len()), random_bytes(NONCE_LEN)) {
            (Ok(s), Ok(m), Ok(n), Ok(w)) => (s, m, n, w),
            _ => {
                wipe(&mut old_mk);
                wipe_all(metas);
                return Err(VaultError::Crypto(CryptoError::Rng));
            },
        };
        let (salt, mut new_mk, nonces, wrap_nonce) = draws;
        let repeated = same_bytes(new_mk.as_slice(), old_mk.as_slice());
        wipe(&mut old_mk);
        if repeated {
            wipe(&mut new_mk);
            wipe_all(metas);
            return Err(VaultError::Crypto(CryptoError::Rng));
        }
        let r = Self::rekey_finish(h, old_passphrase, new_passphrase, items, metas, salt.as_slice(), new_mk.as_slice(),
            &nonces, wrap_nonce.as_slice());
        wipe(&mut new_mk);
        r
    }

    /// Re-key the whole vault (as [`Vault::rekey`] does) with the given salt, master key, meta
    /// nonces (one per entry, in order) and nonce for wrapping the master key.
    pub fn rekey_with(&self, h: &mut Header, old_passphrase: &[u8], new_passphrase: &[u8], salt: &[u8], new_mk: &[u8],
        nonces: &Vec<Vec<u8>>, wrap_nonce: &[u8]) -> (r: Result<(), VaultError>)
        requires
            salt@.len() == SALT_LEN,
            new_mk@.len() == KEY_LEN,
            wrap_nonce@.len() == NONCE_LEN,
            nonces@.len() >= old(h).entries@.len(),
            all_nonces(nonces@),
        ensures
            r is Err ==> *final(h) == *old(h),
            match rekey_error(*old(h), old_passphrase@) {
                Some(e) => r == Err::<(), VaultError>(e),
                None => if new_passphrase@.len() > 0xFFFF_FFFF {
                    r == Err::<(), VaultError>(VaultError::Crypto(CryptoError::KdfFailed))
                } else {
                    r is Ok <==> !has_oversized_meta(master_key(*old(h), old_passphrase@).unwrap(), old(h).entries@)
                },
            },
            r matches Err(e) ==> rekey_error(*old(h), old_passphrase@) == Some(e)
                || e == VaultError::Crypto(CryptoError::KdfFailed) || e == VaultError::Crypto(CryptoError::Encrypt),
            r is Ok ==> rekeyed(*old(h), old_passphrase@, *final(h), new_passphrase@),
            r is Ok ==> rekeyed_with(*old(h), old_passphrase@, *final(h), new_passphrase@, salt@, new_mk@, buffers(nonces@), wrap_nonce@),
    {
        let (items, metas, mut old_mk) = Self::rekey_prepare(h, old_passphrase)?;
        wipe(&mut old_mk);
        Self::rekey_finish(h, old_passphrase, new_passphrase, items, metas, salt, new_mk, nonces, wrap_nonce)
    }
}

} // verus!
