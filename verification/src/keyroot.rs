//! Pluggable hardware key root for the vault.
//!
//! A key root seals a random 32-byte root-wrapping key (RWK) so that it can only be recovered with
//! the help of a piece of hardware (a TPM / Secure Enclave). The vault combines the recovered RWK
//! with the passphrase key (see [`derive_wrap_key`]) to unwrap the master key, so both factors are
//! mandatory.
//!
//! The platform roots reach the OS tools by running them; that part lives with the caller. What is
//! here decides: how a helper's exit code and output map to a result, which persistent handle a key
//! id owns, and the in-memory [`MockKeyRoot`] that models a hardware crypto-erase.
use crate::crypto::{
    b64_decode, b64_encode, base64_decode, base64_encode, extend_bytes, hkdf_sha256_32, random_bytes, sha256, sha256_digest,
    wipe, CryptoError,
};
use crate::text::{
    contains, decimal, i64_to_decimal, is_digit, lemma_decimal_all_digits, lemma_signed_decimal_injective, occurs_at, push_char, signed_decimal, str_eq, to_lower,
};
use vstd::prelude::*;

verus! {

/// Length of the root-wrapping key.
pub const RWK_LEN: usize = 32;

pub const PROVIDER_WINDOWS: &'static str = "windows-pcp";
pub const PROVIDER_LINUX: &'static str = "tpm2-tools";
pub const PROVIDER_MACOS: &'static str = "secure-enclave";
pub const PROVIDER_MOCK: &'static str = "mock";

/// Identifies a sealing key inside a provider. `scope` is "user" (default) or "machine".
#[derive(Debug)]
pub struct RootCtx {
    pub key_id: String,
    pub scope: String,
}

impl Clone for RootCtx {
    fn clone(&self) -> (r: Self)
        ensures
            r.key_id@ == self.key_id@,
            r.scope@ == self.scope@,
    {
        RootCtx { key_id: self.key_id.clone(), scope: self.scope.clone() }
    }
}

impl RootCtx {
    /// A user-scoped context for `key_id`.
    pub fn new(key_id: &str) -> (c: RootCtx)
        ensures
            c.key_id@ == key_id@,
            c.scope@ == "user"@,
    {
        RootCtx { key_id: String::from_str(key_id), scope: String::from_str("user") }
    }
}

/// The distinct failure modes a hardware root reports; "no usable hardware", "key destroyed" and
/// "wrong passphrase" are never collapsed into one.
#[derive(Debug, Clone, Copy, PartialEq, Eq, Structural)]
pub enum KeyRootError {
    /// No usable hardware on this machine. Helper exit 10.
    NoUsableHw,
    /// The named sealing key is gone. Exit 11.
    KeyNotFound,
    /// The hardware rejected the blob. Exit 12.
    CryptoFail,
    /// A key with this id already exists. Exit 13.
    KeyExists,
    /// The secret fed to the helper was malformed. Exit 20.
    BadInput,
    /// The platform helper could not be launched.
    ToolUnavailable,
    /// Any other non-zero exit.
    Other(i32),
}

/// The error a helper exit code stands for.
pub open spec fn error_for_exit(code: Option<i32>) -> KeyRootError {
    match code {
        Some(10) => KeyRootError::NoUsableHw,
        Some(11) => KeyRootError::KeyNotFound,
        Some(12) => KeyRootError::CryptoFail,
        Some(13) => KeyRootError::KeyExists,
        Some(20) => KeyRootError::BadInput,
        Some(n) => KeyRootError::Other(n),
        None => KeyRootError::Other(-1i32),
    }
}

/// The description each error displays.
pub open spec fn error_message(e: KeyRootError) -> Seq<char> {
    match e {
        KeyRootError::NoUsableHw => "no usable hardware key store on this machine"@,
        KeyRootError::KeyNotFound => "the vault's hardware sealing key is gone"@,
        KeyRootError::CryptoFail => "the hardware rejected the sealed key (corrupt or key mismatch)"@,
        KeyRootError::KeyExists => "a hardware key with this id already exists"@,
        KeyRootError::BadInput => "malformed input to the hardware helper"@,
        KeyRootError::ToolUnavailable => "the platform hardware-key helper is not available"@,
        KeyRootError::Other(n) => "hardware helper failed (exit "@ + signed_decimal(n as int) + ")"@,
    }
}

/// Each hardware-key error reads differently: two different errors, two different exit codes of
/// `Other` among them, never display the same message.
pub proof fn lemma_error_messages_distinct(a: KeyRootError, b: KeyRootError)
    requires
        a != b,
    ensures
        error_message(a) != error_message(b),
{
    reveal_strlit("no usable hardware key store on this machine");
    reveal_strlit("the vault's hardware sealing key is gone");
    reveal_strlit("the hardware rejected the sealed key (corrupt or key mismatch)");
    reveal_strlit("a hardware key with this id already exists");
    reveal_strlit("malformed input to the hardware helper");
    reveal_strlit("the platform hardware-key helper is not available");
    reveal_strlit("hardware helper failed (exit ");
    reveal_strlit(")");
    let p = "hardware helper failed (exit "@;
    match (a, b) {
        (KeyRootError::Other(x), KeyRootError::Other(y)) => {
            let ma = error_message(a);
            let mb = error_message(b);
            if ma == mb {
                assert(ma.subrange(p.len() as int, ma.len() - 1) == signed_decimal(x as int));
                assert(mb.subrange(p.len() as int, mb.len() - 1) == signed_decimal(y as int));
                lemma_signed_decimal_injective(x as int, y as int);
            }
        },
        (KeyRootError::Other(_), _) => {
            assert(error_message(a)[0] == 'h');
            assert(error_message(a)[0] != error_message(b)[0]);
        },
        (_, KeyRootError::Other(_)) => {
            assert(error_message(b)[0] == 'h');
            assert(error_message(a)[0] != error_message(b)[0]);
        },
        _ => {
            assert(error_message(a).len() != error_message(b).len());
        },
    }
}

/// No hardware-key error message mentions the passphrase.
pub proof fn lemma_error_messages_avoid_passphrase(e: KeyRootError)
    ensures
        !contains(error_message(e), "passphrase"@),
{
    reveal_strlit("passphrase");
    reveal_strlit("no usable hardware key store on this machine");
    reveal_strlit("the vault's hardware sealing key is gone");
    reveal_strlit("the hardware rejected the sealed key (corrupt or key mismatch)");
    reveal_strlit("a hardware key with this id already exists");
    reveal_strlit("malformed input to the hardware helper");
    reveal_strlit("the platform hardware-key helper is not available");
    let m = error_message(e);
    if contains(m, "passphrase"@) {
        let i = choose|i: int| occurs_at(m, "passphrase"@, i);
        assert(m.subrange(i, i + 10)[2] == 's');
        assert(m.subrange(i, i + 10)[3] == 's');
        assert(m[i + 2] == 's' && m[i + 3] == 's');
        if let KeyRootError::Other(n) = e {
            reveal_strlit("hardware helper failed (exit ");
            reveal_strlit(")");
            let d = signed_decimal(n as int);
            if n < 0 {
                lemma_decimal_all_digits((-n) as nat);
                assert(forall|k: int| 1 <= k < d.len() ==> is_digit(#[trigger] d[k]) && d[k] == decimal((-n) as nat)[k - 1]);
            } else {
                lemma_decimal_all_digits(n as nat);
            }
            assert(m == "hardware helper failed (exit "@ + d + ")"@);
            if 29 <= i + 2 < 29 + d.len() {
                assert(m[i + 2] == d[i + 2 - 29]);
            }
            if 29 <= i + 3 < 29 + d.len() {
                assert(m[i + 3] == d[i + 3 - 29]);
            }
        }
    }
}

/// The message of `Other(n)` shows the exit code `n` in decimal.
pub proof fn lemma_other_message_shows_code(n: i32)
    ensures
        contains(error_message(KeyRootError::Other(n)), signed_decimal(n as int)),
{
    reveal_strlit("hardware helper failed (exit ");
    reveal_strlit(")");
    let d = signed_decimal(n as int);
    let m = error_message(KeyRootError::Other(n));
    assert("hardware helper failed (exit "@.len() == 29);
    assert(m.subrange(29, 29 + d.len() as int) =~= d);
    assert(occurs_at(m, d, 29));
}

impl KeyRootError {
    /// Map a helper process exit code to an error (never called with `Some(0)`, which is success).
    pub fn from_exit(code: Option<i32>) -> (e: KeyRootError)
        ensures
            e == error_for_exit(code),
    {
        match code {
            Some(10) => KeyRootError::NoUsableHw,
            Some(11) => KeyRootError::KeyNotFound,
            Some(12) => KeyRootError::CryptoFail,
            Some(13) => KeyRootError::KeyExists,
            Some(20) => KeyRootError::BadInput,
            Some(n) => KeyRootError::Other(n),
            None => KeyRootError::Other(-1),
        }
    }

    /// The description the error displays.
    pub fn message(&self) -> (s: String)
        ensures
            s@ == error_message(*self),
    {
        match self {
            KeyRootError::NoUsableHw => String::from_str("no usable hardware key store on this machine"),
            KeyRootError::KeyNotFound => String::from_str("the vault's hardware sealing key is gone"),
            KeyRootError::CryptoFail => String::from_str("the hardware rejected the sealed key (corrupt or key mismatch)"),
            KeyRootError::KeyExists => String::from_str("a hardware key with this id already exists"),
            KeyRootError::BadInput => String::from_str("malformed input to the hardware helper"),
            KeyRootError::ToolUnavailable => String::from_str("the platform hardware-key helper is not available"),
            KeyRootError::Other(n) => {
                let s = String::from_str("hardware helper failed (exit ");
                let d = i64_to_decimal(*n as i64);
                let s = s.concat(d.as_str());
                s.concat(")")
            },
        }
    }
}

/// Seal / unseal a 32-byte RWK behind a hardware key, and destroy that key.
pub trait KeyRoot {
    /// A stable id for the provider, stored in the vault header.
    fn provider_id(&self) -> &'static str;

    /// Seal `rwk` behind the (created-if-absent) hardware key `ctx.key_id`; returns the wrapped blob.
    fn seal_rwk(&mut self, ctx: &RootCtx, rwk: &[u8]) -> Result<String, KeyRootError>
        requires
            rwk@.len() == RWK_LEN,
    ;

    /// Recover the RWK from `wrapped` using the hardware key `ctx.key_id`.
    fn unseal_rwk(&self, ctx: &RootCtx, wrapped: &str) -> Result<Vec<u8>, KeyRootError>;

    /// Destroy the hardware key `ctx.key_id`. Idempotent.
    fn destroy(&mut self, ctx: &RootCtx) -> Result<(), KeyRootError>;

    /// Whether the hardware key `ctx.key_id` currently exists.
    fn key_present(&self, ctx: &RootCtx) -> Result<bool, KeyRootError>;
}

// ------------------------------------------------------------------------------------------------
// The master-wrapping key.
// ------------------------------------------------------------------------------------------------

/// `v` as four big-endian bytes.
pub open spec fn be32(v: u32) -> Seq<u8> {
    seq![(v / 0x100_0000) as u8, ((v / 0x1_0000) % 0x100) as u8, ((v / 0x100) % 0x100) as u8, (v % 0x100) as u8]
}

/// The HKDF `info` that binds the vault version, provider, key id and wrapped RWK.
pub open spec fn wrap_info(version: u32, provider: Seq<char>, key_id: Seq<char>, wrapped_rwk: Seq<char>) -> Seq<u8> {
    vstd::utf8::encode_utf8("secure-delete/wrap/v2"@) + be32(version) + vstd::utf8::encode_utf8(provider) + seq![0u8]
        + vstd::utf8::encode_utf8(key_id) + seq![0u8] + vstd::utf8::encode_utf8(wrapped_rwk)
}

fn be32_bytes(v: u32) -> (b: Vec<u8>)
    ensures
        b@ == be32(v),
{
    let mut b: Vec<u8> = Vec::new();
    b.push((v / 0x100_0000) as u8);
    b.push(((v / 0x1_0000) % 0x100) as u8);
    b.push(((v / 0x100) % 0x100) as u8);
    b.push((v % 0x100) as u8);
    proof {
        assert(b@ =~= be32(v));
    }
    b
}

/// Combine the hardware RWK with the passphrase KEK into the master-wrapping key: HKDF-SHA256 over
/// `rwk || kek` with the vault salt and an `info` that binds the vault version, provider, key id and
/// the wrapped-RWK text, so a tampered header derives a different key.
pub fn derive_wrap_key(rwk: &[u8], kek: &[u8], salt: &[u8], version: u32, provider: &str, key_id: &str, wrapped_rwk: &str) -> (r: Result<Vec<u8>, CryptoError>)
    requires
        rwk@.len() == RWK_LEN,
        kek@.len() == 32,
    ensures
        r matches Ok(k) && (k@ == hkdf_sha256_32(salt@, rwk@ + kek@, wrap_info(version, provider@, key_id@, wrapped_rwk@))
            && k@.len() == 32),
{
    let mut ikm: Vec<u8> = Vec::new();
    extend_bytes(&mut ikm, rwk);
    extend_bytes(&mut ikm, kek);
    let mut info: Vec<u8> = Vec::new();
    extend_bytes(&mut info, "secure-delete/wrap/v2".as_bytes());
    let ver = be32_bytes(version);
    extend_bytes(&mut info, ver.as_slice());
    extend_bytes(&mut info, provider.as_bytes());
    info.push(0u8);
    extend_bytes(&mut info, key_id.as_bytes());
    info.push(0u8);
    extend_bytes(&mut info, wrapped_rwk.as_bytes());
    proof {
        assert(info@ =~= wrap_info(version, provider@, key_id@, wrapped_rwk@));
    }
    let wk = crate::crypto::hkdf_wrap(salt, ikm.as_slice(), info.as_slice());
    wipe(&mut ikm);
    Ok(wk)
}

// ------------------------------------------------------------------------------------------------
// Platform roots: decisions on what the helper tools report.
// ------------------------------------------------------------------------------------------------

/// The platforms a provider default exists for.
#[derive(Debug, Clone, Copy, PartialEq, Eq, Structural)]
pub enum Platform {
    Windows,
    Linux,
    MacOs,
    Other,
}

/// The UTF-16 code units of one character, little-endian: one unit below U+10000, a surrogate
/// pair above.
pub open spec fn utf16le_char(c: char) -> Seq<u8> {
    let v = (c as u32) as int;
    if v < 0x10000 {
        seq![(v % 256) as u8, (v / 256) as u8]
    } else {
        let w = v - 0x10000;
        let hi = 0xD800 + w / 0x400;
        let lo = 0xDC00 + w % 0x400;
        seq![(hi % 256) as u8, (hi / 256) as u8, (lo % 256) as u8, (lo / 256) as u8]
    }
}

/// A text as UTF-16LE bytes.
pub open spec fn utf16le(s: Seq<char>) -> Seq<u8>
    decreases s.len(),
{
    if s.len() == 0 { Seq::empty() } else { utf16le(s.drop_last()) + utf16le_char(s.last()) }
}

fn utf16le_bytes(s: &str) -> (b: Vec<u8>)
    ensures
        b@ == utf16le(s@),
{
    let cs = crate::text::chars_of(s);
    let mut b: Vec<u8> = Vec::new();
    let mut i: usize = 0;
    while i < cs.len()
        invariant
            i <= cs@.len(),
            cs@ == s@,
            b@ == utf16le(cs@.subrange(0, i as int)),
        decreases cs.len() - i,
    {
        let c = cs[i];
        let v = c as u32;
        let ghost before = b@;
        proof {
            assert(cs@.subrange(0, i + 1).drop_last() =~= cs@.subrange(0, i as int));
            vstd::utf8::char_is_scalar(c);
        }
        if v < 0x10000 {
            b.push((v % 256) as u8);
            b.push((v / 256) as u8);
        } else {
            let w = v - 0x10000;
            let hi = 0xD800 + w / 0x400;
            let lo = 0xDC00 + w % 0x400;
            b.push((hi % 256) as u8);
            b.push((hi / 256) as u8);
            b.push((lo % 256) as u8);
            b.push((lo / 256) as u8);
        }
        proof {
            assert(b@ =~= before + utf16le_char(c));
        }
        i = i + 1;
    }
    proof {
        assert(cs@.subrange(0, cs@.len() as int) =~= cs@);
    }
    b
}

/// A PowerShell script for `-EncodedCommand`: base64 of its UTF-16LE bytes. The script carries no
/// secret, so script logging never captures the RWK, which travels only on standard input.
pub fn ps_encoded(script: &str) -> (r: String)
    ensures
        r@ == base64_encode(utf16le(script@)),
{
    let b = utf16le_bytes(script);
    b64_encode(b.as_slice())
}

/// TPM-backed key root on Windows (Microsoft Platform Crypto Provider, via PowerShell).
pub struct WindowsTpmRoot;

impl WindowsTpmRoot {
    /// A usable TPM is present when the create/round-trip/delete probe script exits 0.
    pub fn probe(outcome: Result<i32, KeyRootError>) -> (b: bool)
        ensures
            b == (outcome == Ok::<i32, KeyRootError>(0)),
    {
        match outcome {
            Ok(0) => true,
            _ => false,
        }
    }

    /// What the seal script reads on standard input: the RWK in base64.
    pub fn seal_input(rwk: &[u8]) -> (r: String)
        requires
            rwk@.len() == RWK_LEN,
        ensures
            r@ == base64_encode(rwk@),
    {
        b64_encode(rwk)
    }

    /// The result of the seal script: its output when it exits 0 with output, `Other(0)` when it
    /// exits 0 silently, and the exit-code error otherwise.
    pub fn seal_outcome(code: i32, out: String) -> (r: Result<String, KeyRootError>)
        ensures
            code == 0 && out@.len() > 0 ==> (r matches Ok(w) && w@ == out@),
            code == 0 && out@.len() == 0 ==> r == Err::<String, KeyRootError>(KeyRootError::Other(0)),
            code != 0 ==> r == Err::<String, KeyRootError>(error_for_exit(Some(code))),
    {
        if code == 0 {
            if out.as_str().is_empty() {
                Err(KeyRootError::Other(0))
            } else {
                Ok(out)
            }
        } else {
            Err(KeyRootError::from_exit(Some(code)))
        }
    }

    /// The result of the unseal script: the 32 bytes its base64 output decodes to.
    pub fn unseal_outcome(code: i32, out: &str) -> (r: Result<Vec<u8>, KeyRootError>)
        ensures
            code != 0 ==> r == Err::<Vec<u8>, KeyRootError>(error_for_exit(Some(code))),
            code == 0 ==> match base64_decode(out@) {
                Some(b) => if b.len() == RWK_LEN { (r matches Ok(v) && v@ == b) } else { r == Err::<Vec<u8>, KeyRootError>(KeyRootError::CryptoFail) },
                None => r == Err::<Vec<u8>, KeyRootError>(KeyRootError::CryptoFail),
            },
    {
        if code != 0 {
            return Err(KeyRootError::from_exit(Some(code)));
        }
        let mut bytes = match b64_decode(out) {
            Ok(b) => b,
            Err(_) => return Err(KeyRootError::CryptoFail),
        };
        if bytes.len() != RWK_LEN {
            wipe(&mut bytes);
            return Err(KeyRootError::CryptoFail);
        }
        Ok(bytes)
    }

    /// The result of the destroy script.
    pub fn destroy_outcome(code: i32) -> (r: Result<(), KeyRootError>)
        ensures
            code == 0 ==> r is Ok,
            code != 0 ==> r == Err::<(), KeyRootError>(error_for_exit(Some(code))),
    {
        if code == 0 { Ok(()) } else { Err(KeyRootError::from_exit(Some(code))) }
    }

    /// The result of the presence script: exit 0 is present, 11 is absent.
    pub fn present_outcome(code: i32) -> (r: Result<bool, KeyRootError>)
        ensures
            code == 0 ==> r == Ok::<bool, KeyRootError>(true),
            code == 11 ==> r == Ok::<bool, KeyRootError>(false),
            code != 0 && code != 11 ==> r == Err::<bool, KeyRootError>(error_for_exit(Some(code))),
    {
        if code == 0 {
            Ok(true)
        } else if code == 11 {
            Ok(false)
        } else {
            Err(KeyRootError::from_exit(Some(code)))
        }
    }
}

/// Lower-case hexadecimal digit for `d` (0..=15).
pub open spec fn hex_digit(d: nat) -> char {
    if d < 10 { crate::text::digit(d) } else if d == 10 { 'a' } else if d == 11 { 'b' } else if d == 12 { 'c' }
    else if d == 13 { 'd' } else if d == 14 { 'e' } else { 'f' }
}

fn hex_digit_exec(d: u8) -> (c: char)
    requires
        d < 16,
    ensures
        c == hex_digit(d as nat),
{
    if d == 0 { '0' } else if d == 1 { '1' } else if d == 2 { '2' } else if d == 3 { '3' }
    else if d == 4 { '4' } else if d == 5 { '5' } else if d == 6 { '6' } else if d == 7 { '7' }
    else if d == 8 { '8' } else if d == 9 { '9' } else if d == 10 { 'a' } else if d == 11 { 'b' }
    else if d == 12 { 'c' } else if d == 13 { 'd' } else if d == 14 { 'e' } else { 'f' }
}

/// Two lower-case hex digits per byte.
pub open spec fn hex(b: Seq<u8>) -> Seq<char>
    decreases b.len(),
{
    if b.len() == 0 {
        Seq::empty()
    } else {
        hex(b.drop_last()).push(hex_digit((b.last() / 16) as nat)).push(hex_digit((b.last() % 16) as nat))
    }
}

/// `b` as lower-case hex (two digits per byte).
pub fn hexs(b: &[u8]) -> (s: String)
    ensures
        s@ == hex(b@),
{
    let mut s = String::new();
    let mut i: usize = 0;
    while i < b.len()
        invariant
            i <= b@.len(),
            s@ == hex(b@.subrange(0, i as int)),
        decreases b.len() - i,
    {
        let x = b[i];
        proof {
            assert(b@.subrange(0, i + 1).drop_last() =~= b@.subrange(0, i as int));
        }
        push_char(&mut s, hex_digit_exec(x / 16));
        push_char(&mut s, hex_digit_exec(x % 16));
        i = i + 1;
    }
    proof {
        assert(b@.subrange(0, b@.len() as int) =~= b@);
    }
    s
}

/// The persistent TPM handle owned by a key id: `0x8101` followed by the first two bytes of the
/// SHA-256 of the id, in hex.
pub open spec fn handle_for(key_id: Seq<char>) -> Seq<char> {
    let d = sha256(vstd::utf8::encode_utf8(key_id));
    "0x8101"@ + hex(seq![d[0], d[1]])
}

/// TPM 2.0 key root on Linux via `tpm2-tools`: the RWK is sealed into a persistent object that
/// `destroy` evicts.
pub struct LinuxTpm2Root;

impl LinuxTpm2Root {
    /// The shared persistent storage-root key handle.
    pub const SRK: &'static str = "0x81000001";

    /// A usable TPM 2.0 is present when `tpm2_getcap properties-fixed` exits 0.
    pub fn probe(outcome: Result<i32, KeyRootError>) -> (b: bool)
        ensures
            b == (outcome == Ok::<i32, KeyRootError>(0)),
    {
        match outcome {
            Ok(0) => true,
            _ => false,
        }
    }

    /// Deterministic persistent handle in the owner range (0x8101_0000..=0x8101_ffff) from the key id.
    pub fn handle(key_id: &str) -> (h: String)
        ensures
            h@ == handle_for(key_id@),
    {
        let d = sha256_digest(key_id.as_bytes());
        let mut two: Vec<u8> = Vec::new();
        two.push(d[0]);
        two.push(d[1]);
        let hx = hexs(two.as_slice());
        proof {
            assert(two@ =~= seq![d@[0], d@[1]]);
        }
        let s = String::from_str("0x8101");
        s.concat(hx.as_str())
    }

    /// Whether `tpm2_getcap handles-persistent` (exit `code`, output `out`) lists `handle`.
    pub fn is_persistent(code: i32, out: &str, handle: &str) -> (b: bool)
        ensures
            b == (code == 0 && crate::text::contains(crate::text::unicode_lowercase(out@), crate::text::unicode_lowercase(handle@))),
    {
        if code != 0 {
            return false;
        }
        let o = to_lower(out);
        let h = to_lower(handle);
        crate::text::str_contains(o.as_str(), h.as_str())
    }

    /// The result of `tpm2_unseal`: the first 32 bytes of its output, when it exits 0 with exactly
    /// 32 bytes.
    pub fn unseal_outcome(code: i32, out: &[u8]) -> (r: Result<Vec<u8>, KeyRootError>)
        ensures
            match r {
                Ok(v) => code == 0 && out@.len() == RWK_LEN && v@ == out@,
                Err(e) => (code != 0 || out@.len() != RWK_LEN) && e == KeyRootError::CryptoFail,
            },
    {
        if code != 0 {
            return Err(KeyRootError::CryptoFail);
        }
        if out.len() != RWK_LEN {
            return Err(KeyRootError::CryptoFail);
        }
        let mut v: Vec<u8> = Vec::new();
        extend_bytes(&mut v, out);
        Ok(v)
    }

    /// The result of evicting the persistent object.
    pub fn destroy_outcome(code: i32) -> (r: Result<(), KeyRootError>)
        ensures
            code == 0 ==> r is Ok,
            code != 0 ==> r == Err::<(), KeyRootError>(KeyRootError::Other(code)),
    {
        if code == 0 { Ok(()) } else { Err(KeyRootError::Other(code)) }
    }

    /// The next step of sealing an RWK, after the current step reported `event` (see [`SealStep`]).
    pub fn seal_step(step: SealStep, event: Result<bool, KeyRootError>) -> (next: SealStep)
        ensures
            next == seal_next(step, event),
    {
        match step {
            SealStep::CheckHandle => match event {
                Ok(true) => SealStep::Done(Err(KeyRootError::KeyExists)),
                _ => SealStep::CheckSrk,
            },
            SealStep::CheckSrk => match event {
                Ok(true) => SealStep::WorkDir,
                _ => SealStep::SrkWorkDir,
            },
            SealStep::SrkWorkDir => match event {
                Err(e) => SealStep::Done(Err(e)),
                Ok(_) => SealStep::SrkCreatePrimary,
            },
            SealStep::SrkCreatePrimary => match event {
                Err(e) => SealStep::SrkCleanup(Err(e)),
                Ok(_) => SealStep::SrkPersist,
            },
            SealStep::SrkPersist => match event {
                Err(e) => SealStep::SrkCleanup(Err(e)),
                Ok(_) => SealStep::SrkCleanup(Ok(())),
            },
            SealStep::SrkCleanup(created) => SealStep::SrkRecheck(created),
            SealStep::SrkRecheck(created) => match event {
                Ok(true) => SealStep::WorkDir,
                _ => match created {
                    Ok(()) => SealStep::WorkDir,
                    Err(e) => SealStep::Done(Err(e)),
                },
            },
            SealStep::WorkDir => match event {
                Err(e) => SealStep::Done(Err(e)),
                Ok(_) => SealStep::Create,
            },
            SealStep::Create => match event {
                Err(e) => SealStep::Cleanup(Err(e)),
                Ok(_) => SealStep::Load,
            },
            SealStep::Load => match event {
                Err(e) => SealStep::Cleanup(Err(e)),
                Ok(_) => SealStep::Evict,
            },
            SealStep::Evict => match event {
                Err(e) => SealStep::Cleanup(Err(e)),
                Ok(_) => SealStep::Cleanup(Ok(())),
            },
            SealStep::Cleanup(result) => match result {
                Ok(()) => SealStep::Done(Ok(())),
                Err(e) => SealStep::Done(Err(e)),
            },
            SealStep::Done(r) => SealStep::Done(r),
        }
    }
}

/// The wrapped blob a finished seal returns: empty, since the RWK lives in the TPM.
pub fn seal_result(done: Result<(), KeyRootError>) -> (r: Result<String, KeyRootError>)
    ensures
        match done {
            Ok(()) => r matches Ok(s) && s@.len() == 0,
            Err(e) => r == Err::<String, KeyRootError>(e),
        },
{
    match done {
        Ok(()) => Ok(String::new()),
        Err(e) => Err(e),
    }
}

/// What a `tpm2_*` command that must succeed came to: exit 0 is success, another exit a
/// `CryptoFail`, and a command that could not be started its own error.
pub fn tpm2_ok(run: Result<i32, KeyRootError>) -> (r: Result<(), KeyRootError>)
    ensures
        match run {
            Ok(code) => if code == 0 { r is Ok } else { r == Err::<(), KeyRootError>(KeyRootError::CryptoFail) },
            Err(e) => r == Err::<(), KeyRootError>(e),
        },
{
    match run {
        Ok(0) => Ok(()),
        Ok(_) => Err(KeyRootError::CryptoFail),
        Err(e) => Err(e),
    }
}

/// Sealing an RWK into a persistent TPM object on Linux, one outside step at a time. Each state
/// names the work the caller does next; the caller reports back `Ok(b)` (for a check: whether the
/// handle is persistent; for a work directory or a `tpm2_*` command: done) or the error
/// ([`tpm2_ok`] maps a command's exit to it). The clean-up steps report `Ok(true)`.
pub enum SealStep {
    /// Is the key id's handle already persistent?
    CheckHandle,
    /// Is the storage-root key already persistent?
    CheckSrk,
    /// Make a RAM-backed work directory for creating the storage-root key.
    SrkWorkDir,
    /// `tpm2_createprimary -C o -c <dir>/primary.ctx`.
    SrkCreatePrimary,
    /// `tpm2_evictcontrol -C o -c <dir>/primary.ctx 0x81000001`.
    SrkPersist,
    /// Flush the transient primary and remove its work directory; carries how creating went.
    SrkCleanup(Result<(), KeyRootError>),
    /// Is the storage-root key persistent now (someone, maybe us, made it)?
    SrkRecheck(Result<(), KeyRootError>),
    /// Make the RAM-backed work directory for the sealed object.
    WorkDir,
    /// `tpm2_create` under the storage-root key, the RWK on standard input.
    Create,
    /// `tpm2_load` the sealed object.
    Load,
    /// `tpm2_evictcontrol` the sealed object to the key id's handle.
    Evict,
    /// Flush the transient sealed object and remove the work directory; carries the outcome.
    Cleanup(Result<(), KeyRootError>),
    /// Finished: sealed, or the error.
    Done(Result<(), KeyRootError>),
}

/// The step after `step` once it reported `event`.
pub open spec fn seal_next(step: SealStep, event: Result<bool, KeyRootError>) -> SealStep {
    match step {
        SealStep::CheckHandle => if event == Ok::<bool, KeyRootError>(true) { SealStep::Done(Err(KeyRootError::KeyExists)) } else { SealStep::CheckSrk },
        SealStep::CheckSrk => if event == Ok::<bool, KeyRootError>(true) { SealStep::WorkDir } else { SealStep::SrkWorkDir },
        SealStep::SrkWorkDir => match event {
            Err(e) => SealStep::Done(Err(e)),
            Ok(_) => SealStep::SrkCreatePrimary,
        },
        SealStep::SrkCreatePrimary => match event {
            Err(e) => SealStep::SrkCleanup(Err(e)),
            Ok(_) => SealStep::SrkPersist,
        },
        SealStep::SrkPersist => match event {
            Err(e) => SealStep::SrkCleanup(Err(e)),
            Ok(_) => SealStep::SrkCleanup(Ok(())),
        },
        SealStep::SrkCleanup(created) => SealStep::SrkRecheck(created),
        SealStep::SrkRecheck(created) => if event == Ok::<bool, KeyRootError>(true) {
            SealStep::WorkDir
        } else {
            match created {
                Ok(_) => SealStep::WorkDir,
                Err(e) => SealStep::Done(Err(e)),
            }
        },
        SealStep::WorkDir => match event {
            Err(e) => SealStep::Done(Err(e)),
            Ok(_) => SealStep::Create,
        },
        SealStep::Create => match event {
            Err(e) => SealStep::Cleanup(Err(e)),
            Ok(_) => SealStep::Load,
        },
        SealStep::Load => match event {
            Err(e) => SealStep::Cleanup(Err(e)),
            Ok(_) => SealStep::Evict,
        },
        SealStep::Evict => match event {
            Err(e) => SealStep::Cleanup(Err(e)),
            Ok(_) => SealStep::Cleanup(Ok(())),
        },
        SealStep::Cleanup(result) => match result {
            Ok(_) => SealStep::Done(Ok(())),
            Err(e) => SealStep::Done(Err(e)),
        },
        SealStep::Done(r) => SealStep::Done(r),
    }
}

/// The state reached from `step` after the reports `events`, in order.
pub open spec fn seal_run(step: SealStep, events: Seq<Result<bool, KeyRootError>>) -> SealStep
    decreases events.len(),
{
    if events.len() == 0 {
        step
    } else {
        seal_run(seal_next(step, events[0]), events.drop_first())
    }
}

/// The steps that hold a work directory or a transient TPM object, which only a clean-up step
/// releases.
pub open spec fn holds_resources(step: SealStep) -> bool {
    match step {
        SealStep::SrkCreatePrimary | SealStep::SrkPersist | SealStep::Create | SealStep::Load | SealStep::Evict => true,
        _ => false,
    }
}

/// Sealing succeeds only through the full chain: a successful finish comes only from a clean-up
/// after a successful `Evict`, and a step that holds a work directory or a transient object never
/// finishes without passing through its clean-up step.
pub proof fn lemma_seal_success_needs_evict(step: SealStep, event: Result<bool, KeyRootError>)
    ensures
        (seal_next(step, event) matches SealStep::Done(Ok(_))) ==> (step matches SealStep::Cleanup(Ok(_)) || step matches SealStep::Done(Ok(_))),
        (seal_next(step, event) matches SealStep::Cleanup(Ok(_))) ==> (step == SealStep::Evict && event is Ok),
        holds_resources(step) ==> !(seal_next(step, event) is Done),
        step == SealStep::Evict ==> seal_next(step, event) is Cleanup,
        step matches SealStep::SrkCleanup(c) ==> seal_next(step, event) == SealStep::SrkRecheck(c),
{
}

/// A seal with a fresh handle, a persistent storage-root key and every command succeeding ends
/// sealed.
pub proof fn lemma_seal_happy_path()
    ensures
        seal_run(SealStep::CheckHandle, seq![Ok(false), Ok(true), Ok(true), Ok(true), Ok(true), Ok(true), Ok(true), Ok(true)])
            == SealStep::Done(Ok(())),
{
    reveal_with_fuel(seal_run, 9);
    let evs: Seq<Result<bool, KeyRootError>> = seq![Ok(false), Ok(true), Ok(true), Ok(true), Ok(true), Ok(true), Ok(true), Ok(true)];
    assert(evs.drop_first() =~= seq![Ok(true), Ok(true), Ok(true), Ok(true), Ok(true), Ok(true), Ok(true)]);
}

/// A key root whose provider is not implemented or usable on this build.
pub struct UnavailableRoot(pub &'static str);

impl KeyRoot for UnavailableRoot {
    fn provider_id(&self) -> (s: &'static str)
        ensures
            s == self.0,
    {
        self.0
    }

    fn seal_rwk(&mut self, _c: &RootCtx, _r: &[u8]) -> (r: Result<String, KeyRootError>)
        ensures
            r == Err::<String, KeyRootError>(KeyRootError::ToolUnavailable),
    {
        Err(KeyRootError::ToolUnavailable)
    }

    fn unseal_rwk(&self, _c: &RootCtx, _w: &str) -> (r: Result<Vec<u8>, KeyRootError>)
        ensures
            r == Err::<Vec<u8>, KeyRootError>(KeyRootError::ToolUnavailable),
    {
        Err(KeyRootError::ToolUnavailable)
    }

    fn destroy(&mut self, _c: &RootCtx) -> (r: Result<(), KeyRootError>)
        ensures
            r == Err::<(), KeyRootError>(KeyRootError::ToolUnavailable),
    {
        Err(KeyRootError::ToolUnavailable)
    }

    fn key_present(&self, _c: &RootCtx) -> (r: Result<bool, KeyRootError>)
        ensures
            r == Err::<bool, KeyRootError>(KeyRootError::ToolUnavailable),
    {
        Err(KeyRootError::ToolUnavailable)
    }
}

/// The provider `init --tpm` enrolls on each platform.
pub open spec fn default_provider_spec(p: Platform) -> Seq<char> {
    match p {
        Platform::Windows => "windows-pcp"@,
        Platform::Linux => "tpm2-tools"@,
        Platform::MacOs => "secure-enclave"@,
        Platform::Other => "none"@,
    }
}

/// The default hardware provider id for platform `p`.
pub fn default_provider(p: Platform) -> (s: &'static str)
    ensures
        s@ == default_provider_spec(p),
{
    match p {
        Platform::Windows => PROVIDER_WINDOWS,
        Platform::Linux => PROVIDER_LINUX,
        Platform::MacOs => PROVIDER_MACOS,
        Platform::Other => "none",
    }
}

/// Whether usable hardware is available: the platform probe's answer on Windows and Linux, and
/// never elsewhere.
pub fn hardware_available(p: Platform, probe_ok: bool) -> (b: bool)
    ensures
        b == ((p == Platform::Windows || p == Platform::Linux) && probe_ok),
{
    match p {
        Platform::Windows | Platform::Linux => probe_ok,
        _ => false,
    }
}

/// Intern a provider string: known names map to their constant, anything else to
/// `unknown-provider`.
pub fn provider_static(p: &str) -> (s: &'static str)
    ensures
        p@ == "windows-pcp"@ ==> s@ == "windows-pcp"@,
        p@ == "tpm2-tools"@ ==> s@ == "tpm2-tools"@,
        p@ == "secure-enclave"@ ==> s@ == "secure-enclave"@,
        p@ == "mock"@ ==> s@ == "mock"@,
        (p@ != "windows-pcp"@ && p@ != "tpm2-tools"@ && p@ != "secure-enclave"@ && p@ != "mock"@)
            ==> s@ == "unknown-provider"@,
{
    if str_eq(p, PROVIDER_WINDOWS) {
        PROVIDER_WINDOWS
    } else if str_eq(p, PROVIDER_LINUX) {
        PROVIDER_LINUX
    } else if str_eq(p, PROVIDER_MACOS) {
        PROVIDER_MACOS
    } else if str_eq(p, PROVIDER_MOCK) {
        PROVIDER_MOCK
    } else {
        "unknown-provider"
    }
}

// ------------------------------------------------------------------------------------------------
// MockKeyRoot — in-process "hardware" for testing.
// ------------------------------------------------------------------------------------------------

/// Byte-wise XOR of two 32-byte strings.
pub open spec fn xor32(a: Seq<u8>, b: Seq<u8>) -> Seq<u8> {
    Seq::new(32, |i: int| a[i] ^ b[i])
}

/// What unsealing `wrapped` yields when the hardware key is `hk` (`None`: destroyed).
pub open spec fn mock_unsealed(hk: Option<Seq<u8>>, wrapped: Seq<char>) -> Result<Seq<u8>, KeyRootError> {
    match hk {
        None => Err(KeyRootError::KeyNotFound),
        Some(k) => match base64_decode(wrapped) {
            Some(w) => if w.len() == RWK_LEN { Ok(xor32(w, k)) } else { Err(KeyRootError::CryptoFail) },
            None => Err(KeyRootError::CryptoFail),
        },
    }
}

/// An in-memory key root. Each key id maps to a random 32-byte "hardware key"; `destroy` forgets it
/// so later unseals fail with `KeyNotFound` — modelling a hardware crypto-erase.
pub struct MockKeyRoot {
    keys: Vec<(String, Vec<u8>)>,
}

impl MockKeyRoot {
    #[verifier::type_invariant]
    spec fn inv(&self) -> bool {
        &&& forall|i: int, j: int| 0 <= i < j < self.keys@.len() ==> self.keys@[i].0@ != self.keys@[j].0@
        &&& forall|i: int| 0 <= i < self.keys@.len() ==> (#[trigger] self.keys@[i]).1@.len() == RWK_LEN
    }

    /// The hardware key held for `id`, if any.
    pub closed spec fn key_of(&self, id: Seq<char>) -> Option<Seq<u8>> {
        if exists|i: int| 0 <= i < self.keys@.len() && self.keys@[i].0@ == id {
            Some(self.keys@[choose|i: int| 0 <= i < self.keys@.len() && self.keys@[i].0@ == id].1@)
        } else {
            None
        }
    }

    /// A root with no keys.
    pub fn new() -> (m: MockKeyRoot)
        ensures
            forall|id: Seq<char>| m.key_of(id) is None,
    {
        MockKeyRoot { keys: Vec::new() }
    }

    fn position(&self, id: &str) -> (r: Option<usize>)
        ensures
            match r {
                Some(i) => i < self.keys@.len() && self.keys@[i as int].0@ == id@
                    && self.key_of(id@) == Some(self.keys@[i as int].1@),
                None => self.key_of(id@) is None,
            },
    {
        proof {
            use_type_invariant(self);
        }
        let mut i: usize = 0;
        while i < self.keys.len()
            invariant
                i <= self.keys@.len(),
                forall|k: int| 0 <= k < i ==> self.keys@[k].0@ != id@,
                forall|a: int, b: int| 0 <= a < b < self.keys@.len() ==> self.keys@[a].0@ != self.keys@[b].0@,
            decreases self.keys.len() - i,
        {
            if str_eq(self.keys[i].0.as_str(), id) {
                proof {
                    let c = choose|k: int| 0 <= k < self.keys@.len() && self.keys@[k].0@ == id@;
                    assert(c == i as int);
                }
                return Some(i);
            }
            i = i + 1;
        }
        None
    }

    /// Seal `rwk` (as [`KeyRoot::seal_rwk`] does) behind the given hardware key `hk`, created for
    /// `ctx.key_id`; refused when that id already has a key.
    pub fn seal_with_hk(&mut self, ctx: &RootCtx, rwk: &[u8], hk: Vec<u8>) -> (r: Result<String, KeyRootError>)
        requires
            rwk@.len() == RWK_LEN,
            hk@.len() == RWK_LEN,
        ensures
            r is Ok <==> old(self).key_of(ctx.key_id@) is None,
            r matches Err(e) ==> e == KeyRootError::KeyExists
                && forall|o: Seq<char>| final(self).key_of(o) == old(self).key_of(o),
            r matches Ok(w) ==> {
                &&& w@ == base64_encode(xor32(rwk@, hk@))
                &&& final(self).key_of(ctx.key_id@) == Some(hk@)
                &&& mock_unsealed(final(self).key_of(ctx.key_id@), w@) == Ok::<Seq<u8>, KeyRootError>(rwk@)
                &&& forall|o: Seq<char>| o != ctx.key_id@ ==> final(self).key_of(o) == old(self).key_of(o)
            },
    {
        proof {
            use_type_invariant(&*self);
        }
        if self.position(ctx.key_id.as_str()).is_some() {
            return Err(KeyRootError::KeyExists);
        }
        let mut wrapped: Vec<u8> = Vec::new();
        let mut i: usize = 0;
        while i < RWK_LEN
            invariant
                rwk@.len() == RWK_LEN,
                hk@.len() == RWK_LEN,
                i <= RWK_LEN,
                wrapped@.len() == i,
                forall|k: int| 0 <= k < i ==> wrapped@[k] == rwk@[k] ^ hk@[k],
            decreases RWK_LEN - i,
        {
            wrapped.push(rwk[i] ^ hk[i]);
            i = i + 1;
        }
        proof {
            assert(wrapped@ =~= xor32(rwk@, hk@));
            lemma_xor_involution(wrapped@, rwk@, hk@);
        }
        let text = b64_encode(wrapped.as_slice());
        let ghost old_keys = self.keys@;
        let id = ctx.key_id.clone();
        let mut keys: Vec<(String, Vec<u8>)> = Vec::new();
        std::mem::swap(&mut keys, &mut self.keys);
        keys.push((id, hk));
        self.keys = keys;
        proof {
            let n = old_keys.len() as int;
            assert(self.keys@[n].0@ == ctx.key_id@);
            assert forall|o: Seq<char>| o != ctx.key_id@ implies self.key_of(o) == old(self).key_of(o) by {
                if exists|i: int| 0 <= i < old_keys.len() && old_keys[i].0@ == o {
                    let c = choose|i: int| 0 <= i < old_keys.len() && old_keys[i].0@ == o;
                    assert(self.keys@[c] == old_keys[c]);
                    let d = choose|i: int| 0 <= i < self.keys@.len() && self.keys@[i].0@ == o;
                    assert(d == c);
                } else {
                    assert forall|i: int| 0 <= i < self.keys@.len() implies self.keys@[i].0@ != o by {
                        if i < n {
                            assert(self.keys@[i] == old_keys[i]);
                        }
                    }
                }
            }
            let d = choose|i: int| 0 <= i < self.keys@.len() && self.keys@[i].0@ == ctx.key_id@;
            if d < n {
                assert(self.keys@[d] == old_keys[d]);
            }
            assert(d == n);
        }
        Ok(text)
    }
}

proof fn lemma_xor_involution(w: Seq<u8>, rwk: Seq<u8>, hk: Seq<u8>)
    requires
        rwk.len() == RWK_LEN,
        hk.len() == RWK_LEN,
        w == xor32(rwk, hk),
    ensures
        xor32(w, hk) == rwk,
{
    assert forall|i: int| 0 <= i < 32 implies #[trigger] xor32(w, hk)[i] == rwk[i] by {
        let a = rwk[i];
        let b = hk[i];
        assert((a ^ b) ^ b == a) by (bit_vector);
    }
    assert(xor32(w, hk) =~= rwk);
}

impl KeyRoot for MockKeyRoot {
    fn provider_id(&self) -> (s: &'static str)
        ensures
            s@ == "mock"@,
    {
        PROVIDER_MOCK
    }

    fn seal_rwk(&mut self, ctx: &RootCtx, rwk: &[u8]) -> (r: Result<String, KeyRootError>)
        ensures
            match r {
                Ok(w) => old(self).key_of(ctx.key_id@) is None
                    && final(self).key_of(ctx.key_id@) is Some
                    && mock_unsealed(final(self).key_of(ctx.key_id@), w@) == Ok::<Seq<u8>, KeyRootError>(rwk@)
                    && w@ == base64_encode(xor32(rwk@, final(self).key_of(ctx.key_id@).unwrap()))
                    && forall|o: Seq<char>| o != ctx.key_id@ ==> final(self).key_of(o) == old(self).key_of(o),
                Err(e) => (forall|o: Seq<char>| final(self).key_of(o) == old(self).key_of(o))
                    && ((e == KeyRootError::KeyExists) <==> old(self).key_of(ctx.key_id@) is Some)
                    && (e == KeyRootError::KeyExists || e == KeyRootError::Other(1)),
            },
    {
        if self.position(ctx.key_id.as_str()).is_some() {
            return Err(KeyRootError::KeyExists);
        }
        let hk = match random_bytes(RWK_LEN) {
            Ok(k) => k,
            Err(_) => return Err(KeyRootError::Other(1)),
        };
        self.seal_with_hk(ctx, rwk, hk)
    }

    fn unseal_rwk(&self, ctx: &RootCtx, wrapped: &str) -> (r: Result<Vec<u8>, KeyRootError>)
        ensures
            match r {
                Ok(v) => mock_unsealed(self.key_of(ctx.key_id@), wrapped@) == Ok::<Seq<u8>, KeyRootError>(v@),
                Err(e) => mock_unsealed(self.key_of(ctx.key_id@), wrapped@) == Err::<Seq<u8>, KeyRootError>(e),
            },
    {
        proof {
            use_type_invariant(self);
        }
        let pos = match self.position(ctx.key_id.as_str()) {
            Some(p) => p,
            None => return Err(KeyRootError::KeyNotFound),
        };
        let hk = &self.keys[pos].1;
        let w = match b64_decode(wrapped) {
            Ok(w) => w,
            Err(_) => return Err(KeyRootError::CryptoFail),
        };
        if w.len() != RWK_LEN {
            return Err(KeyRootError::CryptoFail);
        }
        let mut rwk: Vec<u8> = Vec::new();
        let mut i: usize = 0;
        while i < RWK_LEN
            invariant
                w@.len() == RWK_LEN,
                hk@.len() == RWK_LEN,
                i <= RWK_LEN,
                rwk@.len() == i,
                forall|k: int| 0 <= k < i ==> rwk@[k] == w@[k] ^ hk@[k],
            decreases RWK_LEN - i,
        {
            rwk.push(w[i] ^ hk[i]);
            i = i + 1;
        }
        proof {
            assert(rwk@ =~= xor32(w@, hk@));
        }
        Ok(rwk)
    }

    fn destroy(&mut self, ctx: &RootCtx) -> (r: Result<(), KeyRootError>)
        ensures
            r is Ok,
            final(self).key_of(ctx.key_id@) is None,
            forall|o: Seq<char>| o != ctx.key_id@ ==> final(self).key_of(o) == old(self).key_of(o),
    {
        proof {
            use_type_invariant(&*self);
        }
        match self.position(ctx.key_id.as_str()) {
            Some(p) => {
                let ghost old_keys = self.keys@;
                let mut keys: Vec<(String, Vec<u8>)> = Vec::new();
                std::mem::swap(&mut keys, &mut self.keys);
                let _removed = keys.remove(p);
                self.keys = keys;
                proof {
                    assert forall|i: int| 0 <= i < self.keys@.len() implies self.keys@[i].0@ != ctx.key_id@ by {
                        let src = if i < p { i } else { i + 1 };
                        assert(self.keys@[i] == old_keys[src]);
                    }
                    assert forall|o: Seq<char>| o != ctx.key_id@ implies self.key_of(o) == old(self).key_of(o) by {
                        if exists|i: int| 0 <= i < old_keys.len() && old_keys[i].0@ == o {
                            let c = choose|i: int| 0 <= i < old_keys.len() && old_keys[i].0@ == o;
                            assert(c != p);
                            let k = if c < p { c } else { c - 1 };
                            assert(self.keys@[k] == old_keys[c]);
                            let d = choose|i: int| 0 <= i < self.keys@.len() && self.keys@[i].0@ == o;
                            let sd = if d < p { d } else { d + 1 };
                            assert(self.keys@[d] == old_keys[sd]);
                            assert(sd == c);
                        } else {
                            assert forall|i: int| 0 <= i < self.keys@.len() implies self.keys@[i].0@ != o by {
                                let src = if i < p { i } else { i + 1 };
                                assert(self.keys@[i] == old_keys[src]);
                            }
                        }
                    }
                }
            },
            None => {},
        }
        Ok(())
    }

    fn key_present(&self, ctx: &RootCtx) -> (r: Result<bool, KeyRootError>)
        ensures
            r == Ok::<bool, KeyRootError>(self.key_of(ctx.key_id@) is Some),
    {
        Ok(self.position(ctx.key_id.as_str()).is_some())
    }
}

/// Destroying the hardware key is a crypto-erase: whatever was sealed under it, unsealing the
/// wrapped blob now fails with `KeyNotFound`.
pub proof fn lemma_destroy_erases(wrapped: Seq<char>)
    ensures
        mock_unsealed(None, wrapped) == Err::<Seq<u8>, KeyRootError>(KeyRootError::KeyNotFound),
{
}

} // verus!
