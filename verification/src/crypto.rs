//! Hashing, authenticated encryption and randomness used by the audit
//! ledger. Every item here is a thin trusted wrapper around an outside
//! crate (or std), together with the names of what those calls return.

use aes_gcm::aead::{Aead, KeyInit};
use aes_gcm::{Aes256Gcm, Key, Nonce};
use rand::RngCore;
use sha2::{Digest, Sha256};
use vstd::prelude::*;
use vstd::utf8::*;

verus! {

/// The SHA-256 digest of a byte sequence (32 bytes).
pub uninterp spec fn sha256_spec(data: Seq<u8>) -> Seq<u8>;

/// What AES-256-GCM decryption with this key and nonce yields for a sealed
/// message (ciphertext followed by its tag); `None` when authentication fails.
pub uninterp spec fn aes_gcm_open(key: Seq<u8>, nonce: Seq<u8>, sealed: Seq<u8>) -> Option<Seq<u8>>;

/// The sealed message (ciphertext followed by its 16-byte tag) that
/// AES-256-GCM encryption produces for this key, nonce and plaintext.
pub uninterp spec fn aes_gcm_seal(key: Seq<u8>, nonce: Seq<u8>, plaintext: Seq<u8>) -> Seq<u8>;

/// What `String::from_utf8_lossy` makes of a byte sequence.
pub uninterp spec fn utf8_lossy(bytes: Seq<u8>) -> Seq<char>;

/// Largest plaintext that `aes-gcm` 0.10 accepts (`P_MAX`).
pub const AES_GCM_MAX_PLAINTEXT: u64 = 68719476736;

/// SHA-256 of `data`, by `sha2::Sha256::digest`.
/// Claims: the result is the digest named `sha256_spec`, and it has 32 bytes
/// (the output type of `Sha256` is a 32-byte array).
#[verifier::external_body]
pub(crate) fn sha256_digest(data: &[u8]) -> (r: Vec<u8>)
    ensures
        r@ == sha256_spec(data@),
        r@.len() == 32,
{
    Sha256::digest(data).to_vec()
}

/// AES-256-GCM decryption of `sealed` (ciphertext with trailing tag), by
/// `aes_gcm::Aes256Gcm::decrypt` with no associated data.
/// Claims: the result is `aes_gcm_open` of the arguments, `None` standing for
/// the crate's `Err`. `Key::from_slice` and `Nonce::from_slice` panic on other
/// lengths, hence the `requires`.
#[verifier::external_body]
pub(crate) fn aes256gcm_decrypt(key: &[u8], nonce: &[u8], sealed: &[u8]) -> (r: Option<Vec<u8>>)
    requires
        key@.len() == 32,
        nonce@.len() == 12,
    ensures
        match r {
            Some(p) => aes_gcm_open(key@, nonce@, sealed@) == Some(p@),
            None => aes_gcm_open(key@, nonce@, sealed@) is None,
        },
{
    let cipher = Aes256Gcm::new(Key::<Aes256Gcm>::from_slice(key));
    cipher.decrypt(Nonce::from_slice(nonce), sealed).ok()
}

/// AES-256-GCM encryption of `plaintext`, by `aes_gcm::Aes256Gcm::encrypt`
/// with no associated data.
/// Claims: the result is `aes_gcm_seal` of the arguments; it is 16 bytes (the
/// tag) longer than the plaintext; decrypting it with the same key and nonce
/// gives the plaintext back (the correctness of the AEAD). The crate returns
/// `Err` only for plaintexts longer than `P_MAX`, which `requires` leaves out.
#[verifier::external_body]
pub(crate) fn aes256gcm_encrypt(key: &[u8], nonce: &[u8], plaintext: &[u8]) -> (r: Vec<u8>)
    requires
        key@.len() == 32,
        nonce@.len() == 12,
        plaintext@.len() <= AES_GCM_MAX_PLAINTEXT,
    ensures
        r@ == aes_gcm_seal(key@, nonce@, plaintext@),
        r@.len() == plaintext@.len() + 16,
        aes_gcm_open(key@, nonce@, r@) == Some(plaintext@),
{
    let cipher = Aes256Gcm::new(Key::<Aes256Gcm>::from_slice(key));
    cipher.encrypt(Nonce::from_slice(nonce), plaintext).unwrap()
}

/// `n` bytes from the thread-local random generator (`rand::thread_rng`,
/// `fill_bytes`). Claims only the length: the bytes are random.
#[verifier::external_body]
pub(crate) fn random_bytes(n: usize) -> (r: Vec<u8>)
    ensures
        r@.len() == n,
{
    let mut v = vec![0u8; n];
    rand::thread_rng().fill_bytes(&mut v);
    v
}

/// Decodes bytes as UTF-8, replacing invalid sequences with U+FFFD
/// (`String::from_utf8_lossy`).
/// Claims: the result is `utf8_lossy` of the bytes, and for valid UTF-8 it is
/// exactly the decoded text (as the std documentation states).
#[verifier::external_body]
pub(crate) fn decode_utf8_lossy(bytes: &[u8]) -> (s: String)
    ensures
        s@ == utf8_lossy(bytes@),
        valid_utf8(bytes@) ==> s@ == decode_utf8(bytes@),
{
    String::from_utf8_lossy(bytes).into_owned()
}

/// Lower-case hexadecimal digit for a value below 16.
pub open spec fn hex_digit(v: nat) -> char {
    if v < 10 {
        (48 + v) as char
    } else {
        (87 + v) as char
    }
}

/// Lower-case hexadecimal rendering of a byte sequence, two digits per byte,
/// as `format!("{:x}", digest)` prints a digest.
pub open spec fn hex_lower(bytes: Seq<u8>) -> Seq<char>
    decreases bytes.len(),
{
    if bytes.len() == 0 {
        seq![]
    } else {
        hex_lower(bytes.drop_last()).push(hex_digit((bytes.last() / 16) as nat)).push(
            hex_digit((bytes.last() % 16) as nat),
        )
    }
}

fn hex_char(v: u8) -> (c: char)
    requires
        v < 16,
    ensures
        c == hex_digit(v as nat),
{
    if v < 10 {
        (48u8 + v) as char
    } else {
        (87u8 + v) as char
    }
}

/// Lower-case hexadecimal text of a byte slice.
pub fn to_hex_lower(bytes: &[u8]) -> (s: String)
    ensures
        s@ == hex_lower(bytes@),
{
    let mut s = String::new();
    let mut i: usize = 0;
    while i < bytes.len()
        invariant
            i <= bytes@.len(),
            s@ == hex_lower(bytes@.take(i as int)),
        decreases bytes@.len() - i,
    {
        let b = bytes[i];
        crate::text::push_char(&mut s, hex_char(b / 16));
        crate::text::push_char(&mut s, hex_char(b % 16));
        assert(bytes@.take(i + 1).drop_last() == bytes@.take(i as int));
        i = i + 1;
    }
    assert(bytes@.take(bytes@.len() as int) == bytes@);
    s
}

/// SHA-256 of a log file's contents as lower-case hex (64 characters), the
/// form in which the ledger stores it.
pub fn compute_sha256(contents: &[u8]) -> (s: String)
    ensures
        s@ == hex_lower(sha256_spec(contents@)),
        sha256_spec(contents@).len() == 32,
{
    let digest = sha256_digest(contents);
    to_hex_lower(&digest)
}

} // verus!
