//! The encrypted hash ledger.
//!
//! The ledger is a text file of lines `<timestamp> <filename> <sha256>`, one
//! per sealed audit log, stored encrypted with AES-256-GCM as a 12-byte nonce
//! followed by the sealed message. Reading and writing the file itself, and
//! the key file, are left to the caller; this module computes everything in
//! between.

use crate::crypto::{
    aes256gcm_decrypt, aes256gcm_encrypt, aes_gcm_open, aes_gcm_seal, decode_utf8_lossy, random_bytes,
    utf8_lossy, AES_GCM_MAX_PLAINTEXT,
};
use crate::text::{chars_of, contains_chars, contains_spec, is_white_space, push_char, push_str};
use vstd::prelude::*;
use vstd::utf8::*;

verus! {

/// Length of the AES-256 key.
pub const LEDGER_KEY_LEN: usize = 32;

/// Length of the nonce stored in front of the encrypted ledger.
pub const LEDGER_NONCE_LEN: usize = 12;

/// Why the stored ledger could not be opened.
#[derive(Debug, Clone, Copy, PartialEq, Eq, Structural)]
pub enum LedgerError {
    /// Fewer than 12 bytes are stored, so the nonce is missing.
    NonceMissing,
    /// Authentication failed: wrong key or tampered ledger.
    DecryptionFailed,
}

/// One ledger line: `<timestamp> <filename> <hash>` and a newline.
pub open spec fn ledger_line_spec(timestamp: Seq<char>, filename: Seq<char>, hash: Seq<char>) -> Seq<char> {
    timestamp + seq![' '] + filename + seq![' '] + hash + seq!['\n']
}

/// A token that contains no whitespace and is not empty: it survives
/// `split_whitespace` as a single piece.
pub open spec fn is_token(s: Seq<char>) -> bool {
    s.len() > 0 && forall|i: int| 0 <= i < s.len() ==> !is_white_space(#[trigger] s[i])
}

/// RFC 3339 text of a UTC instant as `to_rfc3339` writes it: one word,
/// with the date and the time joined by `T`, ending with the offset
/// `+00:00`.
pub open spec fn is_utc_rfc3339(t: Seq<char>) -> bool {
    &&& is_token(t)
    &&& t.len() > 16
    &&& t.skip(t.len() - 6) == seq!['+', '0', '0', ':', '0', '0']
    &&& t.contains('T')
}

/// The current UTC time as RFC 3339 text (`chrono::Utc::now().to_rfc3339()`).
/// Claims: the shape every such text has (`is_utc_rfc3339`: no whitespace,
/// date and time joined by `T`, the UTC offset `+00:00` at the end). Which
/// instant it shows is not stated.
#[verifier::external_body]
pub(crate) fn utc_now_rfc3339() -> (r: String)
    ensures
        is_utc_rfc3339(r@),
{
    chrono::Utc::now().to_rfc3339()
}

/// Formats one ledger line.
pub fn ledger_line(timestamp: &str, filename: &str, hash: &str) -> (s: String)
    ensures
        s@ == ledger_line_spec(timestamp@, filename@, hash@),
{
    let mut s = String::new();
    push_str(&mut s, timestamp);
    push_char(&mut s, ' ');
    push_str(&mut s, filename);
    push_char(&mut s, ' ');
    push_str(&mut s, hash);
    push_char(&mut s, '\n');
    assert(s@ =~= ledger_line_spec(timestamp@, filename@, hash@));
    s
}

/// Appends bytes to a byte vector.
pub fn extend_bytes(v: &mut Vec<u8>, s: &[u8])
    ensures
        final(v)@ == old(v)@ + s@,
{
    let mut i: usize = 0;
    while i < s.len()
        invariant
            i <= s@.len(),
            v@ == old(v)@ + s@.take(i as int),
        decreases s@.len() - i,
    {
        v.push(s[i]);
        i = i + 1;
        assert(v@ =~= old(v)@ + s@.take(i as int));
    }
    assert(s@.take(s@.len() as int) =~= s@);
}

/// Appends the line for `filename` with `hash`, stamped `timestamp`, to the
/// plaintext ledger.
pub fn append_ledger_entry(ledger: &mut Vec<u8>, timestamp: &str, filename: &str, hash: &str)
    ensures
        final(ledger)@ == old(ledger)@ + encode_utf8(ledger_line_spec(timestamp@, filename@, hash@)),
{
    let line = ledger_line(timestamp, filename, hash);
    extend_bytes(ledger, line.as_str().as_bytes());
}

/// Appends the line for `filename` with `hash`, stamped with the current
/// time, to the plaintext ledger.
pub fn append_to_ledger(ledger: &mut Vec<u8>, filename: &str, hash: &str)
    ensures
        exists|ts: Seq<char>|
            is_utc_rfc3339(ts) && final(ledger)@ == old(ledger)@ + encode_utf8(
                #[trigger] ledger_line_spec(ts, filename@, hash@),
            ),
{
    let ts = utc_now_rfc3339();
    append_ledger_entry(ledger, ts.as_str(), filename, hash);
    assert(is_utc_rfc3339(ts@) && ledger@ == old(ledger)@ + encode_utf8(
        ledger_line_spec(ts@, filename@, hash@),
    ));
}

/// The text of a plaintext ledger, as `String::from_utf8_lossy` decodes it:
/// for valid UTF-8 the decoded characters, otherwise the lossy decoding.
pub open spec fn text_of(bytes: Seq<u8>) -> Seq<char> {
    if valid_utf8(bytes) {
        decode_utf8(bytes)
    } else {
        utf8_lossy(bytes)
    }
}

/// The ledger text: the plaintext decoded as `String::from_utf8_lossy` does.
pub fn ledger_text(plaintext: &[u8]) -> (s: Vec<char>)
    ensures
        s@ == text_of(plaintext@),
        s@ == utf8_lossy(plaintext@),
{
    let text = decode_utf8_lossy(plaintext);
    chars_of(text.as_str())
}

/// Whether `filename` occurs anywhere in the ledger text.
pub fn ledger_contains(plaintext: &[u8], filename: &str) -> (b: bool)
    ensures
        b == contains_spec(text_of(plaintext@), filename@),
{
    let text = ledger_text(plaintext);
    let needle = chars_of(filename);
    contains_chars(&text, &needle)
}

/// What reading the stored ledger yields: nothing stored reads as an empty
/// ledger; otherwise the first 12 bytes are the nonce and the rest is
/// decrypted.
pub open spec fn open_ledger_spec(stored: Option<Seq<u8>>, key: Seq<u8>) -> Result<Seq<u8>, LedgerError> {
    match stored {
        None => Ok(seq![]),
        Some(d) => if d.len() < 12 {
            Err(LedgerError::NonceMissing)
        } else {
            match aes_gcm_open(key, d.take(12), d.skip(12)) {
                Some(p) => Ok(p),
                None => Err(LedgerError::DecryptionFailed),
            }
        },
    }
}

/// The stored bytes, if any.
pub open spec fn stored_bytes(stored: Option<&[u8]>) -> Option<Seq<u8>> {
    match stored {
        Some(d) => Some(d@),
        None => None,
    }
}

/// Reads the plaintext ledger from its stored (encrypted) bytes; `None` means
/// that no ledger file exists. A stored ledger too short to hold its nonce
/// is corrupt, which the caller checks first; one that fails authentication
/// (wrong key or tampered bytes) gives `DecryptionFailed`.
pub fn read_ledger_plaintext(stored: Option<&[u8]>, key: &[u8]) -> (r: Result<Vec<u8>, LedgerError>)
    requires
        key@.len() == LEDGER_KEY_LEN,
        stored matches Some(d) ==> d@.len() >= LEDGER_NONCE_LEN,
    ensures
        match r {
            Ok(p) => open_ledger_spec(stored_bytes(stored), key@) == Ok::<Seq<u8>, LedgerError>(p@),
            Err(e) => open_ledger_spec(stored_bytes(stored), key@) == Err::<Seq<u8>, LedgerError>(e),
        },
{
    match stored {
        None => Ok(Vec::new()),
        Some(data) => {
            if data.len() < LEDGER_NONCE_LEN {
                return Err(LedgerError::NonceMissing);
            }
            let (nonce, sealed) = data.split_at(LEDGER_NONCE_LEN);
            assert(nonce@ == data@.take(12));
            assert(sealed@ == data@.skip(12));
            match aes256gcm_decrypt(key, nonce, sealed) {
                Some(p) => Ok(p),
                None => Err(LedgerError::DecryptionFailed),
            }
        },
    }
}

/// The stored form of a plaintext ledger under a given nonce.
pub fn seal_ledger(plaintext: &[u8], key: &[u8], nonce: &[u8]) -> (r: Vec<u8>)
    requires
        key@.len() == LEDGER_KEY_LEN,
        nonce@.len() == LEDGER_NONCE_LEN,
        plaintext@.len() <= AES_GCM_MAX_PLAINTEXT,
    ensures
        r@ == nonce@ + aes_gcm_seal(key@, nonce@, plaintext@),
        r@.len() == plaintext@.len() + 28,
        open_ledger_spec(Some(r@), key@) == Ok::<Seq<u8>, LedgerError>(plaintext@),
{
    let sealed = aes256gcm_encrypt(key, nonce, plaintext);
    let mut out: Vec<u8> = Vec::new();
    extend_bytes(&mut out, nonce);
    extend_bytes(&mut out, &sealed);
    assert(out@ =~= nonce@ + sealed@);
    assert(out@.take(12) =~= nonce@);
    assert(out@.skip(12) =~= sealed@);
    out
}

/// Encrypts the plaintext ledger under a fresh random nonce, giving the bytes
/// to store. Reading them back with the same key gives the plaintext.
pub fn write_ledger_plaintext(plaintext: &[u8], key: &[u8]) -> (r: Vec<u8>)
    requires
        key@.len() == LEDGER_KEY_LEN,
        plaintext@.len() <= AES_GCM_MAX_PLAINTEXT,
    ensures
        r@.len() == plaintext@.len() + 28,
        r@ == r@.take(12) + aes_gcm_seal(key@, r@.take(12), plaintext@),
        open_ledger_spec(Some(r@), key@) == Ok::<Seq<u8>, LedgerError>(plaintext@),
{
    let nonce = random_bytes(LEDGER_NONCE_LEN);
    let r = seal_ledger(plaintext, key, &nonce);
    assert(r@.take(12) =~= nonce@);
    r
}

/// A fresh 32-byte ledger key from the random generator.
pub fn generate_ledger_key() -> (k: Vec<u8>)
    ensures
        k@.len() == LEDGER_KEY_LEN,
{
    random_bytes(LEDGER_KEY_LEN)
}

} // verus!
