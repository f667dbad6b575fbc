//! Trusted wrappers around the outside cryptography and encoding crates:
//! AES-256-GCM sealing and opening, the two base64 alphabets this project
//! uses, SHA-256, the random sources, and UTF-8 decoding. Each contract
//! states only what the crate's source shows; deterministic results are
//! named, random ones are not.

use aes_gcm::aead::rand_core::RngCore;
use aes_gcm::aead::{Aead, KeyInit, OsRng};
use aes_gcm::{Aes256Gcm, Key, Nonce};
use base64::Engine;
use sha2::Digest;
use vstd::prelude::*;

verus! {

/// What base64's standard engine encodes the bytes to.
pub uninterp spec fn b64_std_of(bytes: Seq<u8>) -> Seq<char>;

/// What base64's standard engine decodes the text to, when it accepts it.
pub uninterp spec fn b64_std_decoded(text: Seq<char>) -> Option<Seq<u8>>;

/// What base64's URL-safe, unpadded engine encodes the bytes to.
pub uninterp spec fn b64_url_of(bytes: Seq<u8>) -> Seq<char>;

/// What base64's URL-safe, unpadded engine decodes the text to, when it
/// accepts it.
pub uninterp spec fn b64_url_decoded(text: Seq<char>) -> Option<Seq<u8>>;

/// What AES-256-GCM encryption of the plaintext under the key and nonce
/// yields, when it succeeds.
pub uninterp spec fn aes256_sealed(key: Seq<u8>, nonce: Seq<u8>, plaintext: Seq<u8>) -> Option<
    Seq<u8>,
>;

/// What AES-256-GCM decryption of the ciphertext under the key and nonce
/// yields: the plaintext exactly when the tag authenticates.
pub uninterp spec fn aes256_opened(key: Seq<u8>, nonce: Seq<u8>, ciphertext: Seq<u8>) -> Option<
    Seq<u8>,
>;

/// The SHA-256 digest of the bytes.
pub uninterp spec fn sha256_of(bytes: Seq<u8>) -> Seq<u8>;

/// Relies on `Engine::encode` of base64's `STANDARD` engine: the encoding
/// is a function of the bytes alone, over an ASCII alphabet, and decoding
/// it with the same engine gives the bytes back.
#[verifier::external_body]
pub fn b64_std_encode(bytes: &Vec<u8>) -> (r: String)
    ensures
        r@ == b64_std_of(bytes@),
        b64_std_decoded(r@) == Some(bytes@),
        vstd::utf8::is_ascii_chars(r@),
        bytes@.len() == 0 ==> r@.len() == 0,
{
    base64::engine::general_purpose::STANDARD.encode(bytes)
}

/// Relies on `Engine::decode` of base64's `STANDARD` engine: decoding is a
/// function of the text alone, rejecting what is not its output alphabet.
#[verifier::external_body]
pub fn b64_std_decode(text: &str) -> (r: Option<Vec<u8>>)
    ensures
        match r {
            Some(v) => b64_std_decoded(text@) == Some(v@),
            None => b64_std_decoded(text@) is None,
        },
{
    base64::engine::general_purpose::STANDARD.decode(text).ok()
}

/// Relies on `Engine::encode` of base64's `URL_SAFE_NO_PAD` engine: the
/// encoding is a function of the bytes alone, over an ASCII alphabet, and
/// decoding it with the same engine gives the bytes back.
#[verifier::external_body]
pub fn b64_url_encode(bytes: &Vec<u8>) -> (r: String)
    ensures
        r@ == b64_url_of(bytes@),
        b64_url_decoded(r@) == Some(bytes@),
        vstd::utf8::is_ascii_chars(r@),
        bytes@.len() == 0 ==> r@.len() == 0,
{
    base64::engine::general_purpose::URL_SAFE_NO_PAD.encode(bytes)
}

/// Relies on `Engine::decode` of base64's `URL_SAFE_NO_PAD` engine.
#[verifier::external_body]
pub fn b64_url_decode(text: &str) -> (r: Option<Vec<u8>>)
    ensures
        match r {
            Some(v) => b64_url_decoded(text@) == Some(v@),
            None => b64_url_decoded(text@) is None,
        },
{
    base64::engine::general_purpose::URL_SAFE_NO_PAD.decode(text).ok()
}

/// Relies on aes_gcm's `Aes256Gcm::encrypt`: deterministic in key, nonce
/// and plaintext, with the 16-byte authentication tag appended, and
/// decrypting the result under the same key and nonce gives the plaintext
/// back.
#[verifier::external_body]
pub fn aes256_encrypt(key: &Vec<u8>, nonce: &Vec<u8>, plaintext: &Vec<u8>) -> (r: Option<Vec<u8>>)
    requires
        key@.len() == 32,
        nonce@.len() == 12,
    ensures
        match r {
            Some(c) => aes256_sealed(key@, nonce@, plaintext@) == Some(c@) && c@.len()
                == plaintext@.len() + 16 && aes256_opened(key@, nonce@, c@) == Some(plaintext@),
            None => aes256_sealed(key@, nonce@, plaintext@) is None,
        },
{
    let cipher = Aes256Gcm::new(Key::<Aes256Gcm>::from_slice(key));
    cipher.encrypt(Nonce::from_slice(nonce), plaintext.as_slice()).ok()
}

/// Relies on aes_gcm's `Aes256Gcm::decrypt`: deterministic in key, nonce
/// and ciphertext, succeeding exactly when the appended tag authenticates.
#[verifier::external_body]
pub fn aes256_decrypt(key: &Vec<u8>, nonce: &Vec<u8>, ciphertext: &Vec<u8>) -> (r: Option<Vec<u8>>)
    requires
        key@.len() == 32,
        nonce@.len() == 12,
    ensures
        match r {
            Some(p) => aes256_opened(key@, nonce@, ciphertext@) == Some(p@),
            None => aes256_opened(key@, nonce@, ciphertext@) is None,
        },
{
    let cipher = Aes256Gcm::new(Key::<Aes256Gcm>::from_slice(key));
    cipher.decrypt(Nonce::from_slice(nonce), ciphertext.as_slice()).ok()
}

/// Relies on sha2's `Sha256`: a 32-byte digest of the bytes alone.
#[verifier::external_body]
pub fn sha256(bytes: &Vec<u8>) -> (r: Vec<u8>)
    ensures
        r@ == sha256_of(bytes@),
        r@.len() == 32,
{
    sha2::Sha256::digest(bytes).to_vec()
}

/// Relies on rand's `thread_rng` and `RngCore::fill_bytes`; of random
/// bytes only the count is promised.
#[verifier::external_body]
pub fn random_bytes_thread(n: usize) -> (r: Vec<u8>)
    ensures
        r@.len() == n,
{
    let mut buf = vec![0u8; n];
    rand::RngCore::fill_bytes(&mut rand::thread_rng(), &mut buf);
    buf
}

/// Relies on the operating system's random source (`OsRng`, re-exported by
/// aes_gcm); of random bytes only the count is promised.
#[verifier::external_body]
pub fn random_bytes_os(n: usize) -> (r: Vec<u8>)
    ensures
        r@.len() == n,
{
    let mut buf = vec![0u8; n];
    OsRng.fill_bytes(&mut buf);
    buf
}

/// Relies on `String::from_utf8` from std: it succeeds exactly on valid
/// UTF-8 and decodes it.
#[verifier::external_body]
pub fn bytes_to_string(v: &Vec<u8>) -> (r: Option<String>)
    ensures
        match r {
            Some(s) => vstd::utf8::valid_utf8(v@) && s@ == vstd::utf8::decode_utf8(v@),
            None => !vstd::utf8::valid_utf8(v@),
        },
{
    String::from_utf8(v.clone()).ok()
}

} // verus!
