//! The symmetric channel: AES-256-GCM over text, with a fresh nonce per message.
use aes_gcm::aead::{Aead, KeyInit};
use aes_gcm::{Aes256Gcm, Key, Nonce};
use rand::rngs::OsRng;
use rand::RngCore;
use vstd::prelude::*;
use vstd::utf8::{
    decode_utf8, encode_utf8, encode_utf8_decode_utf8, encode_utf8_valid_utf8, valid_utf8,
};

use crate::encoding::{
    b64_url, b64_url_decode, b64_url_decode_lenient, bytes_of, decode_key_segment, decode_segment,
    dot_free, encode_segment, is_sole_dot, join_segments, join_spec, lemma_split_join,
    lemma_join_clean, split_segments, split_spec, trim_white_space, trimmed,
};
use crate::error::E2EError;

verus! {

/// Length in bytes of an AES-256-GCM key.
pub const KEY_LEN: usize = 32;

/// Length in bytes of an AES-256-GCM nonce.
pub const NONCE_LEN: usize = 12;

#[verifier::external_type_specification]
#[verifier::external_body]
pub struct ExOsRng(OsRng);

/// Relies on rand's `OsRng`, a handle on the operating system's generator
/// that holds no state of its own.
pub assume_specification[ <OsRng as Default>::default ]() -> OsRng;

/// What AES-256-GCM encryption returns: ciphertext followed by the tag.
pub uninterp spec fn aes_gcm_seal(key: Seq<u8>, nonce: Seq<u8>, plaintext: Seq<u8>) -> Option<Seq<u8>>;

/// What AES-256-GCM decryption returns: the plaintext when the tag verifies.
pub uninterp spec fn aes_gcm_open(key: Seq<u8>, nonce: Seq<u8>, ciphertext: Seq<u8>) -> Option<Seq<u8>>;

/// Relies on aes-gcm's `Aead::encrypt` for `Aes256Gcm`: its result depends on
/// the key, the nonce and the plaintext alone; it succeeds on plaintexts of
/// at most 2^36 bytes (`P_MAX`) and appends a 16-byte tag; and
/// `Aead::decrypt` under the same key and nonce turns it back into the
/// plaintext.
#[verifier::external_body]
fn seal(key: &[u8], nonce: &[u8], plaintext: &[u8]) -> (r: Option<Vec<u8>>)
    requires
        key@.len() == KEY_LEN,
        nonce@.len() == NONCE_LEN,
    ensures
        bytes_of(r) == aes_gcm_seal(key@, nonce@, plaintext@),
        r matches Some(c) ==> aes_gcm_open(key@, nonce@, c@) == Some(plaintext@),
        plaintext@.len() <= 0x10_0000_0000 ==> r is Some,
        r matches Some(c) ==> c@.len() == plaintext@.len() + 16,
{
    let cipher = Aes256Gcm::new(Key::<Aes256Gcm>::from_slice(key));
    cipher.encrypt(Nonce::from_slice(nonce), plaintext).ok()
}

/// Relies on aes-gcm's `Aead::decrypt` for `Aes256Gcm`: its result depends on
/// the key, the nonce and the ciphertext alone, and input shorter than the
/// 16-byte tag is refused.
#[verifier::external_body]
fn open(key: &[u8], nonce: &[u8], ciphertext: &[u8]) -> (r: Option<Vec<u8>>)
    requires
        key@.len() == KEY_LEN,
        nonce@.len() == NONCE_LEN,
    ensures
        bytes_of(r) == aes_gcm_open(key@, nonce@, ciphertext@),
        ciphertext@.len() < 16 ==> r is None,
{
    let cipher = Aes256Gcm::new(Key::<Aes256Gcm>::from_slice(key));
    cipher.decrypt(Nonce::from_slice(nonce), ciphertext).ok()
}

/// Relies on rand's `OsRng::try_fill_bytes`: twelve bytes from the operating
/// system, or nothing when it fails.
#[verifier::external_body]
fn random_nonce(rng: &mut OsRng) -> (r: Option<Vec<u8>>)
    ensures
        r matches Some(n) ==> n@.len() == NONCE_LEN,
{
    let mut nonce = [0u8; NONCE_LEN];
    match rng.try_fill_bytes(&mut nonce) {
        Ok(()) => Some(nonce.to_vec()),
        Err(_) => None,
    }
}

/// Relies on `String::from_utf8`: it succeeds exactly on valid UTF-8.
#[verifier::external_body]
fn string_from_utf8(b: Vec<u8>) -> (r: Option<String>)
    ensures
        r is Some <==> valid_utf8(b@),
        r matches Some(s) ==> s@ == decode_utf8(b@),
{
    String::from_utf8(b).ok()
}

/// The text that a result carries, as a sequence of characters.
pub open spec fn text_of(r: Result<String, E2EError>) -> Result<Seq<char>, E2EError> {
    match r {
        Ok(s) => Ok(s@),
        Err(e) => Err(e),
    }
}

/// The ciphertext token for `plaintext` under `key` and `nonce`.
pub open spec fn seal_token(key: Seq<u8>, nonce: Seq<u8>, plaintext: Seq<char>) -> Result<
    Seq<char>,
    E2EError,
> {
    match aes_gcm_seal(key, nonce, encode_utf8(plaintext)) {
        Some(c) => Ok(join_spec(b64_url(nonce), b64_url(c))),
        None => Err(E2EError::CryptoError),
    }
}

/// What decrypting `token` under `key` gives.
pub open spec fn open_token(key: Seq<u8>, token: Seq<char>) -> Result<Seq<char>, E2EError> {
    match split_spec(token) {
        None => Err(E2EError::InvalidTokenFormat),
        Some((a, b)) => match (b64_url_decode(a), b64_url_decode(b)) {
            (Some(nonce), Some(c)) => if nonce.len() != NONCE_LEN {
                Err(E2EError::AuthenticationFailure)
            } else {
                match aes_gcm_open(key, nonce, c) {
                    None => Err(E2EError::AuthenticationFailure),
                    Some(m) => if valid_utf8(m) {
                        Ok(decode_utf8(m))
                    } else {
                        Err(E2EError::Utf8DecodingError)
                    },
                }
            },
            _ => Err(E2EError::InvalidTokenFormat),
        },
    }
}

/// An established channel: the shared AES-256-GCM key and a source of nonces.
pub struct E2EOffline {
    key: Vec<u8>,
    rng: OsRng,
}

impl E2EOffline {
    /// The key of the channel.
    pub closed spec fn key(&self) -> Seq<u8> {
        self.key@
    }

    #[verifier::type_invariant]
    spec fn inv(&self) -> bool {
        self.key@.len() == KEY_LEN
    }

    /// A channel over the given key bytes.
    pub fn from_key_bytes(key: Vec<u8>) -> (r: Result<E2EOffline, E2EError>)
        ensures
            key@.len() == KEY_LEN ==> (r matches Ok(c) && c.key() == key@),
            key@.len() != KEY_LEN ==> r == Err::<E2EOffline, E2EError>(E2EError::InvalidKeyLength),
    {
        if key.len() != KEY_LEN {
            return Err(E2EError::InvalidKeyLength);
        }
        Ok(E2EOffline { key, rng: OsRng::default() })
    }

    /// A channel over a key given as base64url text, padded or not, with
    /// surrounding white space ignored.
    pub fn from_key_base64(key: &str) -> (r: Result<E2EOffline, E2EError>)
        ensures
            match b64_url_decode_lenient(trimmed(key@)) {
                None => r == Err::<E2EOffline, E2EError>(E2EError::KeyDecodingError),
                Some(k) => if k.len() == KEY_LEN {
                    r matches Ok(c) && c.key() == k
                } else {
                    r == Err::<E2EOffline, E2EError>(E2EError::InvalidKeyLength)
                },
            },
    {
        match decode_key_segment(trim_white_space(key)) {
            None => Err(E2EError::KeyDecodingError),
            Some(k) => E2EOffline::from_key_bytes(k),
        }
    }

    /// Encrypts `plaintext` under the given nonce.
    pub fn encrypt_with_nonce(&self, nonce: &[u8], plaintext: &str) -> (r: Result<String, E2EError>)
        requires
            nonce@.len() == NONCE_LEN,
        ensures
            text_of(r) == seal_token(self.key(), nonce@, plaintext@),
            encode_utf8(plaintext@).len() <= 0x10_0000_0000 ==> r is Ok,
            r matches Ok(t) ==> exists|c: Seq<u8>|
                c.len() == encode_utf8(plaintext@).len() + 16 && t@ == join_spec(
                    b64_url(nonce@),
                    b64_url(c),
                ),
            r matches Ok(t) ==> trimmed(t@) == t@ && open_token(self.key(), t@) == Ok::<
                Seq<char>,
                E2EError,
            >(plaintext@),
    {
        proof {
            use_type_invariant(self);
        }
        match seal(self.key.as_slice(), nonce, plaintext.as_bytes()) {
            None => Err(E2EError::CryptoError),
            Some(c) => {
                let a = encode_segment(nonce);
                let b = encode_segment(c.as_slice());
                let t = join_segments(a.as_str(), b.as_str());
                proof {
                    lemma_split_join(a@, b@);
                    lemma_join_clean(a@, b@);
                    encode_utf8_valid_utf8(plaintext@);
                    encode_utf8_decode_utf8(plaintext@);
                }
                Ok(t)
            },
        }
    }

    /// Encrypts `plaintext` under a nonce freshly drawn for this call.
    pub fn encrypt(&mut self, plaintext: &str) -> (r: Result<String, E2EError>)
        ensures
            final(self).key() == old(self).key(),
            r matches Ok(t) ==> exists|n: Seq<u8>|
                n.len() == NONCE_LEN && seal_token(old(self).key(), n, plaintext@) == Ok::<
                    Seq<char>,
                    E2EError,
                >(t@),
            r matches Ok(t) ==> trimmed(t@) == t@ && open_token(old(self).key(), t@) == Ok::<
                Seq<char>,
                E2EError,
            >(plaintext@),
            r matches Ok(t) ==> exists|n: Seq<u8>, c: Seq<u8>|
                n.len() == NONCE_LEN && c.len() == encode_utf8(plaintext@).len() + 16 && t@
                    == join_spec(b64_url(n), b64_url(c)),
            r matches Err(e) ==> e == E2EError::CryptoError,
    {
        let mut rng = self.rng;
        match random_nonce(&mut rng) {
            None => Err(E2EError::CryptoError),
            Some(nonce) => self.encrypt_with_nonce(nonce.as_slice(), plaintext),
        }
    }

    /// Decrypts a ciphertext token, with surrounding white space ignored.
    pub fn decrypt(&mut self, ciphertext: &str) -> (r: Result<String, E2EError>)
        ensures
            final(self).key() == old(self).key(),
            text_of(r) == open_token(old(self).key(), trimmed(ciphertext@)),
    {
        proof {
            use_type_invariant(&*self);
        }
        let (a, b) = match split_segments(trim_white_space(ciphertext)) {
            None => return Err(E2EError::InvalidTokenFormat),
            Some(p) => p,
        };
        let nonce = match decode_segment(a.as_str()) {
            None => return Err(E2EError::InvalidTokenFormat),
            Some(n) => n,
        };
        let c = match decode_segment(b.as_str()) {
            None => return Err(E2EError::InvalidTokenFormat),
            Some(c) => c,
        };
        if nonce.len() != NONCE_LEN {
            return Err(E2EError::AuthenticationFailure);
        }
        match open(self.key.as_slice(), nonce.as_slice(), c.as_slice()) {
            None => Err(E2EError::AuthenticationFailure),
            Some(m) => match string_from_utf8(m) {
                None => Err(E2EError::Utf8DecodingError),
                Some(s) => Ok(s),
            },
        }
    }
}

/// A token without exactly one delimiter, or with a segment that is not
/// base64url, is refused as malformed.
pub proof fn lemma_malformed_token_rejected(key: Seq<u8>, token: Seq<char>)
    requires
        dot_free(token) || split_spec(token) is None || (split_spec(token) matches Some((a, b))
            && (b64_url_decode(a) is None || b64_url_decode(b) is None)),
    ensures
        open_token(key, token) == Err::<Seq<char>, E2EError>(E2EError::InvalidTokenFormat),
{
    if dot_free(token) {
        assert forall|i: int| !is_sole_dot(token, i) by {
            if is_sole_dot(token, i) {
                assert(token[i] == '.');
            }
        }
    }
}

/// A ciphertext token whose ciphertext the cipher refuses to open under the
/// key (as happens when a byte of it is altered) is refused as failing
/// authentication, never as malformed or as bad text.
pub proof fn lemma_tampered_ciphertext_rejected(key: Seq<u8>, nonce: Seq<u8>, c: Seq<u8>)
    requires
        nonce.len() == NONCE_LEN,
        aes_gcm_open(key, nonce, c) is None,
    ensures
        open_token(key, join_spec(b64_url(nonce), b64_url(c))) == Err::<Seq<char>, E2EError>(
            E2EError::AuthenticationFailure,
        ),
{
    crate::encoding::lemma_b64_dot_free(nonce);
    crate::encoding::lemma_b64_dot_free(c);
    crate::encoding::lemma_b64_decode_encode(nonce);
    crate::encoding::lemma_b64_decode_encode(c);
    lemma_split_join(b64_url(nonce), b64_url(c));
}

} // verus!
