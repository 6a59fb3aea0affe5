use aes_gcm::aead::{Aead, KeyInit};
use aes_gcm::{Aes256Gcm, Key, Nonce};
use base64::Engine;
use e2eoffline::{E2EError, E2EOffline};
use std::collections::HashSet;

const KEY: [u8; 32] = [7u8; 32];

fn b64(b: &[u8]) -> String {
    base64::engine::general_purpose::URL_SAFE.encode(b)
}

fn unb64(s: &str) -> Vec<u8> {
    base64::engine::general_purpose::URL_SAFE.decode(s).unwrap()
}

fn channel() -> E2EOffline {
    E2EOffline::from_key_base64(&b64(&KEY)).unwrap()
}

#[test]
fn round_trip_hello() {
    let mut c = channel();
    let t = c.encrypt("hello").unwrap();
    assert_eq!(c.decrypt(&t).unwrap(), "hello");
}

#[test]
fn round_trip_empty_and_unicode() {
    let mut c = channel();
    for p in ["", "grüße, 世界 🦀", "a.b.c"] {
        let t = c.encrypt(p).unwrap();
        assert_eq!(c.decrypt(&t).unwrap(), p);
    }
}

#[test]
fn round_trip_between_two_channels_on_one_key() {
    let mut a = channel();
    let mut b = channel();
    let t = a.encrypt("shared").unwrap();
    assert_eq!(b.decrypt(&t).unwrap(), "shared");
}

#[test]
fn token_has_nonce_and_ciphertext_segments() {
    let c = channel();
    let t = c.encrypt_with_nonce(&[0u8; 12], "hello").unwrap();
    let parts: Vec<&str> = t.split('.').collect();
    assert_eq!(parts.len(), 2);
    assert_eq!(parts[0], "AAAAAAAAAAAAAAAA");
    // five bytes of text and a sixteen-byte tag
    assert_eq!(unb64(parts[1]).len(), 21);
}

#[test]
fn encrypt_with_nonce_matches_the_cipher() {
    let c = channel();
    let nonce = [3u8; 12];
    let t = c.encrypt_with_nonce(&nonce, "attack at dawn").unwrap();
    let cipher = Aes256Gcm::new(Key::<Aes256Gcm>::from_slice(&KEY));
    let expected = cipher.encrypt(Nonce::from_slice(&nonce), "attack at dawn".as_bytes()).unwrap();
    assert_eq!(t, format!("{}.{}", b64(&nonce), b64(&expected)));
    assert_ne!(unb64(t.split('.').nth(1).unwrap()), "attack at dawn".as_bytes().to_vec());
}

#[test]
fn nonces_differ_across_encryptions() {
    let mut c = channel();
    let mut seen = HashSet::new();
    let mut tokens = HashSet::new();
    for _ in 0..1000 {
        let t = c.encrypt("same plaintext").unwrap();
        let nonce = t.split('.').next().unwrap().to_string();
        assert!(seen.insert(nonce));
        assert!(tokens.insert(t));
    }
}

#[test]
fn tampered_ciphertext_fails_authentication() {
    let mut c = channel();
    let t = c.encrypt("do not touch").unwrap();
    let (n, ct) = t.split_once('.').unwrap();
    let ct = unb64(ct);
    for i in 0..ct.len() {
        let mut bad = ct.clone();
        bad[i] ^= 0x01;
        let token = format!("{}.{}", n, b64(&bad));
        assert_eq!(c.decrypt(&token), Err(E2EError::AuthenticationFailure));
    }
}

#[test]
fn wrong_key_fails_authentication() {
    let mut a = channel();
    let mut b = E2EOffline::from_key_base64(&b64(&[8u8; 32])).unwrap();
    let t = a.encrypt("secret").unwrap();
    assert_eq!(b.decrypt(&t), Err(E2EError::AuthenticationFailure));
}

#[test]
fn wrong_nonce_length_fails_authentication() {
    let mut c = channel();
    let t = c.encrypt("x").unwrap();
    let (_, ct) = t.split_once('.').unwrap();
    let token = format!("{}.{}", b64(&[0u8; 8]), ct);
    assert_eq!(c.decrypt(&token), Err(E2EError::AuthenticationFailure));
}

#[test]
fn malformed_tokens_are_rejected() {
    let mut c = channel();
    let good = c.encrypt("x").unwrap();
    let (n, ct) = good.split_once('.').unwrap();
    for t in [
        String::new(),
        "abc".to_string(),
        n.to_string(),
        format!("{}.{}.{}", n, ct, ct),
        format!("!!!!.{}", ct),
        format!("{}.@@@@", n),
        format!("{} .{}", n, ct),
    ] {
        assert_eq!(c.decrypt(&t), Err(E2EError::InvalidTokenFormat), "{t}");
    }
    // two empty segments are well formed, but carry no nonce
    assert_eq!(c.decrypt("."), Err(E2EError::AuthenticationFailure));
}

#[test]
fn invalid_utf8_plaintext_is_reported() {
    let mut c = channel();
    let nonce = [9u8; 12];
    let cipher = Aes256Gcm::new(Key::<Aes256Gcm>::from_slice(&KEY));
    let ct = cipher.encrypt(Nonce::from_slice(&nonce), &[0xffu8, 0xfe][..]).unwrap();
    let token = format!("{}.{}", b64(&nonce), b64(&ct));
    assert_eq!(c.decrypt(&token), Err(E2EError::Utf8DecodingError));
}

#[test]
fn key_text_must_be_base64() {
    assert!(matches!(E2EOffline::from_key_base64("not base64!"), Err(E2EError::KeyDecodingError)));
    assert!(matches!(E2EOffline::from_key_base64(""), Err(E2EError::InvalidKeyLength)));
}

#[test]
fn key_must_have_cipher_length() {
    assert!(matches!(E2EOffline::from_key_base64(&b64(&[1u8; 16])), Err(E2EError::InvalidKeyLength)));
    assert!(matches!(E2EOffline::from_key_base64(&b64(&[1u8; 33])), Err(E2EError::InvalidKeyLength)));
    assert!(E2EOffline::from_key_bytes(vec![1u8; 32]).is_ok());
    assert!(matches!(E2EOffline::from_key_bytes(vec![1u8; 31]), Err(E2EError::InvalidKeyLength)));
}

#[test]
fn error_messages() {
    assert_eq!(E2EError::SignatureVerificationError.message(), "signature failed");
    assert_eq!(E2EError::InvalidTokenFormat.message(), "invalid sender string");
    assert_eq!(E2EError::NoSharedKeyError.message(), "no shared key yet");
}

#[test]
fn unpadded_key_text_is_accepted() {
    let text = b64(&KEY);
    assert!(text.ends_with('='));
    let mut a = E2EOffline::from_key_base64(text.trim_end_matches('=')).unwrap();
    let mut b = channel();
    let t = a.encrypt("same key").unwrap();
    assert_eq!(b.decrypt(&t).unwrap(), "same key");
}

#[test]
fn key_text_is_trimmed() {
    assert!(matches!(E2EOffline::from_key_base64(" "), Err(E2EError::InvalidKeyLength)));
    assert!(matches!(E2EOffline::from_key_base64("  \n"), Err(E2EError::InvalidKeyLength)));
    let mut a = E2EOffline::from_key_base64(&format!("  {}\n", b64(&KEY))).unwrap();
    let mut b = channel();
    let t = a.encrypt("trimmed").unwrap();
    assert_eq!(b.decrypt(&t).unwrap(), "trimmed");
}

#[test]
fn ciphertext_token_is_trimmed() {
    let mut c = channel();
    let t = c.encrypt("line").unwrap();
    assert_eq!(c.decrypt(&format!("\t{t}\r\n")).unwrap(), "line");
}

#[test]
fn ciphertext_is_plaintext_plus_tag() {
    let mut c = channel();
    for p in ["", "a", "grüße"] {
        let t = c.encrypt(p).unwrap();
        let (n, ct) = t.split_once('.').unwrap();
        assert_eq!(unb64(n).len(), 12);
        assert_eq!(unb64(ct).len(), p.len() + 16);
    }
}
