use base64::Engine;
use e2eoffline::{E2EError, E2EOfflineBuilder, Role};

fn b64(b: &[u8]) -> String {
    base64::engine::general_purpose::URL_SAFE.encode(b)
}

fn unb64(s: &str) -> Vec<u8> {
    base64::engine::general_purpose::URL_SAFE.decode(s).unwrap()
}

fn pair() -> (E2EOfflineBuilder, E2EOfflineBuilder) {
    let mut sender = E2EOfflineBuilder::new_sender().unwrap();
    let mut receiver = E2EOfflineBuilder::new_reciever().unwrap();
    sender.set_other_public_key_encoded(&receiver.get_pubkey_encoded().unwrap()).unwrap();
    receiver.set_other_public_key_encoded(&sender.get_pubkey_encoded().unwrap()).unwrap();
    (sender, receiver)
}

#[test]
fn full_exchange_scenario() {
    let mut receiver = E2EOfflineBuilder::new_reciever().unwrap();
    let receiver_pub = receiver.get_pubkey_encoded().unwrap();
    assert!(!receiver_pub.is_empty());
    assert!(!receiver_pub.contains('.'));
    assert!(receiver_pub
        .chars()
        .all(|c| c.is_ascii_alphanumeric() || c == '-' || c == '_' || c == '='));

    let mut sender = E2EOfflineBuilder::new_sender().unwrap();
    sender.set_other_public_key_encoded(&receiver_pub).unwrap();
    let token = sender.send().unwrap();
    let parts: Vec<&str> = token.split('.').collect();
    assert_eq!(parts.len(), 2);
    assert!(!parts[0].is_empty() && !parts[1].is_empty());

    receiver.set_other_public_key_encoded(&sender.get_pubkey_encoded().unwrap()).unwrap();
    receiver.recieve(&token).unwrap();
    assert_eq!(receiver.get_shared_key().unwrap(), sender.get_shared_key().unwrap());

    let mut sender_channel = sender.build().unwrap();
    let mut receiver_channel = receiver.build().unwrap();
    let t = receiver_channel.encrypt("hello").unwrap();
    assert_eq!(sender_channel.decrypt(&t).unwrap(), "hello");
}

#[test]
fn handshake_yields_identical_secrets() {
    let (mut sender, mut receiver) = pair();
    let before = sender.get_shared_key().unwrap();
    let token = sender.send().unwrap();
    assert_eq!(sender.get_shared_key().unwrap(), before);
    receiver.recieve(&token).unwrap();
    assert_eq!(receiver.get_shared_key().unwrap(), before);
    assert_eq!(unb64(&before).len(), 32);
}

#[test]
fn tampered_signature_fails_verification() {
    let (mut sender, mut receiver) = pair();
    let token = sender.send().unwrap();
    let (ct, sig) = token.split_once('.').unwrap();
    let sig = unb64(sig);
    for i in (0..sig.len()).step_by(7) {
        let mut bad = sig.clone();
        bad[i] ^= 0x80;
        let t = format!("{}.{}", ct, b64(&bad));
        assert_eq!(receiver.recieve(&t), Err(E2EError::SignatureVerificationError));
    }
    assert_eq!(receiver.get_shared_key(), Err(E2EError::NoSharedKeyError));
    receiver.recieve(&token).unwrap();
}

#[test]
fn tampered_encrypted_secret_fails_verification() {
    let (mut sender, mut receiver) = pair();
    let token = sender.send().unwrap();
    let (ct, sig) = token.split_once('.').unwrap();
    let mut raw = unb64(ct);
    raw[0] ^= 1;
    let t = format!("{}.{}", b64(&raw), sig);
    assert_eq!(receiver.recieve(&t), Err(E2EError::SignatureVerificationError));
}

#[test]
fn receive_rejects_malformed_tokens() {
    let (_, mut receiver) = pair();
    assert_eq!(receiver.recieve(""), Err(E2EError::InvalidTokenFormat));
    assert_eq!(receiver.recieve("onlyonesegment"), Err(E2EError::InvalidTokenFormat));
    assert_eq!(receiver.recieve("a.b.c"), Err(E2EError::InvalidTokenFormat));
    assert_eq!(receiver.recieve("AAAA.!!!!"), Err(E2EError::InvalidTokenFormat));
    assert_eq!(receiver.get_shared_key(), Err(E2EError::NoSharedKeyError));
}

#[test]
fn operations_need_the_peer_key() {
    let mut sender = E2EOfflineBuilder::new_sender().unwrap();
    assert_eq!(sender.send(), Err(E2EError::MissingPeerKeyError));
    let mut receiver = E2EOfflineBuilder::new_reciever().unwrap();
    assert_eq!(receiver.recieve("AAAA.AAAA"), Err(E2EError::MissingPeerKeyError));
}

#[test]
fn bad_peer_keys_are_rejected() {
    let mut receiver = E2EOfflineBuilder::new_reciever().unwrap();
    assert_eq!(receiver.set_other_public_key_encoded("%%%"), Err(E2EError::KeyDecodingError));
    assert_eq!(
        receiver.set_other_public_key_encoded(&b64(b"not a key")),
        Err(E2EError::KeyDecodingError)
    );
}

#[test]
fn receiver_without_secret_cannot_build() {
    let receiver = E2EOfflineBuilder::new_reciever().unwrap();
    assert_eq!(receiver.role(), Role::Receiver);
    assert_eq!(receiver.get_shared_key(), Err(E2EError::NoSharedKeyError));
    assert!(matches!(receiver.build(), Err(E2EError::NoSharedKeyError)));
}

#[test]
fn sender_has_a_secret_from_the_start() {
    let sender = E2EOfflineBuilder::new_sender().unwrap();
    assert_eq!(sender.role(), Role::Sender);
    assert_eq!(unb64(&sender.get_shared_key().unwrap()).len(), 32);
}

#[test]
fn unpadded_public_key_is_accepted() {
    let receiver = E2EOfflineBuilder::new_reciever().unwrap();
    let key = receiver.get_pubkey_encoded().unwrap();
    let mut sender = E2EOfflineBuilder::new_sender().unwrap();
    assert_eq!(sender.set_other_public_key_encoded(key.trim_end_matches('=')), Ok(()));
    assert!(sender.send().is_ok());
}

#[test]
fn inputs_are_trimmed() {
    let (mut sender, mut receiver) = pair();
    let key = receiver.get_pubkey_encoded().unwrap();
    assert_eq!(sender.set_other_public_key_encoded(&format!(" {key}\n")), Ok(()));
    let token = sender.send().unwrap();
    assert_eq!(receiver.recieve(&format!("{token}\n")), Ok(()));
    assert_eq!(receiver.get_shared_key(), sender.get_shared_key());
}

#[test]
fn second_segment_signs_the_first() {
    let (mut sender, _) = pair();
    let token = sender.send().unwrap();
    let (a, _) = token.split_once('.').unwrap();
    assert_eq!(sender.sign_transport(&unb64(a)).unwrap(), token);
    let t = sender.sign_transport(b"abc").unwrap();
    assert!(t.starts_with("YWJj."));
}

#[test]
fn token_from_another_sender_is_refused() {
    let (_, mut receiver) = pair();
    let mut other = E2EOfflineBuilder::new_sender().unwrap();
    other.set_other_public_key_encoded(&receiver.get_pubkey_encoded().unwrap()).unwrap();
    let forged = other.send().unwrap();
    assert_eq!(receiver.recieve(&forged), Err(E2EError::SignatureVerificationError));
    assert_eq!(receiver.get_shared_key(), Err(E2EError::NoSharedKeyError));
}

#[test]
fn failed_receive_then_good_one() {
    let (mut sender, mut receiver) = pair();
    let token = sender.send().unwrap();
    assert!(receiver.recieve("garbage").is_err());
    assert_eq!(receiver.recieve(&token), Ok(()));
    assert_eq!(receiver.get_shared_key(), sender.get_shared_key());
}

#[test]
fn own_public_key_is_stable() {
    let (mut sender, _) = pair();
    let p0 = sender.get_pubkey_encoded().unwrap();
    let k0 = sender.get_shared_key().unwrap();
    sender.send().unwrap();
    sender.send().unwrap();
    assert_eq!(sender.get_pubkey_encoded().unwrap(), p0);
    assert_eq!(sender.get_shared_key().unwrap(), k0);
}

#[test]
fn transport_segments_have_modulus_length() {
    let (mut sender, _) = pair();
    let token = sender.send().unwrap();
    let (a, b) = token.split_once('.').unwrap();
    assert_eq!(unb64(a).len(), 128);
    assert_eq!(unb64(b).len(), 128);
}
