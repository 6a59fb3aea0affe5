//! The handshake endpoint: RSA key exchange that hands a fresh AES-256-GCM key
//! from a sender to a receiver, signed by the sender. Keys are held as their
//! PKCS#1 DER encodings.
use aes_gcm::aead::KeyInit;
use aes_gcm::Aes256Gcm;
use rand::rngs::OsRng;
use rsa::pkcs1::{DecodeRsaPrivateKey, DecodeRsaPublicKey, EncodeRsaPrivateKey, EncodeRsaPublicKey};
use rsa::pkcs1v15::{Signature, SigningKey, VerifyingKey};
use rsa::sha2::Sha256;
use rsa::signature::{SignatureEncoding, Signer, Verifier};
use rsa::{Pkcs1v15Encrypt, RsaPrivateKey, RsaPublicKey};
use vstd::prelude::*;
use vstd::utf8::encode_utf8;

use crate::channel::{E2EOffline, KEY_LEN};
use crate::encoding::{
    b64_url, b64_url_decode, b64_url_decode_lenient, bytes_of, decode_key_segment, decode_segment,
    dot_free,
    encode_segment, join_segments, join_spec, lemma_join_clean, lemma_split_join, split_segments,
    split_spec, trim_white_space, trimmed,
};
use crate::error::E2EError;

verus! {

/// Modulus size of the RSA keys that endpoints generate.
pub const RSA_BITS: usize = 1024;

/// The PKCS#1 DER public key of a PKCS#1 DER private key.
pub uninterp spec fn pkcs1_public_der_of(private_der: Seq<u8>) -> Option<Seq<u8>>;

/// Whether bytes parse as a PKCS#1 DER public key.
pub uninterp spec fn pkcs1_public_key_parses(der: Seq<u8>) -> bool;

/// What PKCS#1 v1.5 decryption under a PKCS#1 DER private key gives.
pub uninterp spec fn pkcs1v15_decrypt_of(private_der: Seq<u8>, ciphertext: Seq<u8>) -> Option<
    Seq<u8>,
>;

/// The PKCS#1 v1.5 SHA-256 signature over `msg` under a PKCS#1 DER private key.
pub uninterp spec fn pkcs1v15_sha256_sign_of(private_der: Seq<u8>, msg: Seq<u8>) -> Option<Seq<u8>>;

/// Whether `sig` is a valid PKCS#1 v1.5 SHA-256 signature over `msg` under a
/// PKCS#1 DER public key.
pub uninterp spec fn pkcs1v15_sha256_verifies(public_der: Seq<u8>, msg: Seq<u8>, sig: Seq<u8>) -> bool;

/// Whether a PKCS#1 DER private key has prime factors, as the keys that
/// `RsaPrivateKey::new` generates do.
pub uninterp spec fn rsa_key_has_prime_factors(private_der: Seq<u8>) -> bool;

/// The size in bits of the modulus of a PKCS#1 DER private key.
pub uninterp spec fn rsa_modulus_bits(private_der: Seq<u8>) -> nat;

/// Length in bytes of a value modulo an RSA modulus of `bits` bits.
pub open spec fn modulus_len(bits: nat) -> nat {
    ((bits + 7) / 8) as nat
}

/// `c` decrypts to `m` under every private key with prime factors whose public
/// key is `public_der`, and has the length of that key's modulus.
pub open spec fn encrypts_to(public_der: Seq<u8>, m: Seq<u8>, c: Seq<u8>) -> bool {
    forall|p: Seq<u8>|
        rsa_key_has_prime_factors(p) && pkcs1_public_der_of(p) == Some(public_der) ==> (
        #[trigger] pkcs1v15_decrypt_of(p, c) == Some(m) && c.len() == modulus_len(
            rsa_modulus_bits(p),
        ))
}

/// Relies on rsa's `RsaPrivateKey::new`: a fresh key from the operating
/// system's generator (which panics if that generator fails), whose factors
/// are primes and whose modulus has exactly `bits` bits (`generate.rs`
/// retries until `n.bits() == bit_size`), as its PKCS#1 DER (`to_pkcs1_der`),
/// or nothing when generation or encoding returns an error.
#[verifier::external_body]
fn generate_private_key(rng: &mut OsRng, bits: usize) -> (r: Option<Vec<u8>>)
    ensures
        r matches Some(k) ==> rsa_key_has_prime_factors(k@) && rsa_modulus_bits(k@) == bits,
{
    match RsaPrivateKey::new(rng, bits) {
        Ok(key) => match key.to_pkcs1_der() {
            Ok(der) => Some(der.as_bytes().to_vec()),
            Err(_) => None,
        },
        Err(_) => None,
    }
}

/// Relies on rsa's `RsaPrivateKey::to_public_key`, with the keys in PKCS#1
/// DER: a function of the private key alone.
#[verifier::external_body]
fn public_key_of(private_der: &[u8]) -> (r: Option<Vec<u8>>)
    ensures
        bytes_of(r) == pkcs1_public_der_of(private_der@),
{
    match RsaPrivateKey::from_pkcs1_der(private_der) {
        Ok(key) => match key.to_public_key().to_pkcs1_der() {
            Ok(der) => Some(der.as_bytes().to_vec()),
            Err(_) => None,
        },
        Err(_) => None,
    }
}

/// Relies on aes-gcm's `KeyInit::generate_key` for `Aes256Gcm`: a random key
/// of the cipher's length (it panics if the operating system's generator
/// fails).
#[verifier::external_body]
fn generate_secret(rng: &mut OsRng) -> (r: Vec<u8>)
    ensures
        r@.len() == KEY_LEN,
{
    Aes256Gcm::generate_key(rng).to_vec()
}

/// Relies on rsa's `DecodeRsaPublicKey::from_pkcs1_der`: whether the bytes
/// are a PKCS#1 DER public key (empty input never is).
#[verifier::external_body]
fn public_key_parses(der: &[u8]) -> (r: bool)
    ensures
        r == pkcs1_public_key_parses(der@),
        r ==> der@.len() > 0,
{
    RsaPublicKey::from_pkcs1_der(der).is_ok()
}

/// Relies on rsa's `RsaPublicKey::encrypt` with PKCS#1 v1.5 padding, which
/// draws random padding: a ciphertext of the modulus length that every
/// matching private key with prime factors decrypts to `msg`, or nothing when
/// encryption fails.
#[verifier::external_body]
fn rsa_encrypt(rng: &mut OsRng, public_der: &[u8], msg: &[u8]) -> (r: Option<Vec<u8>>)
    ensures
        r matches Some(c) ==> encrypts_to(public_der@, msg@, c@),
{
    match RsaPublicKey::from_pkcs1_der(public_der) {
        Ok(key) => key.encrypt(rng, Pkcs1v15Encrypt, msg).ok(),
        Err(_) => None,
    }
}

/// Relies on rsa's `RsaPrivateKey::decrypt` with PKCS#1 v1.5 padding, which
/// is deterministic.
#[verifier::external_body]
fn rsa_decrypt(private_der: &[u8], ciphertext: &[u8]) -> (r: Option<Vec<u8>>)
    ensures
        bytes_of(r) == pkcs1v15_decrypt_of(private_der@, ciphertext@),
{
    match RsaPrivateKey::from_pkcs1_der(private_der) {
        Ok(key) => key.decrypt(Pkcs1v15Encrypt, ciphertext).ok(),
        Err(_) => None,
    }
}

/// Relies on rsa's PKCS#1 v1.5 `SigningKey<Sha256>::try_sign`, which is
/// deterministic and pads the signature to the modulus length;
/// `VerifyingKey::verify` accepts what it produced under the matching public
/// key whenever that key parses.
#[verifier::external_body]
fn rsa_sign(private_der: &[u8], msg: &[u8]) -> (r: Option<Vec<u8>>)
    ensures
        bytes_of(r) == pkcs1v15_sha256_sign_of(private_der@, msg@),
        r matches Some(s) ==> (pkcs1_public_der_of(private_der@) matches Some(pd) ==> (
        pkcs1_public_key_parses(pd) ==> pkcs1v15_sha256_verifies(pd, msg@, s@))),
        r matches Some(s) ==> s@.len() == modulus_len(rsa_modulus_bits(private_der@)),
{
    match RsaPrivateKey::from_pkcs1_der(private_der) {
        Ok(key) => match SigningKey::<Sha256>::new(key).try_sign(msg) {
            Ok(sig) => Some(sig.to_vec()),
            Err(_) => None,
        },
        Err(_) => None,
    }
}

/// Relies on rsa's PKCS#1 v1.5 `VerifyingKey<Sha256>::verify`: whether `sig`
/// is a valid signature over `msg` under the key.
#[verifier::external_body]
fn rsa_verify(public_der: &[u8], msg: &[u8], sig: &[u8]) -> (r: bool)
    ensures
        r == pkcs1v15_sha256_verifies(public_der@, msg@, sig@),
{
    match (RsaPublicKey::from_pkcs1_der(public_der), Signature::try_from(sig)) {
        (Ok(key), Ok(sig)) => VerifyingKey::<Sha256>::new(key).verify(msg, &sig).is_ok(),
        _ => false,
    }
}

/// The secret-transport token for ciphertext `c`, signed under `private_der`.
pub open spec fn transport_token_of(private_der: Seq<u8>, c: Seq<u8>) -> Option<Seq<char>> {
    match pkcs1v15_sha256_sign_of(private_der, encode_utf8(b64_url(c))) {
        Some(s) => Some(join_spec(b64_url(c), b64_url(s))),
        None => None,
    }
}

/// What receiving token `t` gives a receiver that holds the sender's public
/// key `peer_der` and its own private key `private_der`: the secret, or the
/// failure. The signature is checked before the secret is decoded or
/// decrypted.
pub open spec fn receive_outcome(peer_der: Seq<u8>, private_der: Seq<u8>, t: Seq<char>) -> Result<
    Seq<u8>,
    E2EError,
> {
    match split_spec(t) {
        None => Err(E2EError::InvalidTokenFormat),
        Some((a, s)) => match b64_url_decode(s) {
            None => Err(E2EError::InvalidTokenFormat),
            Some(sig) => if !pkcs1v15_sha256_verifies(peer_der, encode_utf8(a), sig) {
                Err(E2EError::SignatureVerificationError)
            } else {
                match b64_url_decode(a) {
                    None => Err(E2EError::InvalidTokenFormat),
                    Some(c) => match pkcs1v15_decrypt_of(private_der, c) {
                        None => Err(E2EError::CryptoError),
                        Some(k) => if k.len() == KEY_LEN {
                            Ok(k)
                        } else {
                            Err(E2EError::InvalidKeyLength)
                        },
                    },
                }
            },
        },
    }
}

/// Which side of the handshake an endpoint plays.
#[derive(Debug, Clone, Copy, PartialEq, Eq, Structural)]
pub enum Role {
    /// Generates the shared secret and sends it.
    Sender,
    /// Receives the shared secret.
    Receiver,
}

/// One side of the handshake: its own RSA key pair, the peer's public key once
/// set, and the shared secret once there is one.
pub struct E2EOfflineBuilder {
    role: Role,
    rng: OsRng,
    private_der: Vec<u8>,
    public_der: Vec<u8>,
    peer_der: Option<Vec<u8>>,
    shared_key: Option<Vec<u8>>,
}

impl E2EOfflineBuilder {
    /// The role fixed at construction.
    pub closed spec fn role_of(&self) -> Role {
        self.role
    }

    /// This endpoint's own private key, as PKCS#1 DER.
    pub closed spec fn own_private_der(&self) -> Seq<u8> {
        self.private_der@
    }

    /// This endpoint's own public key, as PKCS#1 DER.
    pub closed spec fn own_public_der(&self) -> Seq<u8> {
        self.public_der@
    }

    /// The peer's public key as PKCS#1 DER, once set.
    pub closed spec fn peer_der(&self) -> Option<Seq<u8>> {
        bytes_of(self.peer_der)
    }

    /// The shared secret, once there is one.
    pub closed spec fn shared_key(&self) -> Option<Seq<u8>> {
        bytes_of(self.shared_key)
    }

    /// The endpoint's own key pair matches, and its secret, when held, has the
    /// cipher's key length.
    pub open spec fn well_formed(&self) -> bool {
        &&& pkcs1_public_der_of(self.own_private_der()) == Some(self.own_public_der())
        &&& pkcs1_public_key_parses(self.own_public_der())
        &&& self.own_public_der().len() > 0
        &&& rsa_key_has_prime_factors(self.own_private_der())
        &&& rsa_modulus_bits(self.own_private_der()) == RSA_BITS
        &&& self.shared_key() matches Some(k) ==> k.len() == KEY_LEN
        &&& self.role_of() == Role::Sender ==> self.shared_key() is Some
    }

    #[verifier::type_invariant]
    spec fn inv(&self) -> bool {
        &&& pkcs1_public_der_of(self.private_der@) == Some(self.public_der@)
        &&& pkcs1_public_key_parses(self.public_der@)
        &&& self.public_der@.len() > 0
        &&& rsa_key_has_prime_factors(self.private_der@)
        &&& rsa_modulus_bits(self.private_der@) == RSA_BITS
        &&& self.shared_key matches Some(k) ==> k@.len() == KEY_LEN
        &&& self.role == Role::Sender ==> self.shared_key is Some
    }

    /// The role of this endpoint.
    pub fn role(&self) -> (r: Role)
        ensures
            r == self.role_of(),
    {
        self.role
    }

    /// An endpoint around a freshly generated private key and, for a
    /// sender, its secret: fails with `KeyEncodingError` when no usable public
    /// key can be derived from the private key.
    fn from_generated(role: Role, private_der: Vec<u8>, secret: Option<Vec<u8>>) -> (r: Result<
        E2EOfflineBuilder,
        E2EError,
    >)
        requires
            rsa_key_has_prime_factors(private_der@),
            rsa_modulus_bits(private_der@) == RSA_BITS,
            role == Role::Sender <==> secret is Some,
            secret matches Some(k) ==> k@.len() == KEY_LEN,
        ensures
            match pkcs1_public_der_of(private_der@) {
                Some(pd) => if pkcs1_public_key_parses(pd) {
                    r matches Ok(b) && b.role_of() == role && b.own_private_der() == private_der@
                        && b.own_public_der() == pd && b.peer_der() is None && b.shared_key()
                        == bytes_of(secret) && b.well_formed()
                } else {
                    r == Err::<E2EOfflineBuilder, E2EError>(E2EError::KeyEncodingError)
                },
                None => r == Err::<E2EOfflineBuilder, E2EError>(E2EError::KeyEncodingError),
            },
    {
        let public_der = match public_key_of(private_der.as_slice()) {
            Some(k) => k,
            None => return Err(E2EError::KeyEncodingError),
        };
        if !public_key_parses(public_der.as_slice()) {
            return Err(E2EError::KeyEncodingError);
        }
        let b = E2EOfflineBuilder {
            role,
            rng: OsRng::default(),
            private_der,
            public_der,
            peer_der: None,
            shared_key: secret,
        };
        proof {
            use_type_invariant(&b);
        }
        Ok(b)
    }

    /// A sender with a fresh 1024-bit key pair and a fresh shared secret.
    pub fn new_sender() -> (r: Result<E2EOfflineBuilder, E2EError>)
        ensures
            r matches Ok(b) ==> b.role_of() == Role::Sender && b.peer_der() is None && (
            b.shared_key() matches Some(k) && k.len() == KEY_LEN) && b.well_formed(),
            r matches Err(e) ==> e == E2EError::CryptoError || e == E2EError::KeyEncodingError,
    {
        let mut rng = OsRng::default();
        let private_der = match generate_private_key(&mut rng, RSA_BITS) {
            Some(k) => k,
            None => return Err(E2EError::CryptoError),
        };
        let secret = generate_secret(&mut rng);
        E2EOfflineBuilder::from_generated(Role::Sender, private_der, Some(secret))
    }

    /// A receiver with a fresh 1024-bit key pair and no shared secret yet.
    pub fn new_reciever() -> (r: Result<E2EOfflineBuilder, E2EError>)
        ensures
            r matches Ok(b) ==> b.role_of() == Role::Receiver && b.peer_der() is None
                && b.shared_key() is None && b.well_formed(),
            r matches Err(e) ==> e == E2EError::CryptoError || e == E2EError::KeyEncodingError,
    {
        let mut rng = OsRng::default();
        let private_der = match generate_private_key(&mut rng, RSA_BITS) {
            Some(k) => k,
            None => return Err(E2EError::CryptoError),
        };
        E2EOfflineBuilder::from_generated(Role::Receiver, private_der, None)
    }

    /// Sets the peer's public key from its base64url PKCS#1 DER text, padded
    /// or not and with surrounding white space ignored, replacing any earlier
    /// one.
    pub fn set_other_public_key_encoded(&mut self, pubkey: &str) -> (r: Result<(), E2EError>)
        ensures
            final(self).role_of() == old(self).role_of(),
            final(self).shared_key() == old(self).shared_key(),
            final(self).own_private_der() == old(self).own_private_der(),
            final(self).own_public_der() == old(self).own_public_der(),
            match b64_url_decode_lenient(trimmed(pubkey@)) {
                Some(der) => if pkcs1_public_key_parses(der) {
                    r is Ok && final(self).peer_der() == Some(der)
                } else {
                    r == Err::<(), E2EError>(E2EError::KeyDecodingError) && final(self).peer_der()
                        == old(self).peer_der()
                },
                None => r == Err::<(), E2EError>(E2EError::KeyDecodingError)
                    && final(self).peer_der() == old(self).peer_der(),
            },
    {
        let der = match decode_key_segment(trim_white_space(pubkey)) {
            Some(d) => d,
            None => return Err(E2EError::KeyDecodingError),
        };
        if !public_key_parses(der.as_slice()) {
            return Err(E2EError::KeyDecodingError);
        }
        self.set_other_public_key(der);
        Ok(())
    }

    /// Stores the peer's public key: the receiver's for a sender, the
    /// sender's for a receiver.
    fn set_other_public_key(&mut self, pubkey: Vec<u8>)
        ensures
            final(self).role_of() == old(self).role_of(),
            final(self).shared_key() == old(self).shared_key(),
            final(self).own_private_der() == old(self).own_private_der(),
            final(self).own_public_der() == old(self).own_public_der(),
            final(self).peer_der() == Some(pubkey@),
    {
        proof {
            use_type_invariant(&*self);
        }
        self.peer_der = Some(pubkey);
    }

    /// This endpoint's own public key.
    fn get_pubkey(&self) -> (r: &Vec<u8>)
        ensures
            r@ == self.own_public_der(),
    {
        &self.public_der
    }

    /// This endpoint's own public key as base64url PKCS#1 DER text.
    pub fn get_pubkey_encoded(&self) -> (r: Result<String, E2EError>)
        ensures
            r matches Ok(s) && s@ == b64_url(self.own_public_der()),
            r matches Ok(s) ==> s@.len() > 0 && dot_free(s@),
    {
        proof {
            use_type_invariant(self);
            crate::encoding::lemma_b64_len(self.own_public_der());
        }
        Ok(encode_segment(self.get_pubkey().as_slice()))
    }

    /// The token that carries `encrypted`, the shared secret encrypted to the
    /// receiver: its base64url text, a delimiter, and this endpoint's
    /// signature over that text.
    pub fn sign_transport(&self, encrypted: &[u8]) -> (r: Result<String, E2EError>)
        ensures
            match transport_token_of(self.own_private_der(), encrypted@) {
                Some(t) => r matches Ok(x) && x@ == t,
                None => r == Err::<String, E2EError>(E2EError::CryptoError),
            },
            r matches Ok(x) ==> exists|s: Seq<u8>|
                x@ == join_spec(b64_url(encrypted@), b64_url(s)) && s.len() == modulus_len(
                    RSA_BITS as nat,
                ) && pkcs1v15_sha256_verifies(
                    self.own_public_der(),
                    encode_utf8(b64_url(encrypted@)),
                    s,
                ),
    {
        proof {
            use_type_invariant(self);
        }
        let encrypted_encoded = encode_segment(encrypted);
        let signature = match rsa_sign(self.private_der.as_slice(), encrypted_encoded.as_str().as_bytes()) {
            Some(s) => s,
            None => return Err(E2EError::CryptoError),
        };
        let signature_encoded = encode_segment(signature.as_slice());
        let t = join_segments(encrypted_encoded.as_str(), signature_encoded.as_str());
        proof {
            assert(pkcs1v15_sha256_verifies(
                self.own_public_der(),
                encode_utf8(b64_url(encrypted@)),
                signature@,
            ));
            assert(t@ == join_spec(b64_url(encrypted@), b64_url(signature@)));
        }
        Ok(t)
    }

    /// Encrypts the shared secret under the receiver's public key and signs
    /// the encoded ciphertext: the token `ciphertext.signature`.
    pub fn send(&mut self) -> (r: Result<String, E2EError>)
        requires
            old(self).role_of() == Role::Sender,
        ensures
            *final(self) == *old(self),
            r == Err::<String, E2EError>(E2EError::MissingPeerKeyError) <==> old(self).peer_der()
                is None,
            r matches Ok(t) ==> exists|c: Seq<u8>|
                #![trigger transport_token_of(old(self).own_private_der(), c)]
                encrypts_to(old(self).peer_der()->Some_0, old(self).shared_key()->Some_0, c)
                    && transport_token_of(old(self).own_private_der(), c) == Some(t@),
            r matches Ok(t) ==> exists|c: Seq<u8>, s: Seq<u8>|
                t@ == join_spec(b64_url(c), b64_url(s)) && s.len() == modulus_len(
                    RSA_BITS as nat,
                ) && pkcs1v15_sha256_verifies(
                    old(self).own_public_der(),
                    encode_utf8(b64_url(c)),
                    s,
                ) && encrypts_to(old(self).peer_der()->Some_0, old(self).shared_key()->Some_0, c),
            r matches Err(e) ==> e == E2EError::MissingPeerKeyError || e
                == E2EError::CryptoError,
    {
        proof {
            use_type_invariant(&*self);
        }
        let peer = match &self.peer_der {
            Some(k) => k,
            None => return Err(E2EError::MissingPeerKeyError),
        };
        let secret = match &self.shared_key {
            Some(k) => k,
            None => return Err(E2EError::CryptoError),
        };
        let mut rng = self.rng;
        let encrypted = match rsa_encrypt(&mut rng, peer.as_slice(), secret.as_slice()) {
            Some(c) => c,
            None => return Err(E2EError::CryptoError),
        };
        self.sign_transport(encrypted.as_slice())
    }

    /// Takes the result of decrypting a transported secret: stores it as the
    /// shared secret when there is one of the cipher's key length.
    fn accept_decrypted_secret(&mut self, decrypted: Option<Vec<u8>>) -> (r: Result<
        (),
        E2EError,
    >)
        ensures
            final(self).role_of() == old(self).role_of(),
            final(self).peer_der() == old(self).peer_der(),
            final(self).own_private_der() == old(self).own_private_der(),
            final(self).own_public_der() == old(self).own_public_der(),
            match decrypted {
                None => r == Err::<(), E2EError>(E2EError::CryptoError) && final(self).shared_key()
                    == old(self).shared_key(),
                Some(k) => if k@.len() == KEY_LEN {
                    r is Ok && final(self).shared_key() == Some(k@)
                } else {
                    r == Err::<(), E2EError>(E2EError::InvalidKeyLength) && final(self).shared_key()
                        == old(self).shared_key()
                },
            },
    {
        proof {
            use_type_invariant(&*self);
        }
        match decrypted {
            None => Err(E2EError::CryptoError),
            Some(k) => {
                if k.len() != KEY_LEN {
                    return Err(E2EError::InvalidKeyLength);
                }
                self.shared_key = Some(k);
                Ok(())
            },
        }
    }

    /// Checks the sender's signature on a secret-transport token (surrounding
    /// white space ignored), then decrypts the secret with this endpoint's
    /// private key and keeps it.
    pub fn recieve(&mut self, message: &str) -> (r: Result<(), E2EError>)
        requires
            old(self).role_of() == Role::Receiver,
        ensures
            final(self).role_of() == old(self).role_of(),
            final(self).peer_der() == old(self).peer_der(),
            final(self).own_private_der() == old(self).own_private_der(),
            final(self).own_public_der() == old(self).own_public_der(),
            match old(self).peer_der() {
                None => r == Err::<(), E2EError>(E2EError::MissingPeerKeyError)
                    && final(self).shared_key() == old(self).shared_key(),
                Some(peer) => match receive_outcome(
                    peer,
                    old(self).own_private_der(),
                    trimmed(message@),
                ) {
                    Ok(k) => r is Ok && final(self).shared_key() == Some(k),
                    Err(e) => r == Err::<(), E2EError>(e) && final(self).shared_key() == old(
                        self,
                    ).shared_key(),
                },
            },
    {
        let encrypted_encoded = {
            let peer = match &self.peer_der {
                Some(k) => k,
                None => return Err(E2EError::MissingPeerKeyError),
            };
            let (a, s) = match split_segments(trim_white_space(message)) {
                Some(p) => p,
                None => return Err(E2EError::InvalidTokenFormat),
            };
            let signature = match decode_segment(s.as_str()) {
                Some(sig) => sig,
                None => return Err(E2EError::InvalidTokenFormat),
            };
            if !rsa_verify(peer.as_slice(), a.as_str().as_bytes(), signature.as_slice()) {
                return Err(E2EError::SignatureVerificationError);
            }
            a
        };
        let encrypted = match decode_segment(encrypted_encoded.as_str()) {
            Some(c) => c,
            None => return Err(E2EError::InvalidTokenFormat),
        };
        let decrypted = rsa_decrypt(self.private_der.as_slice(), encrypted.as_slice());
        self.accept_decrypted_secret(decrypted)
    }

    /// The shared secret as base64url text.
    pub fn get_shared_key(&self) -> (r: Result<String, E2EError>)
        ensures
            match self.shared_key() {
                None => r == Err::<String, E2EError>(E2EError::NoSharedKeyError),
                Some(k) => r matches Ok(s) && s@ == b64_url(k) && k.len() == KEY_LEN,
            },
    {
        proof {
            use_type_invariant(self);
        }
        match &self.shared_key {
            None => Err(E2EError::NoSharedKeyError),
            Some(k) => Ok(encode_segment(k.as_slice())),
        }
    }

    /// Turns this endpoint into the channel keyed by its shared secret.
    pub fn build(self) -> (r: Result<E2EOffline, E2EError>)
        ensures
            match self.shared_key() {
                None => r == Err::<E2EOffline, E2EError>(E2EError::NoSharedKeyError),
                Some(k) => r matches Ok(c) && c.key() == k,
            },
    {
        proof {
            use_type_invariant(&self);
        }
        match self.shared_key {
            None => Err(E2EError::NoSharedKeyError),
            Some(k) => E2EOffline::from_key_bytes(k),
        }
    }
}

/// The handshake delivers the secret: a token that carries `secret`
/// encrypted to the public key of a receiver's generated key, signed by the
/// sender, is received as exactly that secret, with or without surrounding
/// white space; its first segment has the length of the receiver's modulus.
pub proof fn lemma_handshake_delivers_secret(
    sender_public: Seq<u8>,
    receiver_private: Seq<u8>,
    receiver_public: Seq<u8>,
    secret: Seq<u8>,
    c: Seq<u8>,
    s: Seq<u8>,
)
    requires
        rsa_key_has_prime_factors(receiver_private),
        pkcs1_public_der_of(receiver_private) == Some(receiver_public),
        encrypts_to(receiver_public, secret, c),
        pkcs1v15_sha256_verifies(sender_public, encode_utf8(b64_url(c)), s),
        secret.len() == KEY_LEN,
    ensures
        c.len() == modulus_len(rsa_modulus_bits(receiver_private)),
        trimmed(join_spec(b64_url(c), b64_url(s))) == join_spec(b64_url(c), b64_url(s)),
        receive_outcome(sender_public, receiver_private, join_spec(b64_url(c), b64_url(s))) == Ok::<
            Seq<u8>,
            E2EError,
        >(secret),
{
    crate::encoding::lemma_b64_dot_free(c);
    crate::encoding::lemma_b64_dot_free(s);
    crate::encoding::lemma_b64_decode_encode(c);
    crate::encoding::lemma_b64_decode_encode(s);
    lemma_split_join(b64_url(c), b64_url(s));
    lemma_join_clean(b64_url(c), b64_url(s));
    assert(pkcs1v15_decrypt_of(receiver_private, c) == Some(secret));
}

/// A token whose signature does not verify under the sender's key is refused
/// with a signature failure, whatever the receiver's own key and whatever the
/// first segment holds.
pub proof fn lemma_forged_token_refused(
    sender_public: Seq<u8>,
    receiver_private: Seq<u8>,
    a: Seq<char>,
    sig: Seq<u8>,
)
    requires
        crate::encoding::dot_free(a),
        !pkcs1v15_sha256_verifies(sender_public, encode_utf8(a), sig),
    ensures
        receive_outcome(sender_public, receiver_private, join_spec(a, b64_url(sig))) == Err::<
            Seq<u8>,
            E2EError,
        >(E2EError::SignatureVerificationError),
{
    crate::encoding::lemma_b64_dot_free(sig);
    crate::encoding::lemma_b64_decode_encode(sig);
    lemma_split_join(a, b64_url(sig));
}

/// One endpoint's encoded public key is always accepted by another: the text
/// that `get_pubkey_encoded` returns decodes, after trimming, to a key that
/// parses.
pub proof fn lemma_public_key_exchange(a: &E2EOfflineBuilder)
    requires
        a.well_formed(),
    ensures
        b64_url_decode_lenient(trimmed(b64_url(a.own_public_der()))) == Some(a.own_public_der()),
        pkcs1_public_key_parses(a.own_public_der()),
{
    crate::encoding::lemma_key_text_round_trip(a.own_public_der());
}

} // verus!
