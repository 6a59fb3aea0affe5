//! The failures that the handshake and the channel report.
use vstd::prelude::*;

verus! {

/// Every way in which an operation of this library can fail.
#[derive(Debug, Clone, Copy, PartialEq, Eq, Structural)]
pub enum E2EError {
    /// Key material was not valid base64url or not a valid key encoding.
    KeyDecodingError,
    /// A key could not be serialised.
    KeyEncodingError,
    /// A token did not have the expected segments.
    InvalidTokenFormat,
    /// The operation needs the peer's public key, which is not set.
    MissingPeerKeyError,
    /// The signature on a secret-transport token did not verify.
    SignatureVerificationError,
    /// An asymmetric operation, or the drawing of randomness, failed.
    CryptoError,
    /// The authentication tag of a ciphertext did not verify.
    AuthenticationFailure,
    /// Key material has the wrong length for the cipher.
    InvalidKeyLength,
    /// No shared secret is held yet.
    NoSharedKeyError,
    /// Decrypted bytes are not valid UTF-8.
    Utf8DecodingError,
}

impl E2EError {
    /// A short human-readable description of the failure.
    pub fn message(&self) -> (r: &'static str)
        ensures
            *self == E2EError::KeyDecodingError ==> r@ == "failed to decode key"@,
            *self == E2EError::KeyEncodingError ==> r@ == "failed to encode key"@,
            *self == E2EError::InvalidTokenFormat ==> r@ == "invalid sender string"@,
            *self == E2EError::MissingPeerKeyError ==> r@ == "the other party's public key is not set"@,
            *self == E2EError::SignatureVerificationError ==> r@ == "signature failed"@,
            *self == E2EError::CryptoError ==> r@ == "cryptographic operation failed"@,
            *self == E2EError::AuthenticationFailure ==> r@ == "message authentication failed"@,
            *self == E2EError::InvalidKeyLength ==> r@ == "invalid key length"@,
            *self == E2EError::NoSharedKeyError ==> r@ == "no shared key yet"@,
            *self == E2EError::Utf8DecodingError ==> r@ == "decrypted text is not valid UTF-8"@,
    {
        match self {
            E2EError::KeyDecodingError => "failed to decode key",
            E2EError::KeyEncodingError => "failed to encode key",
            E2EError::InvalidTokenFormat => "invalid sender string",
            E2EError::MissingPeerKeyError => "the other party's public key is not set",
            E2EError::SignatureVerificationError => "signature failed",
            E2EError::CryptoError => "cryptographic operation failed",
            E2EError::AuthenticationFailure => "message authentication failed",
            E2EError::InvalidKeyLength => "invalid key length",
            E2EError::NoSharedKeyError => "no shared key yet",
            E2EError::Utf8DecodingError => "decrypted text is not valid UTF-8",
        }
    }
}

} // verus!
