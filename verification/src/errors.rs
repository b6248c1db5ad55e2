use vstd::prelude::*;

verus! {

/// Failure of a password-generation request.
#[derive(Clone, Copy, Debug, PartialEq, Eq, Structural)]
pub enum GenerationError {
    /// The requested length was zero or negative.
    InvalidLength,
}

/// Failure while recovering a plaintext secret from its stored form.
#[derive(Clone, Copy, Debug, PartialEq, Eq, Structural)]
pub enum CryptoError {
    /// The ciphertext/nonce pair failed the integrity check: tampered data,
    /// a wrong key, or a mismatched nonce.
    AuthenticationFailure,
    /// The recovered plaintext bytes are not valid text.
    DecodingFailure,
}

} // verus!
