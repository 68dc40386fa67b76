use vstd::prelude::*;

verus! {

/// Failure of authenticated decryption: the integrity tag did not verify,
/// or the input was too short to even carry a nonce.
#[derive(Clone, Copy, Debug, PartialEq, Eq, Structural)]
pub enum CryptoError {
    AuthenticationFailed,
}

/// The library-wide error taxonomy.
///
/// `ConfigError` is fatal at startup (bad or missing symmetric key);
/// `IoError` stands for a missing or unreadable stored file;
/// `FormatError` for a stored blob whose encoding is corrupt;
/// `CryptoError` for an authenticated-decryption failure or a failure of the
/// system's randomness source;
/// `AlreadyExists` for identity creation when one identity already exists;
/// `NoIdentity` for authentication with no identity stored;
/// `SignatureError` for a failed self-verification during authentication;
/// `NotFound` for a key lookup under an identity that has no stored locator.
#[derive(Clone, Copy, Debug, PartialEq, Eq, Structural)]
pub enum Error {
    ConfigError,
    IoError,
    FormatError,
    CryptoError,
    AlreadyExists,
    NoIdentity,
    SignatureError,
    NotFound,
}

} // verus!
