//! The ways in which a cryptographic operation can fail.

use vstd::prelude::*;

verus! {

#[derive(Debug, Clone, PartialEq, Eq, Structural)]
pub enum CryptoError {
    Encrypt,
    Decrypt,
    KeyDerivation,
    MissingSessionKey,
    PreKeyUnavailable,
    Replay,
    SignatureVerification,
    TooManySkippedMessages,
    Utf8,
}

impl CryptoError {
    /// The name under which an error is shown.
    pub open spec fn name(self) -> Seq<char> {
        match self {
            CryptoError::Encrypt => "Encrypt"@,
            CryptoError::Decrypt => "Decrypt"@,
            CryptoError::KeyDerivation => "KeyDerivation"@,
            CryptoError::MissingSessionKey => "MissingSessionKey"@,
            CryptoError::PreKeyUnavailable => "PreKeyUnavailable"@,
            CryptoError::Replay => "Replay"@,
            CryptoError::SignatureVerification => "SignatureVerification"@,
            CryptoError::TooManySkippedMessages => "TooManySkippedMessages"@,
            CryptoError::Utf8 => "Utf8"@,
        }
    }

    /// The name under which the error is shown.
    pub fn message(&self) -> (text: &'static str)
        ensures
            text@ == self.name(),
    {
        match self {
            CryptoError::Encrypt => "Encrypt",
            CryptoError::Decrypt => "Decrypt",
            CryptoError::KeyDerivation => "KeyDerivation",
            CryptoError::MissingSessionKey => "MissingSessionKey",
            CryptoError::PreKeyUnavailable => "PreKeyUnavailable",
            CryptoError::Replay => "Replay",
            CryptoError::SignatureVerification => "SignatureVerification",
            CryptoError::TooManySkippedMessages => "TooManySkippedMessages",
            CryptoError::Utf8 => "Utf8",
        }
    }
}

} // verus!
