//! The failures a vault operation can end in.

use vstd::prelude::*;

verus! {

/// Why a vault operation failed.
#[derive(Debug)]
pub enum VaultError {
    /// No secret has been saved yet.
    NotFound,
    /// The underlying storage could not be reached; the text is the
    /// storage's own description of the fault.
    IoFailure(String),
    /// The stored record is not in the record format.
    MalformedRecord,
    /// Key derivation could not complete, or the cipher rejected the record.
    CryptoFailure,
    /// The recovered bytes are not valid text.
    EncodingFailure,
}

/// The kind of a failure, without its detail.
#[derive(Clone, Copy, PartialEq, Eq, Structural, Debug)]
pub enum ErrorKind {
    NotFound,
    IoFailure,
    MalformedRecord,
    CryptoFailure,
    EncodingFailure,
}

impl VaultError {
    /// The kind of this failure, as contracts speak of it.
    pub open spec fn spec_kind(&self) -> ErrorKind {
        match self {
            VaultError::NotFound => ErrorKind::NotFound,
            VaultError::IoFailure(_) => ErrorKind::IoFailure,
            VaultError::MalformedRecord => ErrorKind::MalformedRecord,
            VaultError::CryptoFailure => ErrorKind::CryptoFailure,
            VaultError::EncodingFailure => ErrorKind::EncodingFailure,
        }
    }

    /// The text that `reason` gives for this failure.
    pub open spec fn spec_reason(&self) -> Seq<char> {
        match self {
            VaultError::NotFound => "No se encontró la API key."@,
            VaultError::IoFailure(detail) => detail@,
            VaultError::MalformedRecord => "stored record is malformed"@,
            VaultError::CryptoFailure => "could not read stored credential"@,
            VaultError::EncodingFailure => "stored credential is not valid text"@,
        }
    }

    /// The kind of this failure.
    pub fn kind(&self) -> (k: ErrorKind)
        ensures
            k == self.spec_kind(),
    {
        match self {
            VaultError::NotFound => ErrorKind::NotFound,
            VaultError::IoFailure(_) => ErrorKind::IoFailure,
            VaultError::MalformedRecord => ErrorKind::MalformedRecord,
            VaultError::CryptoFailure => ErrorKind::CryptoFailure,
            VaultError::EncodingFailure => ErrorKind::EncodingFailure,
        }
    }

    /// A human-readable reason. A cipher failure never says which part of
    /// the record was wrong.
    pub fn reason(&self) -> (text: String)
        ensures
            text@ == self.spec_reason(),
    {
        match self {
            VaultError::NotFound => "No se encontró la API key.".to_string(),
            VaultError::IoFailure(detail) => detail.clone(),
            VaultError::MalformedRecord => "stored record is malformed".to_string(),
            VaultError::CryptoFailure => "could not read stored credential".to_string(),
            VaultError::EncodingFailure => "stored credential is not valid text".to_string(),
        }
    }

    /// What the user is told. A missing secret is an invitation to enter one;
    /// every other failure reads the same, so that a wrong key cannot be told
    /// from a damaged record.
    pub fn presentation(&self) -> (text: String)
        ensures
            text@ == (if self.spec_kind() == ErrorKind::NotFound {
                "please enter your API key"@
            } else {
                "could not read stored credential"@
            }),
    {
        match self {
            VaultError::NotFound => "please enter your API key".to_string(),
            _ => "could not read stored credential".to_string(),
        }
    }

    /// Whether the caller should ask for a new secret rather than report a
    /// damaged store.
    pub fn is_not_found(&self) -> (b: bool)
        ensures
            b == (self.spec_kind() == ErrorKind::NotFound),
    {
        match self {
            VaultError::NotFound => true,
            _ => false,
        }
    }
}

} // verus!
