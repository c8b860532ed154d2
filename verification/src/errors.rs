use vstd::prelude::*;

verus! {

/// Why an authorization check was denied.
///
/// The full (WebAuthn assertion) policy reports `SignerNotFound`,
/// `InvalidSignature`, `ClientDataParseError`, `ClientDataInvalidType`,
/// `ClientDataInvalidChallenge`, `AuthDataUserNotPresent` and
/// `AuthDataUserNotVerified`; the minimal (raw signature) policy reports
/// `SignerNotFound`, `NoSignature` and `InvalidSignature`. In the ledger
/// deployment a cryptographic mismatch aborts the call; here it is surfaced
/// as the typed `InvalidSignature` so that callers can compose the check.
#[derive(Clone, Copy, Debug, PartialEq, Eq, Structural)]
pub enum Error {
    SignerNotFound,
    ClientDataParseError,
    ClientDataInvalidType,
    ClientDataInvalidChallenge,
    AuthDataUserNotPresent,
    AuthDataUserNotVerified,
    NoSignature,
    InvalidSignature,
}

/// The stable numeric code of each denial, for hosts that match on codes.
pub open spec fn error_code_spec(e: Error) -> u32 {
    match e {
        Error::SignerNotFound => 1,
        Error::ClientDataParseError => 2,
        Error::ClientDataInvalidType => 3,
        Error::ClientDataInvalidChallenge => 4,
        Error::AuthDataUserNotPresent => 5,
        Error::AuthDataUserNotVerified => 6,
        Error::NoSignature => 7,
        Error::InvalidSignature => 8,
    }
}

impl Error {
    /// The stable numeric code of this denial.
    pub fn code(&self) -> (r: u32)
        ensures
            r == error_code_spec(*self),
    {
        match self {
            Error::SignerNotFound => 1,
            Error::ClientDataParseError => 2,
            Error::ClientDataInvalidType => 3,
            Error::ClientDataInvalidChallenge => 4,
            Error::AuthDataUserNotPresent => 5,
            Error::AuthDataUserNotVerified => 6,
            Error::NoSignature => 7,
            Error::InvalidSignature => 8,
        }
    }
}

} // verus!
