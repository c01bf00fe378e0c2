use vstd::prelude::*;

verus! {

/// Every way in which an operation of this library, or of the collaborators
/// it is wired to, can fail. Each kind maps to one observable outcome.
#[derive(Clone, Copy, Debug, PartialEq, Eq, Structural)]
pub enum ErrorKind {
    UnsupportedLanguage,
    SegmentationFailed,
    EmptyContent,
    InvalidCredentials,
    TokenInvalid,
    TokenExpired,
    RefreshMismatch,
    NotFound,
    StoreUnavailable,
}

} // verus!
