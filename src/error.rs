//! The store contract's error taxonomy, and how backend errors map onto it.
use vstd::prelude::*;

verus! {

#[verifier::external_type_specification]
#[verifier::external_body]
pub struct ExBackendError(opendal::Error);

/// The kinds of failure that the backend operator reports, as plain values.
#[derive(Clone, Copy, Debug, PartialEq, Eq, Structural)]
pub enum BackendErrorKind {
    Unexpected,
    Unsupported,
    ConfigInvalid,
    NotFound,
    PermissionDenied,
    IsADirectory,
    NotADirectory,
    AlreadyExists,
    RateLimited,
    IsSameFile,
    ConditionNotMatch,
    RangeNotSatisfied,
}

/// A failure of a store operation.
#[derive(Debug)]
pub enum StoreError {
    /// No object stands at `path`.
    NotFound { path: String, source: opendal::Error },
    /// The operation is not offered, by the backend or deliberately by this
    /// adapter.
    NotSupported { source: opendal::Error },
    /// An object already stands at `path`.
    AlreadyExists { path: String, source: opendal::Error },
    /// No backend can be built for the locator.
    BackendUnavailable,
    /// Any other backend failure, with the backend's own error kept as cause.
    Generic { kind: BackendErrorKind, source: opendal::Error },
}

impl StoreError {
    pub open spec fn is_not_found_at(self, path: Seq<char>) -> bool {
        match self {
            StoreError::NotFound { path: p, .. } => p@ == path,
            _ => false,
        }
    }
}

/// The kind that the backend gave the error `e`.
pub uninterp spec fn error_kind_of(e: opendal::Error) -> BackendErrorKind;

/// What a backend failure of kind `kind`, met while working on `path`, becomes
/// in the store contract. The backend error is kept as the cause in every
/// case.
pub open spec fn translates(
    kind: BackendErrorKind,
    path: Seq<char>,
    source: opendal::Error,
    r: StoreError,
) -> bool {
    match kind {
        BackendErrorKind::NotFound => match r {
            StoreError::NotFound { path: p, source: s } => p@ == path && s == source,
            _ => false,
        },
        BackendErrorKind::Unsupported => match r {
            StoreError::NotSupported { source: s } => s == source,
            _ => false,
        },
        BackendErrorKind::AlreadyExists => match r {
            StoreError::AlreadyExists { path: p, source: s } => p@ == path && s == source,
            _ => false,
        },
        _ => match r {
            StoreError::Generic { kind: k, source: s } => k == kind && s == source,
            _ => false,
        },
    }
}

/// `r` is the store error for the backend error `e`, met while working on
/// `path`.
pub open spec fn translates_error(e: opendal::Error, path: Seq<char>, r: StoreError) -> bool {
    translates(error_kind_of(e), path, e, r)
}

/// Relies on `opendal::Error::kind`, read out as the library's own kind enum:
/// a field of the error, so a function of the error alone.
#[verifier::external_body]
fn backend_error_kind(err: &opendal::Error) -> (r: BackendErrorKind)
    ensures
        r == error_kind_of(*err),
{
    match err.kind() {
        opendal::ErrorKind::Unexpected => BackendErrorKind::Unexpected,
        opendal::ErrorKind::Unsupported => BackendErrorKind::Unsupported,
        opendal::ErrorKind::ConfigInvalid => BackendErrorKind::ConfigInvalid,
        opendal::ErrorKind::NotFound => BackendErrorKind::NotFound,
        opendal::ErrorKind::PermissionDenied => BackendErrorKind::PermissionDenied,
        opendal::ErrorKind::IsADirectory => BackendErrorKind::IsADirectory,
        opendal::ErrorKind::NotADirectory => BackendErrorKind::NotADirectory,
        opendal::ErrorKind::AlreadyExists => BackendErrorKind::AlreadyExists,
        opendal::ErrorKind::RateLimited => BackendErrorKind::RateLimited,
        opendal::ErrorKind::IsSameFile => BackendErrorKind::IsSameFile,
        opendal::ErrorKind::ConditionNotMatch => BackendErrorKind::ConditionNotMatch,
        opendal::ErrorKind::RangeNotSatisfied => BackendErrorKind::RangeNotSatisfied,
        _ => BackendErrorKind::Unexpected,
    }
}

/// Translates a backend failure of a known kind, met while working on `path`.
pub fn translate_kind(kind: BackendErrorKind, path: &str, source: opendal::Error) -> (r: StoreError)
    ensures
        translates(kind, path@, source, r),
{
    match kind {
        BackendErrorKind::NotFound => StoreError::NotFound { path: String::from_str(path), source },
        BackendErrorKind::Unsupported => StoreError::NotSupported { source },
        BackendErrorKind::AlreadyExists => StoreError::AlreadyExists {
            path: String::from_str(path),
            source,
        },
        _ => StoreError::Generic { kind, source },
    }
}

/// A backend failure together with the kind that the backend gave it.
#[derive(Debug)]
pub struct BackendFailure {
    pub kind: BackendErrorKind,
    pub source: opendal::Error,
}

impl BackendFailure {
    /// Reads the kind of a backend error.
    pub fn from_error(err: opendal::Error) -> (r: BackendFailure)
        ensures
            r.source == err,
            r.kind == error_kind_of(err),
    {
        BackendFailure { kind: backend_error_kind(&err), source: err }
    }
}

/// Translates a backend failure met while working on `path`.
pub fn translate_failure(f: BackendFailure, path: &str) -> (r: StoreError)
    ensures
        translates(f.kind, path@, f.source, r),
{
    translate_kind(f.kind, path, f.source)
}

/// Translates a backend failure met while working on `path`: not-found,
/// unsupported and already-exists map to their own variants, every other
/// kind keeps the backend error as its cause.
pub fn translate_error(err: opendal::Error, path: &str) -> (r: StoreError)
    ensures
        translates_error(err, path@, r),
{
    let kind = backend_error_kind(&err);
    translate_kind(kind, path, err)
}

/// Relies on `opendal::Error::new`: an error of kind `Unsupported` with the
/// message `message`.
#[verifier::external_body]
fn unsupported_error(message: &str) -> (r: opendal::Error)
    ensures
        error_kind_of(r) == BackendErrorKind::Unsupported,
{
    opendal::Error::new(opendal::ErrorKind::Unsupported, message)
}

/// The error for an operation that this adapter deliberately does not offer.
pub fn not_supported(message: &str) -> (r: StoreError)
    ensures
        r matches StoreError::NotSupported { source } && error_kind_of(source)
            == BackendErrorKind::Unsupported,
{
    StoreError::NotSupported { source: unsupported_error(message) }
}

} // verus!
