//! Object metadata as the store contract shapes it, read from the
//! backend's own metadata.
use vstd::prelude::*;

verus! {

#[verifier::external_type_specification]
#[verifier::external_body]
pub struct ExBackendMetadata(opendal::Metadata);

/// Modification time given to an object whose backend reports none:
/// milliseconds since the Unix epoch.
pub const EPOCH_MILLIS: i64 = 0;

/// What the adapter reads of the backend's metadata of one entry.
#[derive(Clone, Debug)]
pub struct BackendMeta {
    pub content_length: u64,
    /// Milliseconds since the Unix epoch, where the backend reports it.
    pub last_modified: Option<i64>,
    pub etag: Option<String>,
    pub version: Option<String>,
    pub is_dir: bool,
}

/// The metadata of one object in the store contract.
#[derive(Clone, Debug)]
pub struct ObjectMeta {
    pub location: String,
    pub size: u64,
    /// Milliseconds since the Unix epoch.
    pub last_modified: i64,
    pub e_tag: Option<String>,
    pub version: Option<String>,
}

/// The modification time that an object with backend metadata `m` is given.
pub open spec fn modified_or_epoch(m: BackendMeta) -> i64 {
    match m.last_modified {
        Some(t) => t,
        None => EPOCH_MILLIS,
    }
}

/// `r` is the store metadata of the object at `location` whose backend
/// metadata is `m`.
pub open spec fn describes(r: ObjectMeta, location: Seq<char>, m: BackendMeta) -> bool {
    &&& r.location@ == location
    &&& r.size == m.content_length
    &&& r.last_modified == modified_or_epoch(m)
    &&& r.e_tag.deep_view() == m.etag.deep_view()
    &&& r.version.deep_view() == m.version.deep_view()
}

fn clone_opt(s: &Option<String>) -> (r: Option<String>)
    ensures
        r.deep_view() == s.deep_view(),
{
    match s {
        Some(v) => Some(v.clone()),
        None => None,
    }
}

/// Builds the store metadata of the object at `location`; a missing
/// modification time becomes the epoch. Never fails.
pub fn to_object_metadata(location: &str, meta: &BackendMeta) -> (r: ObjectMeta)
    ensures
        describes(r, location@, *meta),
{
    let last_modified = match meta.last_modified {
        Some(t) => t,
        None => EPOCH_MILLIS,
    };
    ObjectMeta {
        location: String::from_str(location),
        size: meta.content_length,
        last_modified,
        e_tag: clone_opt(&meta.etag),
        version: clone_opt(&meta.version),
    }
}

/// Whether the call that produced `m` asked for the content length.
pub uninterp spec fn length_requested_of(m: opendal::Metadata) -> bool;

/// Whether `m` is complete metadata, as a stat gives it.
pub uninterp spec fn complete_of(m: opendal::Metadata) -> bool;

/// The content length that `m` reports (zero where the backend gave none).
pub uninterp spec fn content_length_of(m: opendal::Metadata) -> u64;

/// The modification time that `m` reports, in milliseconds since the epoch.
pub uninterp spec fn modified_millis_of(m: opendal::Metadata) -> Option<i64>;

/// The entity tag that `m` reports.
pub uninterp spec fn etag_of(m: opendal::Metadata) -> Option<Seq<char>>;

/// The version that `m` reports.
pub uninterp spec fn version_of(m: opendal::Metadata) -> Option<Seq<char>>;

/// Whether `m` is the metadata of a directory.
pub uninterp spec fn is_dir_of(m: opendal::Metadata) -> bool;

/// Whether the content length of `m` may be read.
pub open spec fn length_readable(m: opendal::Metadata) -> bool {
    length_requested_of(m) || complete_of(m)
}

/// Relies on `opendal::Metadata::metakey`: whether the keys that the call
/// producing `m` filled include the content length.
#[verifier::external_body]
fn backend_length_requested(m: &opendal::Metadata) -> (r: bool)
    ensures
        r == length_requested_of(*m),
{
    m.metakey().contains(opendal::Metakey::ContentLength)
}

/// Relies on `opendal::Metadata::metakey`: whether the keys that the call
/// producing `m` filled are marked complete.
#[verifier::external_body]
fn backend_complete(m: &opendal::Metadata) -> (r: bool)
    ensures
        r == complete_of(*m),
{
    m.metakey().contains(opendal::Metakey::Complete)
}

/// Relies on `opendal::Metadata::content_length` (zero where the backend gave
/// none). opendal asserts, in debug builds, that the length was asked for or
/// the metadata is complete: that is the `requires`.
#[verifier::external_body]
fn backend_content_length(m: &opendal::Metadata) -> (r: u64)
    requires
        length_readable(*m),
    ensures
        r == content_length_of(*m),
{
    m.content_length()
}

/// Relies on `opendal::Metadata::last_modified`, read as milliseconds since
/// the Unix epoch.
#[verifier::external_body]
fn backend_last_modified(m: &opendal::Metadata) -> (r: Option<i64>)
    ensures
        r == modified_millis_of(*m),
{
    m.last_modified().map(|t| t.timestamp_millis())
}

/// Relies on `opendal::Metadata::etag`, copied into an owned string.
#[verifier::external_body]
fn backend_etag(m: &opendal::Metadata) -> (r: Option<String>)
    ensures
        r.deep_view() == etag_of(*m),
{
    m.etag().map(|s| s.to_string())
}

/// Relies on `opendal::Metadata::version`, copied into an owned string.
#[verifier::external_body]
fn backend_version(m: &opendal::Metadata) -> (r: Option<String>)
    ensures
        r.deep_view() == version_of(*m),
{
    m.version().map(|s| s.to_string())
}

/// Relies on `opendal::Metadata::is_dir`: whether the entry's mode is a
/// directory.
#[verifier::external_body]
fn backend_is_dir(m: &opendal::Metadata) -> (r: bool)
    ensures
        r == is_dir_of(*m),
{
    m.is_dir()
}

/// `r` holds what the backend metadata `m` reports; a length that was not
/// asked for reads as zero, as opendal gives a missing length.
pub open spec fn reads(r: BackendMeta, m: opendal::Metadata) -> bool {
    &&& r.content_length == if length_readable(m) {
        content_length_of(m)
    } else {
        0
    }
    &&& r.last_modified == modified_millis_of(m)
    &&& r.etag.deep_view() == etag_of(m)
    &&& r.version.deep_view() == version_of(m)
    &&& r.is_dir == is_dir_of(m)
}

impl BackendMeta {
    /// Reads the fields that the adapter needs out of the backend's metadata.
    pub fn from_backend(m: &opendal::Metadata) -> (r: BackendMeta)
        ensures
            reads(r, *m),
    {
        let readable = backend_length_requested(m) || backend_complete(m);
        let content_length = if readable {
            backend_content_length(m)
        } else {
            0
        };
        BackendMeta {
            content_length,
            last_modified: backend_last_modified(m),
            etag: backend_etag(m),
            version: backend_version(m),
            is_dir: backend_is_dir(m),
        }
    }
}

} // verus!
