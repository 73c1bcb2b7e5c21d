//! The store adapter: the store contract's operations over one backend
//! operator. The backend calls themselves are awaited by the host; what the
//! adapter decides before and after each of them is here.
use vstd::prelude::*;
use crate::error::{error_kind_of, not_supported, translate_failure, translates, BackendErrorKind, BackendFailure, StoreError};
use crate::listing::ListingCursor;
use crate::meta::{describes, to_object_metadata, BackendMeta, ObjectMeta};

verus! {

#[verifier::external_type_specification]
#[verifier::external_body]
pub struct ExOperator(opendal::Operator);

/// What a completed write reports. This adapter never learns an entity tag
/// or a version from the backend, so both stay absent.
#[derive(Debug)]
pub struct PutOutcome {
    pub e_tag: Option<String>,
    pub version: Option<String>,
}

/// Whether the backend behind `op` lists natively from a start-after position.
pub uninterp spec fn lists_with_start_after(op: opendal::Operator) -> bool;

/// Relies on `opendal::Operator::info` and its full capability: whether the
/// backend lists natively from a start-after position, a flag fixed when the
/// operator is built.
#[verifier::external_body]
fn backend_lists_with_start_after(op: &opendal::Operator) -> (r: bool)
    ensures
        r == lists_with_start_after(*op),
{
    op.info().full_capability().list_with_start_after
}

/// The store adapter over one backend operator. It holds no state beyond
/// the operator.
#[derive(Debug)]
pub struct OpendalStore {
    pub inner: opendal::Operator,
}

/// `e` is the refusal of an operation that this adapter does not offer.
pub open spec fn refused(e: StoreError) -> bool {
    e matches StoreError::NotSupported { source } && error_kind_of(source)
        == BackendErrorKind::Unsupported
}

/// `r` is the store's answer to a write of `location` that the backend
/// answered with `res`.
pub open spec fn put_answers(r: Result<PutOutcome, StoreError>, location: Seq<char>, res: Result<(), BackendFailure>) -> bool {
    match res {
        Ok(()) => match r {
            Ok(o) => o.e_tag is None && o.version is None,
            Err(_) => false,
        },
        Err(f) => match r {
            Err(se) => translates(f.kind, location, f.source, se),
            Ok(_) => false,
        },
    }
}

/// `r` is the store's answer to a metadata request on `location` that the
/// backend's stat answered with `stat`.
pub open spec fn head_answers(r: Result<ObjectMeta, StoreError>, location: Seq<char>, stat: Result<BackendMeta, BackendFailure>) -> bool {
    match stat {
        Ok(m) => match r {
            Ok(om) => describes(om, location, m),
            Err(_) => false,
        },
        Err(f) => match r {
            Err(se) => translates(f.kind, location, f.source, se),
            Ok(_) => false,
        },
    }
}

impl OpendalStore {
    /// An adapter over the operator `op`.
    pub fn new(op: opendal::Operator) -> (r: OpendalStore)
        ensures
            r.inner == op,
    {
        OpendalStore { inner: op }
    }

    /// How a listing that resumes after `offset` runs on this backend: where
    /// the backend lists from a start-after position itself, it is asked to,
    /// and every entry it gives is kept; otherwise the full listing is asked
    /// for and the cursor skips what lies at or before `offset`.
    ///
    /// The first part of the result says whether to ask the backend to
    /// start after `offset`.
    pub fn offset_listing(&self, offset: &str) -> (r: (bool, ListingCursor))
        ensures
            r.0 == lists_with_start_after(self.inner),
            !r.1.done,
            r.0 ==> r.1.after is None,
            !r.0 ==> r.1.after is Some && r.1.after->0@ == offset@,
    {
        let native = backend_lists_with_start_after(&self.inner);
        offset_cursor(native, offset)
    }

    /// Conditional writes are not offered.
    pub fn put_opts(&self, location: &str) -> (r: Result<PutOutcome, StoreError>)
        ensures
            r matches Err(e) && refused(e),
    {
        Err(not_supported("put_opts is not implemented so far"))
    }

    /// Multipart uploads are not offered.
    pub fn put_multipart_opts(&self, location: &str) -> (r: Result<(), StoreError>)
        ensures
            r matches Err(e) && refused(e),
    {
        Err(not_supported("put_multipart_opts is not implemented so far"))
    }

    /// Reads with options (ranges, conditions) are not offered.
    pub fn get_opts(&self, location: &str) -> (r: Result<ObjectMeta, StoreError>)
        ensures
            r matches Err(e) && refused(e),
    {
        Err(not_supported("get_opts is not implemented so far"))
    }

    /// Copying is not offered, whether or not `from` exists.
    pub fn copy(&self, from: &str, to: &str) -> (r: Result<(), StoreError>)
        ensures
            r matches Err(e) && refused(e),
    {
        Err(not_supported("copy is not implemented so far"))
    }

    /// Renaming is not offered.
    pub fn rename(&self, from: &str, to: &str) -> (r: Result<(), StoreError>)
        ensures
            r matches Err(e) && refused(e),
    {
        Err(not_supported("rename is not implemented so far"))
    }

    /// Copying unless the target exists is not offered.
    pub fn copy_if_not_exists(&self, from: &str, to: &str) -> (r: Result<(), StoreError>)
        ensures
            r matches Err(e) && refused(e),
    {
        Err(not_supported("copy_if_not_exists is not implemented so far"))
    }
}

/// The listing cursor for a resumed listing, given whether the backend
/// starts after `offset` itself.
pub fn offset_cursor(native: bool, offset: &str) -> (r: (bool, ListingCursor))
    ensures
        r.0 == native,
        !r.1.done,
        native ==> r.1.after is None,
        !native ==> r.1.after is Some && r.1.after->0@ == offset@,
{
    if native {
        (true, ListingCursor::unfiltered())
    } else {
        (false, ListingCursor::resuming_after(String::from_str(offset)))
    }
}

/// The bytes that a write sends: a payload of one part is sent as it is, an
/// empty payload as no bytes. A payload of several parts is refused rather
/// than cut short: callers join the parts first.
pub fn single_part(mut parts: Vec<Vec<u8>>) -> (r: Result<Vec<u8>, StoreError>)
    ensures
        parts@.len() == 0 ==> (r matches Ok(b) && b@.len() == 0),
        parts@.len() == 1 ==> (r matches Ok(b) && b@ == parts@[0]@),
        parts@.len() > 1 ==> (r matches Err(e) && refused(e)),
{
    if parts.len() == 0 {
        Ok(Vec::new())
    } else if parts.len() == 1 {
        let b = parts.pop().unwrap();
        Ok(b)
    } else {
        Err(not_supported("multipart payloads are not supported, join the parts first"))
    }
}

/// The store's answer to a write of `location`, once the backend has answered.
pub fn put_result(location: &str, res: Result<(), BackendFailure>) -> (r: Result<PutOutcome, StoreError>)
    ensures
        put_answers(r, location@, res),
{
    match res {
        Ok(()) => Ok(PutOutcome { e_tag: None, version: None }),
        Err(f) => Err(translate_failure(f, location)),
    }
}

/// The store's answer to a metadata request (`head`, and the first step of
/// `get`) on `location`, once the backend's stat has answered. An object
/// that the backend does not find is `NotFound` at `location`.
pub fn head_result(location: &str, stat: Result<BackendMeta, BackendFailure>) -> (r: Result<ObjectMeta, StoreError>)
    ensures
        head_answers(r, location@, stat),
{
    match stat {
        Ok(m) => Ok(to_object_metadata(location, &m)),
        Err(f) => Err(translate_failure(f, location)),
    }
}

/// `r` says whether a deletion of `location` goes ahead, given the stat's
/// answer `stat`.
pub open spec fn delete_check_answers(r: Result<(), StoreError>, location: Seq<char>, stat: Result<BackendMeta, BackendFailure>) -> bool {
    match stat {
        Ok(_) => r is Ok,
        Err(f) => r matches Err(se) && translates(f.kind, location, f.source, se),
    }
}

/// Whether a deletion of `location` goes ahead, once the backend's stat has
/// answered: only an object that exists is deleted, so deleting an absent
/// object fails with `NotFound` at `location`.
pub fn delete_check(location: &str, stat: Result<BackendMeta, BackendFailure>) -> (r: Result<(), StoreError>)
    ensures
        delete_check_answers(r, location@, stat),
{
    match stat {
        Ok(_) => Ok(()),
        Err(f) => Err(translate_failure(f, location)),
    }
}

/// The store's answer to a deletion of `location`, once the backend has
/// answered.
pub fn delete_result(location: &str, res: Result<(), BackendFailure>) -> (r: Result<(), StoreError>)
    ensures
        res is Ok <==> r is Ok,
        res matches Err(f) ==> (r matches Err(se) && translates(f.kind, location@, f.source, se)),
{
    match res {
        Ok(()) => Ok(()),
        Err(f) => Err(translate_failure(f, location)),
    }
}

/// The byte range that `get` reads: the whole object, `[0, size)`.
pub fn read_range(meta: &ObjectMeta) -> (r: (u64, u64))
    ensures
        r.0 == 0,
        r.1 == meta.size,
{
    (0, meta.size)
}

/// An object that the backend does not find is reported as not found at
/// its own locator, by `head` and by `get` alike (both start from the stat).
pub proof fn lemma_absent_object_not_found(
    location: Seq<char>,
    f: BackendFailure,
    r: Result<ObjectMeta, StoreError>,
)
    requires
        f.kind == BackendErrorKind::NotFound,
        head_answers(r, location, Err(f)),
    ensures
        r matches Err(se) && se.is_not_found_at(location),
{
}

/// Deleting an object that the backend does not find fails with not found
/// at its own locator, and the deletion is not sent.
pub proof fn lemma_absent_object_delete_not_found(
    location: Seq<char>,
    f: BackendFailure,
    r: Result<(), StoreError>,
)
    requires
        f.kind == BackendErrorKind::NotFound,
        delete_check_answers(r, location, Err(f)),
    ensures
        r matches Err(se) && se.is_not_found_at(location),
{
}

} // verus!
