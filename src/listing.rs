//! The listing stream adapter: turns the backend's listing, entry by entry,
//! into store metadata, with optional resumption after an offset.
use vstd::prelude::*;
use crate::error::{translate_error, translates_error, StoreError};
use crate::meta::{describes, reads, to_object_metadata, BackendMeta, ObjectMeta};

verus! {

#[verifier::external_type_specification]
#[verifier::external_body]
pub struct ExBackendEntry(opendal::Entry);

/// One entry of a backend listing, read into plain values.
#[derive(Clone, Debug)]
pub struct ListedEntry {
    pub path: String,
    pub meta: BackendMeta,
}

/// What the backend hands out for each position of a listing.
pub type ListedItem = Result<ListedEntry, opendal::Error>;

/// The path of the backend entry `e`, relative to the operator's root.
pub uninterp spec fn entry_path_of(e: opendal::Entry) -> Seq<char>;

/// The metadata that came with the backend entry `e`.
pub uninterp spec fn entry_metadata_of(e: opendal::Entry) -> opendal::Metadata;

/// Relies on `opendal::Entry::path`: the entry's path relative to the
/// operator's root.
#[verifier::external_body]
fn backend_entry_path(e: &opendal::Entry) -> (r: String)
    ensures
        r@ == entry_path_of(*e),
{
    e.path().to_string()
}

/// Relies on `opendal::Entry::metadata`: the metadata that came with the entry.
#[verifier::external_body]
fn backend_entry_metadata(e: &opendal::Entry) -> (r: &opendal::Metadata)
    ensures
        *r == entry_metadata_of(*e),
{
    e.metadata()
}

impl ListedEntry {
    /// Reads a backend entry into plain values.
    pub fn from_backend(e: &opendal::Entry) -> (r: ListedEntry)
        ensures
            r.path@ == entry_path_of(*e),
            reads(r.meta, entry_metadata_of(*e)),
    {
        ListedEntry { path: backend_entry_path(e), meta: BackendMeta::from_backend(backend_entry_metadata(e)) }
    }
}

/// Strict lexicographic order on locators: `a` comes before `b`. Comparing
/// code points orders UTF-8 text as comparing its bytes does.
pub open spec fn precedes(a: Seq<char>, b: Seq<char>) -> bool
    decreases a.len(),
{
    if b.len() == 0 {
        false
    } else if a.len() == 0 {
        true
    } else if a[0] != b[0] {
        (a[0] as u32) < (b[0] as u32)
    } else {
        precedes(a.drop_first(), b.drop_first())
    }
}

/// Whether the entry at `path` belongs in a listing that resumes after `after`.
pub open spec fn admits(after: Option<Seq<char>>, path: Seq<char>) -> bool {
    match after {
        None => true,
        Some(off) => precedes(off, path),
    }
}

/// Whether the locator `path` comes strictly after `offset`.
pub fn is_after(path: &str, offset: &str) -> (r: bool)
    ensures
        r == precedes(offset@, path@),
{
    let n = path.unicode_len();
    let m = offset.unicode_len();
    let mut i: usize = 0;
    assert(offset@.skip(0) =~= offset@);
    assert(path@.skip(0) =~= path@);
    while i < n && i < m
        invariant
            i <= n,
            i <= m,
            n == path@.len(),
            m == offset@.len(),
            precedes(offset@, path@) == precedes(offset@.skip(i as int), path@.skip(i as int)),
        decreases n - i,
    {
        let a = offset.get_char(i);
        let b = path.get_char(i);
        if a != b {
            return (a as u32) < (b as u32);
        }
        assert(offset@.skip(i as int).drop_first() =~= offset@.skip(i + 1));
        assert(path@.skip(i as int).drop_first() =~= path@.skip(i + 1));
        i = i + 1;
    }
    i < n
}

/// The directory form of a listing prefix: empty stays empty, anything else
/// ends with a separator.
pub open spec fn dir_prefix(prefix: Option<Seq<char>>) -> Seq<char> {
    match prefix {
        None => Seq::empty(),
        Some(p) => if p.len() == 0 || p.last() == '/' {
            p
        } else {
            p.push('/')
        },
    }
}

/// Brings a listing prefix to its directory form.
pub fn normalize_prefix(prefix: Option<&str>) -> (r: String)
    ensures
        r@ == dir_prefix(
            match prefix {
                Some(p) => Some(p@),
                None => None,
            },
        ),
{
    proof {
        reveal_strlit("/");
    }
    match prefix {
        None => String::new(),
        Some(p) => {
            let n = p.unicode_len();
            if n == 0 || p.get_char(n - 1) == '/' {
                String::from_str(p)
            } else {
                let mut s = String::from_str(p);
                s.append("/");
                assert(s@ =~= p@.push('/'));
                s
            }
        },
    }
}

/// The view of an optional owned string.
pub open spec fn opt_view(s: Option<String>) -> Option<Seq<char>> {
    match s {
        Some(v) => Some(v@),
        None => None,
    }
}

/// What one step of a listing hands to its consumer.
#[derive(Debug)]
pub enum ListStep {
    /// The next item of the store listing.
    Emit(Result<ObjectMeta, StoreError>),
    /// The backend entry lies at or before the offset: nothing to hand out.
    Skip,
    /// The listing is over; it stays over.
    Finished,
}

/// `r` hands out the translation of the backend failure `e`.
pub open spec fn step_fails_with(r: ListStep, e: opendal::Error) -> bool {
    match r {
        ListStep::Emit(Err(se)) => translates_error(e, Seq::empty(), se),
        _ => false,
    }
}

/// `r` is what a listing resuming after `after` hands out for the entry `en`.
pub open spec fn step_lists(r: ListStep, en: ListedEntry, after: Option<Seq<char>>) -> bool {
    if admits(after, en.path@) {
        match r {
            ListStep::Emit(Ok(m)) => describes(m, en.path@, en.meta),
            _ => false,
        }
    } else {
        r is Skip
    }
}

/// The state of one store listing, fed one backend item at a time.
///
/// With `after` set, entries at or before that locator are skipped (the
/// client-side filter); without it, every entry is handed out. After an error
/// or the end of the backend listing, nothing more is handed out.
pub struct ListingCursor {
    pub after: Option<String>,
    pub done: bool,
}

impl ListingCursor {
    /// A listing that hands out every entry.
    pub fn unfiltered() -> (r: ListingCursor)
        ensures
            r.after is None,
            !r.done,
    {
        ListingCursor { after: None, done: false }
    }

    /// A listing that hands out only the entries strictly after `offset`.
    pub fn resuming_after(offset: String) -> (r: ListingCursor)
        ensures
            r.after == Some(offset),
            !r.done,
    {
        ListingCursor { after: Some(offset), done: false }
    }

    /// Takes the backend's next item (`None` once the backend listing ends).
    pub fn step(&mut self, item: Option<ListedItem>) -> (r: ListStep)
        ensures
            old(self).done ==> r is Finished && *final(self) == *old(self),
            !old(self).done && item is None ==> r is Finished && final(self).done
                && final(self).after == old(self).after,
            !old(self).done && item is Some && item->0 is Err ==> final(self).done
                && final(self).after == old(self).after && step_fails_with(r, item->0->Err_0),
            !old(self).done && item is Some && item->0 is Ok ==> *final(self) == *old(self)
                && step_lists(r, item->0->Ok_0, opt_view(old(self).after)),
    {
        proof {
            reveal_strlit("");
        }
        if self.done {
            return ListStep::Finished;
        }
        match item {
            None => {
                self.done = true;
                ListStep::Finished
            },
            Some(Err(e)) => {
                self.done = true;
                let se = translate_error(e, "");
                assert(""@ =~= Seq::<char>::empty());
                ListStep::Emit(Err(se))
            },
            Some(Ok(en)) => {
                let keep = match &self.after {
                    None => true,
                    Some(off) => is_after(en.path.as_str(), off.as_str()),
                };
                if keep {
                    ListStep::Emit(Ok(to_object_metadata(en.path.as_str(), &en.meta)))
                } else {
                    ListStep::Skip
                }
            },
        }
    }
}

/// The position of the first failed item of a listing, or its length.
pub open spec fn first_error(items: Seq<ListedItem>) -> nat
    decreases items.len(),
{
    if items.len() == 0 {
        0
    } else if items[0] is Err {
        0
    } else {
        1 + first_error(items.drop_first())
    }
}

/// The entries of an error-free listing that a listing resuming after
/// `after` hands out, in backend order.
pub open spec fn kept(items: Seq<ListedItem>, after: Option<Seq<char>>) -> Seq<ListedEntry>
    decreases items.len(),
{
    if items.len() == 0 {
        Seq::empty()
    } else {
        let rest = kept(items.drop_last(), after);
        match items.last() {
            Ok(en) => if admits(after, en.path@) {
                rest.push(en)
            } else {
                rest
            },
            Err(_) => rest,
        }
    }
}

/// `r` is the whole store listing made from the backend items `items`: the
/// admitted entries before the first failure, in order, then that failure
/// translated, and nothing after it.
pub open spec fn listing_result(
    r: Seq<Result<ObjectMeta, StoreError>>,
    items: Seq<ListedItem>,
    after: Option<Seq<char>>,
) -> bool {
    let k = first_error(items) as int;
    let ks = kept(items.take(k), after);
    &&& r.len() == ks.len() + if k < items.len() { 1int } else { 0int }
    &&& forall|j: int|
        0 <= j < ks.len() ==> match #[trigger] r[j] {
            Ok(m) => describes(m, ks[j].path@, ks[j].meta),
            Err(_) => false,
        }
    &&& k < items.len() ==> match r[r.len() - 1] {
        Err(se) => match items[k] {
            Err(e) => translates_error(e, Seq::empty(), se),
            Ok(_) => false,
        },
        Ok(_) => false,
    }
}

proof fn lemma_first_error(items: Seq<ListedItem>)
    ensures
        first_error(items) <= items.len(),
        forall|j: int| 0 <= j < first_error(items) ==> #[trigger] items[j] is Ok,
        first_error(items) < items.len() ==> items[first_error(items) as int] is Err,
    decreases items.len(),
{
    if items.len() > 0 && items[0] is Ok {
        lemma_first_error(items.drop_first());
        assert forall|j: int| 0 <= j < first_error(items) implies #[trigger] items[j] is Ok by {
            if j > 0 {
                assert(items[j] == items.drop_first()[j - 1]);
            }
        }
    }
}

pub(crate) proof fn lemma_first_error_at(items: Seq<ListedItem>, k: int)
    requires
        0 <= k <= items.len(),
        forall|j: int| 0 <= j < k ==> #[trigger] items[j] is Ok,
        k < items.len() ==> items[k] is Err,
    ensures
        first_error(items) == k,
{
    lemma_first_error(items);
}

/// Runs a whole backend listing through a cursor, eagerly.
pub fn collect_listing(items: Vec<ListedItem>, after: Option<String>) -> (r: Vec<Result<ObjectMeta, StoreError>>)
    ensures
        listing_result(r@, items@, opt_view(after)),
{
    let ghost all = items@;
    let n = items.len();
    let ghost av = opt_view(after);
    let mut cursor = ListingCursor { after, done: false };
    let mut rest = items;
    let mut out: Vec<Result<ObjectMeta, StoreError>> = Vec::new();
    let mut i: usize = 0;
    while rest.len() > 0
        invariant
            i + rest@.len() == all.len(),
            all.len() == n,
            all == items@,
            av == opt_view(after),
            rest@ == all.skip(i as int),
            !cursor.done,
            opt_view(cursor.after) == av,
            forall|j: int| 0 <= j < i ==> #[trigger] all[j] is Ok,
            out@.len() == kept(all.take(i as int), av).len(),
            forall|j: int|
                0 <= j < out@.len() ==> match #[trigger] out@[j] {
                    Ok(m) => describes(
                        m,
                        kept(all.take(i as int), av)[j].path@,
                        kept(all.take(i as int), av)[j].meta,
                    ),
                    Err(_) => false,
                },
        decreases rest@.len(),
    {
        let item = rest.remove(0);
        assert(item == all[i as int]);
        let step = cursor.step(Some(item));
        match step {
            ListStep::Emit(Err(se)) => {
                let ghost before = out@;
                out.push(Err(se));
                proof {
                    lemma_first_error_at(all, i as int);
                    assert(all.take(i as int) =~= all.take(first_error(all) as int));
                    assert(forall|j: int| 0 <= j < before.len() ==> out@[j] == before[j]);
                }
                return out;
            },
            ListStep::Emit(Ok(m)) => {
                proof {
                    assert(all.take(i + 1).drop_last() =~= all.take(i as int));
                }
                out.push(Ok(m));
            },
            _ => {
                proof {
                    assert(all.take(i + 1).drop_last() =~= all.take(i as int));
                }
            },
        }
        assert(rest@ =~= all.skip(i + 1));
        i = i + 1;
    }
    proof {
        lemma_first_error_at(all, i as int);
        assert(all.take(i as int) =~= all);
    }
    out
}

/// The listing that a backend with native start-after support gives for the
/// same state: the entries at or before `off` are left out, everything else
/// comes in the same order.
pub open spec fn native_start_after(items: Seq<ListedItem>, off: Seq<char>) -> Seq<ListedItem>
    decreases items.len(),
{
    if items.len() == 0 {
        Seq::empty()
    } else {
        let rest = native_start_after(items.drop_last(), off);
        match items.last() {
            Ok(en) => if precedes(off, en.path@) {
                rest.push(items.last())
            } else {
                rest
            },
            Err(_) => rest.push(items.last()),
        }
    }
}

/// No item of `items` is a failure.
pub open spec fn error_free(items: Seq<ListedItem>) -> bool {
    forall|j: int| 0 <= j < items.len() ==> #[trigger] items[j] is Ok
}

proof fn lemma_native_matches_filter(items: Seq<ListedItem>, off: Seq<char>)
    requires
        error_free(items),
    ensures
        error_free(native_start_after(items, off)),
        kept(native_start_after(items, off), None) == kept(items, Some(off)),
    decreases items.len(),
{
    if items.len() > 0 {
        let init = items.drop_last();
        assert(error_free(init)) by {
            assert forall|j: int| 0 <= j < init.len() implies #[trigger] init[j] is Ok by {
                assert(init[j] == items[j]);
            }
        }
        lemma_native_matches_filter(init, off);
        let rest = native_start_after(init, off);
        assert(items[items.len() - 1] is Ok);
        let x = items.last();
        if precedes(off, x->Ok_0.path@) {
            assert(rest.push(x).drop_last() =~= rest);
            assert(error_free(rest.push(x))) by {
                assert forall|j: int| 0 <= j < rest.push(x).len() implies #[trigger] rest.push(
                    x,
                )[j] is Ok by {
                    if j < rest.len() {
                        assert(rest.push(x)[j] == rest[j]);
                    }
                }
            }
        }
    }
}

proof fn lemma_native_prefix(items: Seq<ListedItem>, off: Seq<char>, i: int)
    requires
        0 <= i <= items.len(),
    ensures
        native_start_after(items.take(i), off).len() <= native_start_after(items, off).len(),
        native_start_after(items.take(i), off) == native_start_after(items, off).take(
            native_start_after(items.take(i), off).len() as int,
        ),
    decreases items.len(),
{
    let n = native_start_after(items, off);
    if i == items.len() {
        assert(items.take(i) =~= items);
        assert(n.take(n.len() as int) =~= n);
    } else {
        let init = items.drop_last();
        assert(items.take(i) =~= init.take(i));
        lemma_native_prefix(init, off, i);
        let a = native_start_after(init.take(i), off);
        let b = native_start_after(init, off);
        assert(b.take(a.len() as int) == a);
        if n.len() > b.len() {
            assert(n =~= b.push(items.last()));
            assert(n.take(a.len() as int) =~= b.take(a.len() as int));
        }
    }
}

proof fn lemma_error_free_take(items: Seq<ListedItem>)
    ensures
        error_free(items.take(first_error(items) as int)),
{
    lemma_first_error(items);
    let t = items.take(first_error(items) as int);
    assert forall|j: int| 0 <= j < t.len() implies #[trigger] t[j] is Ok by {
        assert(t[j] == items[j]);
    }
}

/// The native start-after listing and the client-side filter give the same
/// store listing: as many items, a failure at the same positions, and the
/// same entries, with the same metadata, in the same order.
pub proof fn lemma_offset_strategies_agree(
    items: Seq<ListedItem>,
    off: Seq<char>,
    native: Seq<Result<ObjectMeta, StoreError>>,
    filtered: Seq<Result<ObjectMeta, StoreError>>,
)
    requires
        listing_result(native, native_start_after(items, off), None),
        listing_result(filtered, items, Some(off)),
    ensures
        native.len() == filtered.len(),
        forall|j: int|
            0 <= j < native.len() ==> match (#[trigger] native[j], filtered[j]) {
                (Ok(a), Ok(b)) => a.location@ == b.location@ && a.size == b.size
                    && a.last_modified == b.last_modified && a.e_tag.deep_view()
                    == b.e_tag.deep_view() && a.version.deep_view() == b.version.deep_view(),
                (Err(_), Err(_)) => true,
                _ => false,
            },
{
    let k = first_error(items) as int;
    lemma_first_error(items);
    let t = items.take(k);
    lemma_error_free_take(items);
    lemma_native_matches_filter(t, off);
    let nt = native_start_after(t, off);
    let n = native_start_after(items, off);
    lemma_native_prefix(items, off, k);
    let m = nt.len() as int;
    assert(n.take(m) == nt);
    if k < items.len() {
        lemma_native_prefix(items, off, k + 1);
        assert(items.take(k + 1).drop_last() =~= t);
        let nt1 = native_start_after(items.take(k + 1), off);
        assert(nt1 == nt.push(items[k]));
        assert(n.take(m + 1) == nt1);
        assert(n[m] == n.take(m + 1)[m]);
        assert forall|j: int| 0 <= j < m implies #[trigger] n[j] is Ok by {
            assert(n[j] == nt[j]);
        }
        lemma_first_error_at(n, m);
    } else {
        assert(t =~= items);
        assert(n.take(m) =~= n);
        lemma_first_error_at(n, m);
    }
    assert(n.take(first_error(n) as int) == nt);
}

} // verus!
