//! One-level listing: the entries under a prefix, parted into objects and
//! directory-like common prefixes.
use vstd::prelude::*;
use crate::error::{translate_error, translates_error, StoreError};
use crate::listing::{error_free, first_error, ListedEntry, ListedItem};
use crate::meta::{describes, to_object_metadata, ObjectMeta};

verus! {

/// The result of a one-level listing.
#[derive(Debug)]
pub struct ListResult {
    pub common_prefixes: Vec<String>,
    pub objects: Vec<ObjectMeta>,
}

/// The directory-like entries of a listing, in backend order.
pub open spec fn dir_entries(items: Seq<ListedItem>) -> Seq<ListedEntry>
    decreases items.len(),
{
    if items.len() == 0 {
        Seq::empty()
    } else {
        let rest = dir_entries(items.drop_last());
        match items.last() {
            Ok(en) => if en.meta.is_dir {
                rest.push(en)
            } else {
                rest
            },
            Err(_) => rest,
        }
    }
}

/// The leaf entries of a listing, in backend order.
pub open spec fn leaf_entries(items: Seq<ListedItem>) -> Seq<ListedEntry>
    decreases items.len(),
{
    if items.len() == 0 {
        Seq::empty()
    } else {
        let rest = leaf_entries(items.drop_last());
        match items.last() {
            Ok(en) => if en.meta.is_dir {
                rest
            } else {
                rest.push(en)
            },
            Err(_) => rest,
        }
    }
}

/// `r` is the one-level listing made of the error-free backend listing `items`.
pub open spec fn partitions(r: ListResult, items: Seq<ListedItem>) -> bool {
    let dirs = dir_entries(items);
    let leaves = leaf_entries(items);
    &&& r.common_prefixes@.len() == dirs.len()
    &&& forall|j: int|
        0 <= j < dirs.len() ==> (#[trigger] r.common_prefixes@[j])@ == dirs[j].path@
    &&& r.objects@.len() == leaves.len()
    &&& forall|j: int|
        0 <= j < leaves.len() ==> describes(#[trigger] r.objects@[j], leaves[j].path@, leaves[j].meta)
}

/// Parts a whole backend listing into common prefixes (directory-like
/// entries) and objects (all others), eagerly. The first failure of the
/// backend listing fails the whole listing.
pub fn partition_listing(items: Vec<ListedItem>) -> (r: Result<ListResult, StoreError>)
    ensures
        first_error(items@) < items@.len() ==> match r {
            Err(se) => match items@[first_error(items@) as int] {
                Err(e) => translates_error(e, Seq::empty(), se),
                Ok(_) => false,
            },
            Ok(_) => false,
        },
        first_error(items@) == items@.len() ==> match r {
            Ok(res) => partitions(res, items@),
            Err(_) => false,
        },
{
    let ghost all = items@;
    let n = items.len();
    let mut rest = items;
    let mut common_prefixes: Vec<String> = Vec::new();
    let mut objects: Vec<ObjectMeta> = Vec::new();
    let mut i: usize = 0;
    while rest.len() > 0
        invariant
            i + rest@.len() == all.len(),
            all.len() == n,
            all == items@,
            rest@ == all.skip(i as int),
            forall|j: int| 0 <= j < i ==> #[trigger] all[j] is Ok,
            partitions(ListResult { common_prefixes, objects }, all.take(i as int)),
        decreases rest@.len(),
    {
        let item = rest.remove(0);
        assert(item == all[i as int]);
        assert(all.take(i + 1).drop_last() =~= all.take(i as int));
        match item {
            Err(e) => {
                let se = translate_error(e, "");
                proof {
                    reveal_strlit("");
                    assert(""@ =~= Seq::<char>::empty());
                    crate::listing::lemma_first_error_at(all, i as int);
                }
                return Err(se);
            },
            Ok(en) => {
                if en.meta.is_dir {
                    common_prefixes.push(en.path);
                } else {
                    objects.push(to_object_metadata(en.path.as_str(), &en.meta));
                }
            },
        }
        assert(rest@ =~= all.skip(i + 1));
        i = i + 1;
    }
    proof {
        crate::listing::lemma_first_error_at(all, i as int);
        assert(all.take(i as int) =~= all);
    }
    Ok(ListResult { common_prefixes, objects })
}

/// Every entry of an error-free listing lands in exactly one of the two
/// parts: the directory-like ones among the common prefixes, all others among
/// the objects.
pub proof fn lemma_partition_is_exact(items: Seq<ListedItem>)
    requires
        error_free(items),
    ensures
        dir_entries(items).len() + leaf_entries(items).len() == items.len(),
        forall|e: ListedEntry| #[trigger] dir_entries(items).contains(e) ==> e.meta.is_dir,
        forall|e: ListedEntry| #[trigger] leaf_entries(items).contains(e) ==> !e.meta.is_dir,
        forall|j: int|
            0 <= j < items.len() ==> match #[trigger] items[j] {
                Ok(en) => if en.meta.is_dir {
                    dir_entries(items).contains(en)
                } else {
                    leaf_entries(items).contains(en)
                },
                Err(_) => false,
            },
    decreases items.len(),
{
    if items.len() > 0 {
        let init = items.drop_last();
        assert(error_free(init)) by {
            assert forall|j: int| 0 <= j < init.len() implies #[trigger] init[j] is Ok by {
                assert(init[j] == items[j]);
            }
        }
        lemma_partition_is_exact(init);
        let d = dir_entries(init);
        let l = leaf_entries(init);
        assert(items[items.len() - 1] is Ok);
        let x = items.last()->Ok_0;
        if x.meta.is_dir {
            assert forall|e: ListedEntry| #[trigger] d.push(x).contains(e) implies e.meta.is_dir by {
                if d.contains(e) {
                } else {
                    let w = choose|w: int| 0 <= w < d.push(x).len() && d.push(x)[w] == e;
                    assert(w == d.len());
                }
            }
            assert(d.push(x)[d.len() as int] == x);
        } else {
            assert forall|e: ListedEntry| #[trigger] l.push(x).contains(e) implies !e.meta.is_dir by {
                if l.contains(e) {
                } else {
                    let w = choose|w: int| 0 <= w < l.push(x).len() && l.push(x)[w] == e;
                    assert(w == l.len());
                }
            }
            assert(l.push(x)[l.len() as int] == x);
        }
        assert forall|j: int| 0 <= j < items.len() implies match #[trigger] items[j] {
            Ok(en) => if en.meta.is_dir {
                dir_entries(items).contains(en)
            } else {
                leaf_entries(items).contains(en)
            },
            Err(_) => false,
        } by {
            if j < init.len() {
                assert(items[j] == init[j]);
                let en = init[j]->Ok_0;
                if en.meta.is_dir {
                    let w = choose|w: int| 0 <= w < d.len() && d[w] == en;
                    if x.meta.is_dir {
                        assert(d.push(x)[w] == en);
                    }
                } else {
                    let w = choose|w: int| 0 <= w < l.len() && l[w] == en;
                    if !x.meta.is_dir {
                        assert(l.push(x)[w] == en);
                    }
                }
            }
        }
    }
}

/// No two entries of the listing share a path.
pub open spec fn paths_unique(items: Seq<ListedItem>) -> bool {
    forall|i: int, j: int|
        0 <= i < items.len() && 0 <= j < items.len() && i != j && items[i] is Ok
            && items[j] is Ok ==> (#[trigger] items[i])->Ok_0.path@ != (
        #[trigger] items[j])->Ok_0.path@
}

proof fn lemma_parts_come_from_items(items: Seq<ListedItem>)
    ensures
        forall|e: ListedEntry| #[trigger]
            dir_entries(items).contains(e) ==> exists|k: int|
                0 <= k < items.len() && #[trigger] items[k] == Ok::<ListedEntry, opendal::Error>(e),
        forall|e: ListedEntry| #[trigger]
            leaf_entries(items).contains(e) ==> exists|k: int|
                0 <= k < items.len() && #[trigger] items[k] == Ok::<ListedEntry, opendal::Error>(e),
    decreases items.len(),
{
    if items.len() > 0 {
        let init = items.drop_last();
        lemma_parts_come_from_items(init);
        let last = items.len() - 1;
        assert forall|e: ListedEntry| #[trigger]
            dir_entries(items).contains(e) implies exists|k: int|
                0 <= k < items.len() && #[trigger] items[k] == Ok::<ListedEntry, opendal::Error>(e) by {
            if dir_entries(init).contains(e) {
                let k = choose|k: int|
                    0 <= k < init.len() && #[trigger] init[k] == Ok::<ListedEntry, opendal::Error>(e);
                assert(items[k] == init[k]);
            } else {
                let d = dir_entries(init);
                let w = choose|w: int| 0 <= w < dir_entries(items).len() && dir_entries(items)[w] == e;
                assert(dir_entries(items) == d || dir_entries(items) == d.push(items[last]->Ok_0));
                assert(items[last] == Ok::<ListedEntry, opendal::Error>(e));
            }
        }
        assert forall|e: ListedEntry| #[trigger]
            leaf_entries(items).contains(e) implies exists|k: int|
                0 <= k < items.len() && #[trigger] items[k] == Ok::<ListedEntry, opendal::Error>(e) by {
            if leaf_entries(init).contains(e) {
                let k = choose|k: int|
                    0 <= k < init.len() && #[trigger] init[k] == Ok::<ListedEntry, opendal::Error>(e);
                assert(items[k] == init[k]);
            } else {
                let l = leaf_entries(init);
                let w = choose|w: int| 0 <= w < leaf_entries(items).len() && leaf_entries(items)[w] == e;
                assert(leaf_entries(items) == l || leaf_entries(items) == l.push(items[last]->Ok_0));
                assert(items[last] == Ok::<ListedEntry, opendal::Error>(e));
            }
        }
    }
}

/// In the one-level listing of an error-free backend listing whose paths are
/// unique, each entry lands in exactly one part: a directory-like entry
/// among the common prefixes and nowhere among the objects, any other entry
/// among the objects and nowhere among the common prefixes; the two parts
/// together are as long as the listing.
pub proof fn lemma_listing_places_each_entry(items: Seq<ListedItem>, r: ListResult)
    requires
        error_free(items),
        paths_unique(items),
        partitions(r, items),
    ensures
        r.common_prefixes@.len() + r.objects@.len() == items.len(),
        forall|j: int|
            0 <= j < items.len() && (#[trigger] items[j])->Ok_0.meta.is_dir ==> (exists|i: int|
                0 <= i < r.common_prefixes@.len() && (#[trigger] r.common_prefixes@[i])@
                    == items[j]->Ok_0.path@) && (forall|o: int|
                0 <= o < r.objects@.len() ==> (#[trigger] r.objects@[o]).location@
                    != items[j]->Ok_0.path@),
        forall|j: int|
            0 <= j < items.len() && !(#[trigger] items[j])->Ok_0.meta.is_dir ==> (exists|o: int|
                0 <= o < r.objects@.len() && (#[trigger] r.objects@[o]).location@
                    == items[j]->Ok_0.path@) && (forall|i: int|
                0 <= i < r.common_prefixes@.len() ==> (#[trigger] r.common_prefixes@[i])@
                    != items[j]->Ok_0.path@),
{
    lemma_partition_is_exact(items);
    lemma_parts_come_from_items(items);
    let dirs = dir_entries(items);
    let leaves = leaf_entries(items);
    assert forall|j: int|
        0 <= j < items.len() && (#[trigger] items[j])->Ok_0.meta.is_dir implies (exists|i: int|
            0 <= i < r.common_prefixes@.len() && (#[trigger] r.common_prefixes@[i])@
                == items[j]->Ok_0.path@) && (forall|o: int|
            0 <= o < r.objects@.len() ==> (#[trigger] r.objects@[o]).location@
                != items[j]->Ok_0.path@) by {
        let en = items[j]->Ok_0;
        assert(items[j] is Ok);
        assert(dirs.contains(en));
        let i = choose|i: int| 0 <= i < dirs.len() && dirs[i] == en;
        assert(r.common_prefixes@[i]@ == en.path@);
        assert forall|o: int| 0 <= o < r.objects@.len() implies (#[trigger] r.objects@[o]).location@
            != en.path@ by {
            let l = leaves[o];
            assert(leaves.contains(l));
            let k = choose|k: int|
                0 <= k < items.len() && #[trigger] items[k] == Ok::<ListedEntry, opendal::Error>(l);
            assert(!l.meta.is_dir);
            assert(k != j);
            assert(items[k]->Ok_0.path@ != items[j]->Ok_0.path@);
        }
    }
    assert forall|j: int|
        0 <= j < items.len() && !(#[trigger] items[j])->Ok_0.meta.is_dir implies (exists|o: int|
            0 <= o < r.objects@.len() && (#[trigger] r.objects@[o]).location@
                == items[j]->Ok_0.path@) && (forall|i: int|
            0 <= i < r.common_prefixes@.len() ==> (#[trigger] r.common_prefixes@[i])@
                != items[j]->Ok_0.path@) by {
        let en = items[j]->Ok_0;
        assert(items[j] is Ok);
        assert(leaves.contains(en));
        let o = choose|o: int| 0 <= o < leaves.len() && leaves[o] == en;
        assert(r.objects@[o].location@ == en.path@);
        assert forall|i: int| 0 <= i < r.common_prefixes@.len() implies (
        #[trigger] r.common_prefixes@[i])@ != en.path@ by {
            let d = dirs[i];
            assert(dirs.contains(d));
            let k = choose|k: int|
                0 <= k < items.len() && #[trigger] items[k] == Ok::<ListedEntry, opendal::Error>(d);
            assert(d.meta.is_dir);
            assert(k != j);
            assert(items[k]->Ok_0.path@ != items[j]->Ok_0.path@);
        }
    }
}

} // verus!
