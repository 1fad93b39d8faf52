//! Store-wide properties, stated and proved over the spec functions that the
//! operation contracts use: `saved_index`, `deleted_index`, and the element
//! multisets that listing preserves.

use crate::conversations::{deleted_index, keeps, saved_index};
use vstd::prelude::*;

verus! {

/// After a save, the filename is indexed exactly once — provided the prior
/// index held it at most once, as every index these operations produce does
/// (see `lemma_operations_keep_counts`).
pub proof fn lemma_save_indexes_once(items: Seq<Seq<char>>, filename: Seq<char>)
    requires
        items.to_multiset().count(filename) <= 1,
    ensures
        saved_index(items, filename).to_multiset().count(filename) == 1,
{
    broadcast use vstd::seq_lib::group_to_multiset_ensures;
    broadcast use vstd::multiset::group_multiset_axioms;

    if items.contains(filename) {
        assert(items.to_multiset().count(filename) > 0);
    } else {
        assert(items.to_multiset().count(filename) == 0);
        assert(items.push(filename).to_multiset() =~= items.to_multiset().insert(filename));
    }
}

/// Saving the same filename again leaves the index as it is: save is
/// idempotent on the index.
pub proof fn lemma_save_idempotent(items: Seq<Seq<char>>, filename: Seq<char>)
    ensures
        saved_index(saved_index(items, filename), filename) == saved_index(items, filename),
{
    if !items.contains(filename) {
        assert(items.push(filename)[items.len() as int] == filename);
        assert(items.push(filename).contains(filename));
    }
}

/// What a delete does to every count: entries equal to the deleted filename
/// are all gone, duplicates included, and every other filename keeps its
/// count.
pub proof fn lemma_delete_counts(items: Seq<Seq<char>>, filename: Seq<char>, other: Seq<char>)
    ensures
        deleted_index(items, filename).to_multiset().count(other) == if other == filename {
            0nat
        } else {
            items.to_multiset().count(other)
        },
    decreases items.len(),
{
    broadcast use vstd::seq_lib::group_to_multiset_ensures;
    broadcast use vstd::multiset::group_multiset_axioms;

    if items.len() == 0 {
        reveal(Seq::filter);
        assert(deleted_index(items, filename) =~= Seq::<Seq<char>>::empty());
    } else {
        let prefix = items.drop_last();
        let last = items.last();
        lemma_delete_counts(prefix, filename, other);
        prefix.lemma_filter_push(last, keeps(filename));
        assert(items =~= prefix.push(last));
        assert(deleted_index(items, filename) == prefix.push(last).filter(keeps(filename)));
        assert(prefix.push(last).to_multiset() =~= prefix.to_multiset().insert(last));
        if keeps(filename)(last) {
            assert(deleted_index(items, filename) == deleted_index(prefix, filename).push(last));
            assert(deleted_index(prefix, filename).push(last).to_multiset() =~= deleted_index(
                prefix,
                filename,
            ).to_multiset().insert(last));
        } else {
            assert(deleted_index(items, filename) == deleted_index(prefix, filename));
        }
    }
}

/// After a delete, the filename is not indexed at all, even when the old
/// index was corrupted with duplicates of it.
pub proof fn lemma_delete_unindexes(items: Seq<Seq<char>>, filename: Seq<char>)
    ensures
        deleted_index(items, filename).to_multiset().count(filename) == 0,
        !deleted_index(items, filename).contains(filename),
{
    broadcast use vstd::seq_lib::group_to_multiset_ensures;

    lemma_delete_counts(items, filename, filename);
}

/// Deleting a filename that was never indexed leaves the index unchanged.
pub proof fn lemma_delete_absent_is_noop(items: Seq<Seq<char>>, filename: Seq<char>)
    requires
        !items.contains(filename),
    ensures
        deleted_index(items, filename) == items,
    decreases items.len(),
{
    reveal(Seq::filter);
    if items.len() == 0 {
        assert(deleted_index(items, filename) =~= items);
    } else {
        let prefix = items.drop_last();
        assert(forall|i: int| 0 <= i < prefix.len() ==> prefix[i] == items[i]);
        assert(!prefix.contains(filename));
        lemma_delete_absent_is_noop(prefix, filename);
        prefix.lemma_filter_push(items.last(), keeps(filename));
        assert(items =~= prefix.push(items.last()));
        assert(items[items.len() - 1] != filename);
        assert(deleted_index(items, filename) =~= items);
    }
}

/// Starting from the empty index, save and delete keep every filename
/// indexed at most once: the precondition of `lemma_save_indexes_once` holds
/// of every index the store itself has produced.
pub proof fn lemma_operations_keep_counts(
    items: Seq<Seq<char>>,
    filename: Seq<char>,
    other: Seq<char>,
)
    requires
        items.to_multiset().count(other) <= 1,
    ensures
        Seq::<Seq<char>>::empty().to_multiset().count(other) == 0,
        saved_index(items, filename).to_multiset().count(other) <= 1,
        deleted_index(items, filename).to_multiset().count(other) <= 1,
{
    broadcast use vstd::seq_lib::group_to_multiset_ensures;
    broadcast use vstd::multiset::group_multiset_axioms;

    lemma_delete_counts(items, filename, other);
    if !items.contains(filename) {
        assert(items.push(filename).to_multiset() =~= items.to_multiset().insert(filename));
        if other == filename {
            assert(items.to_multiset().count(filename) == 0);
        }
    }
}

/// A listing of an emptied index is the empty sequence: listing preserves
/// the elements, and a sequence with no elements is empty.
pub proof fn lemma_empty_listing(listing: Seq<Seq<char>>)
    requires
        listing.to_multiset() == Seq::<Seq<char>>::empty().to_multiset(),
    ensures
        listing == Seq::<Seq<char>>::empty(),
{
    broadcast use vstd::seq_lib::group_to_multiset_ensures;

    assert(Seq::<Seq<char>>::empty().to_multiset().len() == 0);
    assert(listing.len() == 0);
    assert(listing =~= Seq::<Seq<char>>::empty());
}

/// `save` then `list`: any listing of the saved index shows the filename
/// exactly once, however often it was saved before.
pub proof fn lemma_save_then_list(
    items: Seq<Seq<char>>,
    filename: Seq<char>,
    listing: Seq<Seq<char>>,
)
    requires
        items.to_multiset().count(filename) <= 1,
        listing.to_multiset() == saved_index(items, filename).to_multiset(),
    ensures
        listing.to_multiset().count(filename) == 1,
{
    lemma_save_indexes_once(items, filename);
}

/// `delete` then `list`: no listing of the deleted index contains the
/// filename.
pub proof fn lemma_delete_then_list(
    items: Seq<Seq<char>>,
    filename: Seq<char>,
    listing: Seq<Seq<char>>,
)
    requires
        listing.to_multiset() == deleted_index(items, filename).to_multiset(),
    ensures
        !listing.contains(filename),
{
    broadcast use vstd::seq_lib::group_to_multiset_ensures;

    lemma_delete_unindexes(items, filename);
    assert(listing.to_multiset().count(filename) == 0);
}

} // verus!
