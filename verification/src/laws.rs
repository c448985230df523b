//! What holds of the operations, whatever the store and the arguments.
//!
//! Each law is stated over the functions of `model`, in which the contracts
//! of the operations are written, so that it holds of every call.

use vstd::prelude::*;
use crate::model::{
    after_create, after_delete, after_update, assigned, delete_reply, holds_id, ids_consecutive,
    ids_distinct, ids_positive, initial_todos, is_only_with_id, lemma_position_is_first,
    occurs_once, position_of, update_reply,
};
use crate::todo::{Todo, TodoView};

verus! {

/// A listing shows the store as it is: as many records as the store holds,
/// and at each position the identifier, title and flag of the record there.
pub proof fn lemma_listing_shows_store(s: Seq<TodoView>, listing: Vec<Todo>)
    requires
        listing.deep_view() == s,
    ensures
        listing.len() == s.len(),
        forall|i: int| 0 <= i < s.len() ==> (#[trigger] listing[i])@ == s[i],
{
    assert forall|i: int| 0 <= i < s.len() implies (#[trigger] listing[i])@ == s[i] by {
        assert(listing.deep_view()[i] == listing[i]@);
    }
}

/// A listing taken after a create shows the records that the store held
/// before, unchanged and in their order, and behind them one more: the
/// client's title and flag under the former count plus one. The create
/// answered with that very record.
pub proof fn lemma_listing_after_create(s: Seq<TodoView>, candidate: TodoView, listing: Vec<Todo>)
    requires
        listing.deep_view() == after_create(s, candidate),
    ensures
        listing.len() == s.len() + 1,
        forall|i: int| 0 <= i < s.len() ==> (#[trigger] listing[i])@ == s[i],
        listing@.last()@ == (TodoView {
            id: s.len() + 1,
            title: candidate.title,
            completed: candidate.completed,
        }),
        listing@.last()@ == assigned(s, candidate),
{
    lemma_listing_shows_store(after_create(s, candidate), listing);
}

/// Two listings of one store show the same: as many records, and at each
/// position the same identifier, title and flag.
pub proof fn lemma_listings_agree(s: Seq<TodoView>, first: Vec<Todo>, second: Vec<Todo>)
    requires
        first.deep_view() == s,
        second.deep_view() == s,
    ensures
        first.len() == second.len(),
        forall|i: int| 0 <= i < first.len() ==> (#[trigger] first[i])@ == second[i]@,
{
    lemma_listing_shows_store(s, first);
    lemma_listing_shows_store(s, second);
}

/// An update of an identifier that the store holds changes one record, the
/// first that carries it, and of that record the title and the flag only.
/// Every record keeps its identifier and its position, and a listing taken
/// afterwards shows the new title and flag where the old ones stood.
pub proof fn lemma_update_in_place(s: Seq<TodoView>, id: nat, patch: TodoView, listing: Vec<Todo>)
    requires
        holds_id(s, id),
        listing.deep_view() == after_update(s, id, patch),
    ensures
        listing.len() == s.len(),
        forall|i: int| 0 <= i < s.len() ==> (#[trigger] listing[i])@.id == s[i].id,
        forall|i: int|
            0 <= i < s.len() && i != position_of(s, id) ==> (#[trigger] listing[i])@ == s[i],
        0 <= position_of(s, id) < s.len(),
        listing[position_of(s, id)]@ == (TodoView {
            id: s[position_of(s, id)].id,
            title: patch.title,
            completed: patch.completed,
        }),
        update_reply(s, id, patch) == Some(listing[position_of(s, id)]@),
{
    lemma_position_is_first(s, id);
    lemma_listing_shows_store(after_update(s, id, patch), listing);
}

/// An update or a delete of an identifier that the store does not hold
/// answers with nothing and leaves the store as it was.
pub proof fn lemma_absent_id_changes_nothing(s: Seq<TodoView>, id: nat, patch: TodoView)
    requires
        !holds_id(s, id),
    ensures
        update_reply(s, id, patch) is None,
        after_update(s, id, patch) == s,
        delete_reply(s, id) is None,
        after_delete(s, id) == s,
{
}

/// A delete of an identifier that the store holds takes out one record, the
/// first that carries it: the count goes down by one, the records before it
/// stay where they were, and those behind it move up by one.
pub proof fn lemma_delete_takes_one(s: Seq<TodoView>, id: nat, listing: Vec<Todo>)
    requires
        holds_id(s, id),
        listing.deep_view() == after_delete(s, id),
    ensures
        delete_reply(s, id) == Some(()),
        listing.len() == s.len() - 1,
        0 <= position_of(s, id) < s.len(),
        s[position_of(s, id)].id == id,
        forall|i: int| 0 <= i < position_of(s, id) ==> (#[trigger] listing[i])@ == s[i],
        forall|i: int|
            position_of(s, id) <= i < listing.len() ==> (#[trigger] listing[i])@ == s[i + 1],
{
    lemma_position_is_first(s, id);
    lemma_listing_shows_store(after_delete(s, id), listing);
}

/// After a delete of an identifier that exactly one record carried, no
/// record carries it, and a second delete of it answers with nothing.
pub proof fn lemma_delete_forgets_single_id(s: Seq<TodoView>, id: nat)
    requires
        occurs_once(s, id),
    ensures
        !holds_id(after_delete(s, id), id),
        delete_reply(after_delete(s, id), id) is None,
{
    lemma_delete_leaves_further_copies(s, id);
}

/// A delete takes out the first record that carries the identifier and no
/// other: the store still holds the identifier afterwards exactly where more
/// than one record carried it.
pub proof fn lemma_delete_leaves_further_copies(s: Seq<TodoView>, id: nat)
    requires
        holds_id(s, id),
    ensures
        holds_id(after_delete(s, id), id) <==> !occurs_once(s, id),
{
    lemma_position_is_first(s, id);
    let p = position_of(s, id);
    let after = after_delete(s, id);
    if holds_id(after, id) {
        let k = choose|k: int| 0 <= k < after.len() && (#[trigger] after[k]).id == id;
        let k_before = if k < p { k } else { k + 1 };
        assert(s[k_before] == after[k]);
        assert forall|i: int| !is_only_with_id(s, id, i) by {
            assert(s[p].id == id && s[k_before].id == id);
        }
    } else {
        assert forall|j: int| 0 <= j < s.len() && j != p implies (#[trigger] s[j]).id != id by {
            let j_after = if j < p { j } else { j - 1 };
            assert(after[j_after] == s[j]);
        }
        assert(is_only_with_id(s, id, p));
    }
}

/// Where no two records carry the same identifier, each identifier that the
/// store holds occurs once.
pub proof fn lemma_distinct_ids_occur_once(s: Seq<TodoView>, id: nat)
    requires
        ids_distinct(s),
        holds_id(s, id),
    ensures
        occurs_once(s, id),
{
    lemma_position_is_first(s, id);
    assert(is_only_with_id(s, id, position_of(s, id)));
}

/// The stored identifiers are positive: those of an empty and of a newly set
/// up store are, and no operation changes that.
pub proof fn lemma_ids_stay_positive(s: Seq<TodoView>, id: nat, todo: TodoView)
    ensures
        ids_positive(Seq::<TodoView>::empty()),
        ids_positive(initial_todos()),
        ids_positive(s) ==> ids_positive(after_create(s, todo)),
        ids_positive(s) ==> ids_positive(after_update(s, id, todo)),
        ids_positive(s) ==> ids_positive(after_delete(s, id)),
{
    if ids_positive(s) {
        if holds_id(s, id) {
            lemma_position_is_first(s, id);
            let p = position_of(s, id);
            let deleted = after_delete(s, id);
            assert forall|i: int| 0 <= i < deleted.len() implies (#[trigger] deleted[i]).id >= 1 by {
                let i_before = if i < p { i } else { i + 1 };
                assert(deleted[i] == s[i_before]);
            }
            let updated = after_update(s, id, todo);
            assert forall|i: int| 0 <= i < updated.len() implies (#[trigger] updated[i]).id >= 1 by {
                assert(updated[i].id == s[i].id);
            }
        }
        let created = after_create(s, todo);
        assert forall|i: int| 0 <= i < created.len() implies (#[trigger] created[i]).id >= 1 by {
            assert(i < s.len() ==> created[i] == s[i]);
        }
    }
}

/// Neither an update nor a delete makes two records carry the same
/// identifier.
pub proof fn lemma_update_and_delete_keep_ids_distinct(s: Seq<TodoView>, id: nat, patch: TodoView)
    requires
        ids_distinct(s),
    ensures
        ids_distinct(after_update(s, id, patch)),
        ids_distinct(after_delete(s, id)),
{
    if holds_id(s, id) {
        lemma_position_is_first(s, id);
        let p = position_of(s, id);
        let updated = after_update(s, id, patch);
        assert forall|i: int, j: int| 0 <= i < j < updated.len() implies
            (#[trigger] updated[i]).id != (#[trigger] updated[j]).id by {
            assert(updated[i].id == s[i].id);
            assert(updated[j].id == s[j].id);
        }
        let deleted = after_delete(s, id);
        assert forall|i: int, j: int| 0 <= i < j < deleted.len() implies
            (#[trigger] deleted[i]).id != (#[trigger] deleted[j]).id by {
            let i_before = if i < p { i } else { i + 1 };
            let j_before = if j < p { j } else { j + 1 };
            assert(deleted[i] == s[i_before]);
            assert(deleted[j] == s[j_before]);
        }
    }
}

/// A create gives the new record the count plus one for its identifier,
/// whatever the store holds. The identifiers are distinct afterwards exactly
/// where they were distinct before and no record carried the count plus one:
/// after a delete, a create can repeat an identifier that is still in use.
pub proof fn lemma_create_keeps_ids_distinct_iff(s: Seq<TodoView>, candidate: TodoView)
    ensures
        ids_distinct(after_create(s, candidate)) <==> {
            &&& ids_distinct(s)
            &&& !holds_id(s, s.len() + 1)
        },
{
    let created = after_create(s, candidate);
    let n = s.len() as int;
    assert(created[n].id == s.len() + 1);
    if ids_distinct(created) {
        assert forall|i: int, j: int| 0 <= i < j < s.len() implies
            (#[trigger] s[i]).id != (#[trigger] s[j]).id by {
            assert(created[i] == s[i]);
            assert(created[j] == s[j]);
        }
        if holds_id(s, s.len() + 1) {
            let k = choose|k: int| 0 <= k < s.len() && (#[trigger] s[k]).id == s.len() + 1;
            assert(created[k] == s[k]);
        }
    }
    if ids_distinct(s) && !holds_id(s, s.len() + 1) {
        assert forall|i: int, j: int| 0 <= i < j < created.len() implies
            (#[trigger] created[i]).id != (#[trigger] created[j]).id by {
            assert(created[i] == s[i]);
            assert(j < n ==> created[j] == s[j]);
        }
    }
}

/// As long as nothing is deleted the identifiers are 1, 2, 3 and so on in
/// the order of the records: a newly set up store has them so, and creates
/// and updates keep them so. In such a store no two records carry the same
/// identifier, and none carries the one that the next create assigns.
pub proof fn lemma_consecutive_ids(s: Seq<TodoView>, id: nat, todo: TodoView)
    ensures
        ids_consecutive(Seq::<TodoView>::empty()),
        ids_consecutive(initial_todos()),
        ids_consecutive(s) ==> ids_consecutive(after_create(s, todo)),
        ids_consecutive(s) ==> ids_consecutive(after_update(s, id, todo)),
        ids_consecutive(s) ==> ids_distinct(s) && ids_positive(s) && !holds_id(s, s.len() + 1),
{
    if ids_consecutive(s) {
        let created = after_create(s, todo);
        assert forall|i: int| 0 <= i < created.len() implies
            (#[trigger] created[i]).id == i + 1 by {
            assert(i < s.len() ==> created[i] == s[i]);
        }
        if holds_id(s, id) {
            lemma_position_is_first(s, id);
            let updated = after_update(s, id, todo);
            assert forall|i: int| 0 <= i < updated.len() implies
                (#[trigger] updated[i]).id == i + 1 by {
                assert(updated[i].id == s[i].id);
            }
        }
    }
}

} // verus!
