//! The store as mathematics: a sequence of record views, and what each
//! operation makes of it.
//!
//! Identifiers need not be distinct in a sequence. An update or a delete
//! therefore acts on the first record that carries the identifier, and the
//! functions here say so.

use vstd::prelude::*;
use crate::todo::TodoView;

verus! {

/// Some record of `s` carries the identifier `id`.
pub open spec fn holds_id(s: Seq<TodoView>, id: nat) -> bool {
    exists|i: int| 0 <= i < s.len() && (#[trigger] s[i]).id == id
}

/// `i` is the first position of `s` whose record carries `id`.
pub open spec fn is_first_with_id(s: Seq<TodoView>, id: nat, i: int) -> bool {
    &&& 0 <= i < s.len()
    &&& s[i].id == id
    &&& forall|j: int| 0 <= j < i ==> (#[trigger] s[j]).id != id
}

/// The first position of `s` whose record carries `id`. It means something
/// only where `holds_id(s, id)`.
pub open spec fn position_of(s: Seq<TodoView>, id: nat) -> int {
    choose|i: int| is_first_with_id(s, id, i)
}

/// The records of a list that has just been set up: two open tasks,
/// numbered 1 and 2.
pub open spec fn initial_todos() -> Seq<TodoView> {
    seq![
        TodoView { id: 1, title: "Learn Rust"@, completed: false },
        TodoView { id: 2, title: "Build a Todo App"@, completed: false },
    ]
}

/// The record that a create stores and returns: the client's title and flag
/// under the identifier that the store assigns, one more than the number of
/// records it holds. The client's identifier is ignored.
pub open spec fn assigned(s: Seq<TodoView>, candidate: TodoView) -> TodoView {
    TodoView { id: s.len() + 1, title: candidate.title, completed: candidate.completed }
}

/// The store after a create: the assigned record is appended.
pub open spec fn after_create(s: Seq<TodoView>, candidate: TodoView) -> Seq<TodoView> {
    s.push(assigned(s, candidate))
}

/// A record with the title and flag of `patch` under the identifier `id`.
/// The identifier of `patch` is ignored.
pub open spec fn patched(id: nat, patch: TodoView) -> TodoView {
    TodoView { id, title: patch.title, completed: patch.completed }
}

/// What an update answers: the patched record, or nothing where no record
/// carries `id`.
pub open spec fn update_reply(s: Seq<TodoView>, id: nat, patch: TodoView) -> Option<TodoView> {
    if holds_id(s, id) {
        Some(patched(id, patch))
    } else {
        None
    }
}

/// The store after an update: the first record that carries `id` is replaced
/// by the patched one, in place. Where no record carries `id`, nothing
/// changes.
pub open spec fn after_update(s: Seq<TodoView>, id: nat, patch: TodoView) -> Seq<TodoView> {
    if holds_id(s, id) {
        s.update(position_of(s, id), patched(id, patch))
    } else {
        s
    }
}

/// What a delete answers: success without a payload, or nothing where no
/// record carries `id`.
pub open spec fn delete_reply(s: Seq<TodoView>, id: nat) -> Option<()> {
    if holds_id(s, id) {
        Some(())
    } else {
        None
    }
}

/// The store after a delete: the first record that carries `id` is taken
/// out, and the records behind it move up by one. Where no record carries
/// `id`, nothing changes.
pub open spec fn after_delete(s: Seq<TodoView>, id: nat) -> Seq<TodoView> {
    if holds_id(s, id) {
        s.remove(position_of(s, id))
    } else {
        s
    }
}

/// No two records of `s` carry the same identifier.
pub open spec fn ids_distinct(s: Seq<TodoView>) -> bool {
    forall|i: int, j: int|
        0 <= i < j < s.len() ==> (#[trigger] s[i]).id != (#[trigger] s[j]).id
}

/// `i` is the only position of `s` whose record carries `id`.
pub open spec fn is_only_with_id(s: Seq<TodoView>, id: nat, i: int) -> bool {
    &&& 0 <= i < s.len()
    &&& s[i].id == id
    &&& forall|j: int| 0 <= j < s.len() && j != i ==> (#[trigger] s[j]).id != id
}

/// Exactly one record of `s` carries `id`.
pub open spec fn occurs_once(s: Seq<TodoView>, id: nat) -> bool {
    exists|i: int| is_only_with_id(s, id, i)
}

/// Every record of `s` carries a positive identifier.
pub open spec fn ids_positive(s: Seq<TodoView>) -> bool {
    forall|i: int| 0 <= i < s.len() ==> (#[trigger] s[i]).id >= 1
}

/// The record at each position carries that position plus one: the
/// identifiers are 1, 2, 3 and so on. A store is of this kind as long as
/// nothing was deleted from it.
pub open spec fn ids_consecutive(s: Seq<TodoView>) -> bool {
    forall|i: int| 0 <= i < s.len() ==> (#[trigger] s[i]).id == i + 1
}

/// Among the positions that carry an identifier there is a first one.
proof fn lemma_first_exists(s: Seq<TodoView>, id: nat, k: int)
    requires
        0 <= k < s.len(),
        s[k].id == id,
    ensures
        exists|i: int| is_first_with_id(s, id, i),
    decreases k,
{
    if forall|j: int| 0 <= j < k ==> (#[trigger] s[j]).id != id {
        assert(is_first_with_id(s, id, k));
    } else {
        let j = choose|j: int| 0 <= j < k && (#[trigger] s[j]).id == id;
        lemma_first_exists(s, id, j);
    }
}

/// Where a record carries `id`, `position_of` is the first position that
/// does.
pub proof fn lemma_position_is_first(s: Seq<TodoView>, id: nat)
    requires
        holds_id(s, id),
    ensures
        is_first_with_id(s, id, position_of(s, id)),
{
    let k = choose|i: int| 0 <= i < s.len() && (#[trigger] s[i]).id == id;
    lemma_first_exists(s, id, k);
}

/// There is only one first position: whatever is first is `position_of`.
pub proof fn lemma_first_is_position(s: Seq<TodoView>, id: nat, i: int)
    requires
        is_first_with_id(s, id, i),
    ensures
        holds_id(s, id),
        position_of(s, id) == i,
{
    lemma_position_is_first(s, id);
    let p = position_of(s, id);
    if p < i {
        assert(s[p].id != id);
    } else if i < p {
        assert(s[i].id != id);
    }
}

} // verus!
