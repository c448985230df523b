//! The store and its operations.
//!
//! A `TodoList` owns the records. Each operation takes the list by reference
//! and answers with copies, so that nothing outside keeps a hold on a stored
//! record. Whoever shares one list among several callers hands it to one
//! operation at a time.

use vstd::prelude::*;
use crate::model::{
    after_create, after_delete, after_update, assigned, delete_reply, holds_id, initial_todos,
    is_first_with_id, lemma_first_is_position, patched, update_reply,
};
use crate::todo::{Todo, TodoView};

verus! {

/// The ordered collection of task records, in the order of their creation
/// as far as deletions have left it.
pub struct TodoList {
    items: Vec<Todo>,
}

impl View for TodoList {
    type V = Seq<TodoView>;

    closed spec fn view(&self) -> Seq<TodoView> {
        self.items.deep_view()
    }
}

impl TodoList {
    /// A list without records.
    pub fn new() -> (todos: TodoList)
        ensures
            todos@ == Seq::<TodoView>::empty(),
    {
        let todos = TodoList { items: Vec::new() };
        assert(todos@ =~= Seq::<TodoView>::empty());
        todos
    }

    /// The number of records in the list.
    pub fn len(&self) -> (count: usize)
        ensures
            count == self@.len(),
    {
        self.items.len()
    }
}

/// The list that a service starts with: two open tasks, numbered 1 and 2.
pub fn rocket() -> (todos: TodoList)
    ensures
        todos@ == initial_todos(),
{
    let mut items: Vec<Todo> = Vec::new();
    items.push(Todo { id: 1, title: "Learn Rust".to_owned(), completed: false });
    items.push(Todo { id: 2, title: "Build a Todo App".to_owned(), completed: false });
    assert(items.deep_view() =~= initial_todos());
    TodoList { items }
}

/// The first position of `items` whose record carries `id`, if there is one.
fn first_position(items: &Vec<Todo>, id: usize) -> (found: Option<usize>)
    ensures
        found matches Some(i) ==> is_first_with_id(items.deep_view(), id as nat, i as int),
        found is None ==> !holds_id(items.deep_view(), id as nat),
{
    let mut i: usize = 0;
    while i < items.len()
        invariant
            i <= items.len(),
            forall|j: int| 0 <= j < i ==> (#[trigger] items.deep_view()[j]).id != id,
        decreases items.len() - i,
    {
        if items[i].id == id {
            return Some(i);
        }
        i += 1;
    }
    None
}

/// Overwrites the title and the flag of the first record that carries `id`
/// with those of `todo`, and answers with a copy of the record as it now
/// stands. The record keeps its identifier and its place; the identifier of
/// `todo` is not read.
///
/// Where no record carries `id` the answer is `None`, and the list is left
/// as it was.
pub fn update_todo(todos: &mut TodoList, id: usize, todo: Todo) -> (updated: Option<Todo>)
    ensures
        final(todos)@ == after_update(old(todos)@, id as nat, todo@),
        updated.deep_view() == update_reply(old(todos)@, id as nat, todo@),
{
    match first_position(&todos.items, id) {
        Some(i) => {
            proof {
                lemma_first_is_position(old(todos)@, id as nat, i as int);
            }
            todos.items[i].title = todo.title;
            todos.items[i].completed = todo.completed;
            assert(todos.items.deep_view() =~= old(todos)@.update(i as int, patched(id as nat, todo@)));
            Some(todos.items[i].clone())
        },
        None => None,
    }
}

/// Stores a new record with the title and the flag of `todo` at the end of
/// the list, under an identifier one greater than the number of records the
/// list held, and answers with a copy of it. The identifier of `todo` is not
/// read.
///
/// The new identifier has to fit the machine word, which is all that the
/// precondition asks.
pub fn create_todo(todos: &mut TodoList, todo: Todo) -> (created: Todo)
    requires
        old(todos)@.len() < usize::MAX,
    ensures
        created@ == assigned(old(todos)@, todo@),
        final(todos)@ == after_create(old(todos)@, todo@),
{
    let mut new_todo = todo;
    new_todo.id = todos.items.len() + 1;
    todos.items.push(new_todo.clone());
    assert(todos.items.deep_view() =~= after_create(old(todos)@, todo@));
    new_todo
}

/// Takes the first record that carries `id` out of the list; the records
/// behind it keep their order. The answer is `Some(())`.
///
/// Where no record carries `id` the answer is `None`, and the list is left
/// as it was.
pub fn delete_todo(todos: &mut TodoList, id: usize) -> (deleted: Option<()>)
    ensures
        final(todos)@ == after_delete(old(todos)@, id as nat),
        deleted == delete_reply(old(todos)@, id as nat),
{
    let index = first_position(&todos.items, id)?;
    proof {
        lemma_first_is_position(old(todos)@, id as nat, index as int);
    }
    todos.items.remove(index);
    assert(todos.items.deep_view() =~= old(todos)@.remove(index as int));
    Some(())
}

/// A copy of every record of the list, in the order in which the list
/// holds them. The list itself is only read.
pub fn get_todos(todos: &TodoList) -> (listing: Vec<Todo>)
    ensures
        listing.deep_view() == todos@,
{
    let listing = todos.items.clone();
    assert(listing.deep_view() =~= todos@);
    listing
}

/// The line of text with which a running service answers a probe.
pub fn index() -> (banner: &'static str)
    ensures
        banner@ == "Todo API is running!"@,
{
    "Todo API is running!"
}

} // verus!
