//! The task record and its mathematical view.

use vstd::prelude::*;

verus! {

/// A task record as contracts see it: the identifier as a natural number and
/// the title as a sequence of characters.
pub struct TodoView {
    pub id: nat,
    pub title: Seq<char>,
    pub completed: bool,
}

/// A task record: an identifier, a title and a completion flag.
///
/// The identifier of a stored record is assigned by the store. The one a
/// client sends along with a new record or a patch is never read.
#[derive(Debug)]
pub struct Todo {
    pub id: usize,
    pub title: String,
    pub completed: bool,
}

impl View for Todo {
    type V = TodoView;

    open spec fn view(&self) -> TodoView {
        TodoView { id: self.id as nat, title: self.title@, completed: self.completed }
    }
}

/// The same view again, so that a vector of records, or an optional one, has
/// the views of its records for its deep view.
impl DeepView for Todo {
    type V = TodoView;

    open spec fn deep_view(&self) -> TodoView {
        self@
    }
}

impl Clone for Todo {
    fn clone(&self) -> (copy: Self)
        ensures
            copy == *self,
    {
        Todo { id: self.id, title: self.title.clone(), completed: self.completed }
    }
}

/// Two records are equal when their identifiers, titles and flags are.
impl PartialEq for Todo {
    fn eq(&self, other: &Self) -> (same: bool) {
        self.id == other.id && self.title == other.title && self.completed == other.completed
    }
}

impl Eq for Todo {}

impl vstd::std_specs::cmp::PartialEqSpecImpl for Todo {
    open spec fn obeys_eq_spec() -> bool {
        true
    }

    open spec fn eq_spec(&self, other: &Self) -> bool {
        self@ == other@
    }
}

} // verus!
