//! One entry of the list.

use vstd::prelude::*;
use crate::clock::Timestamp;
use crate::clock::now;

verus! {

/// One to-do item.
#[derive(Debug, Clone)]
pub struct Todo {
    /// The identifier under which the collection finds the item.
    pub id: usize,
    /// What is to be done.
    pub title: String,
    /// Whether it has been done.
    pub completed: bool,
    /// When the item was made.
    pub created_at: Timestamp,
    /// When the item was last changed.
    pub updated_at: Timestamp,
}

/// What an item is, apart from how its text is stored.
pub struct TodoView {
    pub id: nat,
    pub title: Seq<char>,
    pub completed: bool,
    pub created_at: Timestamp,
    pub updated_at: Timestamp,
}

impl TodoView {
    /// The item that comes into being at `at`: pending, and never changed yet.
    pub open spec fn fresh(id: nat, title: Seq<char>, at: Timestamp) -> TodoView {
        TodoView { id, title, completed: false, created_at: at, updated_at: at }
    }

    /// The item after its completion flag was flipped at `at`.
    pub open spec fn toggled(self, at: Timestamp) -> TodoView {
        TodoView { completed: !self.completed, updated_at: at, ..self }
    }

    /// The item after it was given the title `title` at `at`.
    pub open spec fn retitled(self, title: Seq<char>, at: Timestamp) -> TodoView {
        TodoView { title, updated_at: at, ..self }
    }
}

impl View for Todo {
    type V = TodoView;

    open spec fn view(&self) -> TodoView {
        TodoView {
            id: self.id as nat,
            title: self.title@,
            completed: self.completed,
            created_at: self.created_at,
            updated_at: self.updated_at,
        }
    }
}

impl Todo {
    /// A new pending item, stamped with the present instant.
    ///
    /// The instant is whatever the clock gave; the result carries it in both
    /// of its time fields.
    pub fn new(id: usize, title: String) -> (todo: Todo)
        ensures
            todo@ == TodoView::fresh(id as nat, title@, todo.created_at),
    {
        Todo::new_at(id, title, now())
    }

    /// A new pending item, made at `at`.
    pub fn new_at(id: usize, title: String, at: Timestamp) -> (todo: Todo)
        ensures
            todo@ == TodoView::fresh(id as nat, title@, at),
    {
        Todo { id, title, completed: false, created_at: at, updated_at: at }
    }

    /// Flips the completion flag and stamps the change with the present
    /// instant, whatever the clock gave.
    pub fn toggle(&mut self)
        ensures
            final(self)@ == old(self)@.toggled(final(self).updated_at),
    {
        self.toggle_at(now());
    }

    /// Flips the completion flag and records `at` as the time of the change.
    pub fn toggle_at(&mut self, at: Timestamp)
        ensures
            final(self)@ == old(self)@.toggled(at),
    {
        self.completed = !self.completed;
        self.updated_at = at;
    }

    /// Replaces the title and stamps the change with the present instant,
    /// whatever the clock gave.
    pub fn update_title(&mut self, new_title: String)
        ensures
            final(self)@ == old(self)@.retitled(new_title@, final(self).updated_at),
    {
        self.update_title_at(new_title, now());
    }

    /// Replaces the title and records `at` as the time of the change.
    pub fn update_title_at(&mut self, new_title: String, at: Timestamp)
        ensures
            final(self)@ == old(self)@.retitled(new_title@, at),
    {
        self.title = new_title;
        self.updated_at = at;
    }

    /// A second item with the same contents.
    pub fn duplicate(&self) -> (copy: Todo)
        ensures
            copy == *self,
    {
        Todo {
            id: self.id,
            title: self.title.clone(),
            completed: self.completed,
            created_at: self.created_at,
            updated_at: self.updated_at,
        }
    }
}

/// Flipping an item twice gives back its completion state and leaves all but
/// the time of the last change as it was; that time is the time of the second
/// flip.
pub proof fn lemma_toggle_twice_restores(item: TodoView, first: Timestamp, second: Timestamp)
    ensures
        item.toggled(first).toggled(second).completed == item.completed,
        item.toggled(first).toggled(second) == (TodoView { updated_at: second, ..item }),
{
}

/// While the clock does not run backwards, the time of the last change never
/// moves back under a flip: it stays or advances with the instant of the flip.
pub proof fn lemma_toggle_advances_update_time(item: TodoView, at: Timestamp)
    requires
        item.updated_at.not_after(at),
    ensures
        item.updated_at.not_after(item.toggled(at).updated_at),
        item.toggled(at).updated_at == at,
        item.updated_at.before(at) ==> item.updated_at.before(item.toggled(at).updated_at),
{
}

} // verus!
