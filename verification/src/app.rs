//! The list itself: the items in memory and the counter that names new ones.

use vstd::prelude::*;
use crate::clock::Timestamp;
use crate::clock::now;
use crate::model::ListView;
use crate::model::completed_count;
use crate::model::is_pending;
use crate::model::largest_id;
use crate::model::lemma_first_is_position;
use crate::model::lemma_filter_split;
use crate::model::lemma_largest_id;
use crate::model::lemma_pending_of_wf;
use crate::model::lemma_position_of;
use crate::model::position_of;
use crate::model::views_of;
use crate::stats::Stats;
use crate::stats::stats_of;
use crate::todo::Todo;
use crate::todo::TodoView;

verus! {

/// The to-do list: its items, oldest first, the identifier that the next new
/// item will get, and a note of whether the items have changed since they
/// were read or last written out.
///
/// The list does not write itself out. Its caller asks `needs_saving` after
/// an operation, writes the items where the answer is yes, and reports a
/// write that went well with `mark_saved`.
pub struct TodoApp {
    todos: Vec<Todo>,
    next_id: usize,
    unsaved: bool,
}

impl View for TodoApp {
    type V = ListView;

    closed spec fn view(&self) -> ListView {
        ListView {
            todos: views_of(self.todos@),
            next_id: self.next_id as nat,
            unsaved: self.unsaved,
        }
    }
}

impl TodoApp {
    /// The list that takes up `todos`, as they were stored.
    ///
    /// New items will be numbered from one above the largest identifier among
    /// them, and from 1 when there are none. That number has to exist: the
    /// largest identifier in use must not be the largest that the machine can
    /// hold.
    pub fn new(todos: Vec<Todo>) -> (app: TodoApp)
        requires
            largest_id(views_of(todos@)) < usize::MAX,
        ensures
            app@ == ListView::resumed(views_of(todos@)),
            app@.wf(),
    {
        let next_id: usize = highest_id(&todos) + 1;
        proof {
            lemma_largest_id(views_of(todos@));
        }
        TodoApp { todos, next_id, unsaved: false }
    }

    /// Whether the items have changed since they were read or last written
    /// out, so that the stored collection is out of date.
    pub fn needs_saving(&self) -> (due: bool)
        ensures
            due == self@.unsaved,
    {
        self.unsaved
    }

    /// Takes note that the items have been written out as they are.
    pub fn mark_saved(&mut self)
        ensures
            final(self)@ == old(self)@.saved(),
    {
        self.unsaved = false;
    }

    /// The items, oldest first.
    pub fn list(&self) -> (items: &Vec<Todo>)
        ensures
            views_of(items@) == self@.todos,
    {
        &self.todos
    }

    /// The identifier that the next new item will get.
    pub fn next_id(&self) -> (id: usize)
        ensures
            id == self@.next_id,
    {
        self.next_id
    }

    /// Where the first item with the identifier `id` stands, if there is one.
    pub fn position(&self, id: usize) -> (found: Option<usize>)
        ensures
            match found {
                Some(i) => position_of(self@.todos, id as nat) == Some(i as int),
                None => position_of(self@.todos, id as nat) is None,
            },
    {
        let mut i: usize = 0;
        while i < self.todos.len()
            invariant
                i <= self.todos.len(),
                forall|j: int| 0 <= j < i ==> (#[trigger] self@.todos[j]).id != id,
            decreases self.todos.len() - i,
        {
            if self.todos[i].id == id {
                proof {
                    lemma_first_is_position(self@.todos, id as nat, i as int);
                }
                return Some(i);
            }
            i += 1;
        }
        proof {
            lemma_position_of(self@.todos, id as nat);
        }
        None
    }

    /// Adds a new pending item with the title `title`, stamped with the
    /// present instant, and hands back a copy of it.
    ///
    /// The item gets the identifier that was next in line, and the list moves
    /// on to the one after it. The instant is whatever the clock gave; the
    /// copy shows it. The list is to be written out afterwards.
    pub fn add(&mut self, title: String) -> (created: Todo)
        requires
            old(self)@.wf(),
            old(self)@.next_id < usize::MAX,
        ensures
            final(self)@ == old(self)@.with_added(title@, created.created_at),
            created@ == TodoView::fresh(old(self)@.next_id, title@, created.created_at),
            final(self)@.wf(),
    {
        self.add_at(title, now())
    }

    /// Adds a new pending item with the title `title`, made at `at`, and
    /// hands back a copy of it.
    pub fn add_at(&mut self, title: String, at: Timestamp) -> (created: Todo)
        requires
            old(self)@.wf(),
            old(self)@.next_id < usize::MAX,
        ensures
            final(self)@ == old(self)@.with_added(title@, at),
            created@ == TodoView::fresh(old(self)@.next_id, title@, at),
            final(self)@.wf(),
    {
        let todo = Todo::new_at(self.next_id, title, at);
        let created = todo.duplicate();
        self.next_id = self.next_id + 1;
        self.todos.push(todo);
        self.unsaved = true;
        proof {
            let before = old(self)@;
            assert(views_of(self.todos@) == before.todos.push(todo@));
            assert forall|i: int| 0 <= i < self@.todos.len() implies (#[trigger] self@.todos[i]).id
                < self@.next_id by {
                if i < before.todos.len() {
                    assert(before.todos[i].id < before.next_id);
                }
            }
        }
        created
    }

    /// Flips the first item with the identifier `id`, stamps the change with
    /// the present instant, and hands back a copy of the item as it now is.
    ///
    /// The instant is whatever the clock gave; the copy shows it. Where no
    /// item has the identifier, nothing changes, nothing new is to be written
    /// out, and the answer is `None`.
    pub fn toggle(&mut self, id: usize) -> (toggled: Option<Todo>)
        requires
            old(self)@.wf(),
        ensures
            final(self)@.wf(),
            match toggled {
                Some(item) => {
                    &&& position_of(old(self)@.todos, id as nat) matches Some(i)
                    &&& final(self)@ == old(self)@.with_toggled(id as nat, item.updated_at)
                    &&& item@ == final(self)@.todos[i]
                },
                None => {
                    &&& position_of(old(self)@.todos, id as nat) is None
                    &&& final(self)@ == old(self)@
                },
            },
    {
        self.toggle_at(id, now())
    }

    /// Flips the first item with the identifier `id`, records `at` as the
    /// time of the change, and hands back a copy of the item as it now is.
    ///
    /// Where no item has the identifier, nothing changes, nothing new is to be
    /// written out, and the answer is `None`.
    pub fn toggle_at(&mut self, id: usize, at: Timestamp) -> (toggled: Option<Todo>)
        requires
            old(self)@.wf(),
        ensures
            final(self)@ == old(self)@.with_toggled(id as nat, at),
            final(self)@.wf(),
            match toggled {
                Some(item) => position_of(old(self)@.todos, id as nat) matches Some(i) && item@
                    == final(self)@.todos[i],
                None => position_of(old(self)@.todos, id as nat) is None,
            },
    {
        match self.position(id) {
            Some(i) => {
                self.todos[i].toggle_at(at);
                self.unsaved = true;
                proof {
                    assert(views_of(self.todos@) == views_of(old(self).todos@).update(
                        i as int,
                        old(self)@.todos[i as int].toggled(at),
                    ));
                }
                Some(self.todos[i].duplicate())
            },
            None => None,
        }
    }

    /// Takes out the first item with the identifier `id` and hands it back;
    /// the items behind it keep their order.
    ///
    /// Where no item has the identifier, nothing changes, nothing new is to be
    /// written out, and the answer is `None`.
    pub fn delete(&mut self, id: usize) -> (removed: Option<Todo>)
        requires
            old(self)@.wf(),
        ensures
            final(self)@ == old(self)@.with_deleted(id as nat),
            final(self)@.wf(),
            match removed {
                Some(item) => position_of(old(self)@.todos, id as nat) matches Some(i) && item@
                    == old(self)@.todos[i],
                None => position_of(old(self)@.todos, id as nat) is None,
            },
    {
        match self.position(id) {
            Some(i) => {
                let removed = self.todos.remove(i);
                self.unsaved = true;
                proof {
                    assert(views_of(self.todos@) == views_of(old(self).todos@).remove(i as int));
                }
                Some(removed)
            },
            None => None,
        }
    }

    /// Takes out every item that is done and says how many that were; the
    /// items that stay keep their order.
    ///
    /// The list is to be written out afterwards if the count is not 0; a
    /// count of 0 leaves nothing new to write.
    pub fn clear_completed(&mut self) -> (removed: usize)
        requires
            old(self)@.wf(),
        ensures
            final(self)@ == old(self)@.without_completed(),
            final(self)@.wf(),
            removed == old(self)@.todos.len() - final(self)@.todos.len(),
            removed == completed_count(old(self)@.todos),
    {
        let before: usize = self.todos.len();
        let mut all: Vec<Todo> = Vec::new();
        std::mem::swap(&mut self.todos, &mut all);
        let mut kept: Vec<Todo> = Vec::new();
        let ghost items = views_of(all@);
        for todo in it: all
            invariant
                it.seq() == old(self).todos@,
                items == views_of(old(self).todos@),
                views_of(kept@) == items.take(it.index() as int).filter(is_pending()),
        {
            proof {
                let i = it.index() as int;
                assert(items.take(i + 1) == items.take(i).push(items[i]));
                items.take(i).lemma_filter_push(items[i], is_pending());
                assert(views_of(kept@.push(todo)) == views_of(kept@).push(todo@));
            }
            if !todo.completed {
                kept.push(todo);
            }
        }
        proof {
            assert(items.take(items.len() as int) == items);
            items.lemma_filter_len(is_pending());
            lemma_pending_of_wf(old(self)@);
            lemma_filter_split(items);
        }
        self.todos = kept;
        let removed: usize = before - self.todos.len();
        if removed > 0 {
            self.unsaved = true;
        }
        removed
    }

    /// The counts that sum up the list.
    pub fn stats(&self) -> (stats: Stats)
        ensures
            stats@ == stats_of(self@.todos),
    {
        Stats::of(&self.todos)
    }
}

/// The largest identifier among `todos`; 0 when there are none.
pub fn highest_id(todos: &Vec<Todo>) -> (highest: usize)
    ensures
        highest == largest_id(views_of(todos@)),
{
    let mut highest: usize = 0;
    let mut i: usize = 0;
    while i < todos.len()
        invariant
            i <= todos.len(),
            highest == largest_id(views_of(todos@).take(i as int)),
        decreases todos.len() - i,
    {
        proof {
            let upto = views_of(todos@).take(i + 1);
            assert(upto.drop_last() == views_of(todos@).take(i as int));
            assert(upto.last() == todos@[i as int]@);
        }
        if todos[i].id > highest {
            highest = todos[i].id;
        }
        i += 1;
    }
    proof {
        assert(views_of(todos@).take(i as int) == views_of(todos@));
    }
    highest
}

} // verus!
