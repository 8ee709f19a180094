//! The collection as a mathematical value: a sequence of items in the order
//! in which they were added, the identifier that the next item will get, and
//! whether what is in memory has yet to be written out.
//!
//! Every operation of the list is defined here as a function on that value.
//! The executable code in the rest of the crate is proved to compute these
//! functions, and the laws of the list are proved of them.

use vstd::prelude::*;
use crate::clock::Timestamp;
use crate::todo::Todo;
use crate::todo::TodoView;

verus! {

/// The items of a vector as mathematical values, in the vector's order.
pub open spec fn views_of(items: Seq<Todo>) -> Seq<TodoView> {
    Seq::new(items.len(), |i: int| items[i]@)
}

/// `i` is the first position of `items` that holds the identifier `id`.
pub open spec fn first_at(items: Seq<TodoView>, id: nat, i: int) -> bool {
    &&& 0 <= i < items.len()
    &&& items[i].id == id
    &&& forall|j: int| 0 <= j < i ==> (#[trigger] items[j]).id != id
}

/// Some item of `items` has the identifier `id`.
pub open spec fn holds_id(items: Seq<TodoView>, id: nat) -> bool {
    exists|i: int| 0 <= i < items.len() && (#[trigger] items[i]).id == id
}

/// The first position of `items` that holds the identifier `id`, if any does.
pub open spec fn position_of(items: Seq<TodoView>, id: nat) -> Option<int> {
    if exists|i: int| first_at(items, id, i) {
        Some(choose|i: int| first_at(items, id, i))
    } else {
        None
    }
}

/// The largest identifier among `items`; 0 when there are none.
pub open spec fn largest_id(items: Seq<TodoView>) -> nat
    decreases items.len(),
{
    if items.len() == 0 {
        0
    } else if items.last().id > largest_id(items.drop_last()) {
        items.last().id
    } else {
        largest_id(items.drop_last())
    }
}

/// The test for an item that is done.
pub open spec fn is_completed() -> spec_fn(TodoView) -> bool {
    |item: TodoView| item.completed
}

/// The test for an item that is still to be done.
pub open spec fn is_pending() -> spec_fn(TodoView) -> bool {
    |item: TodoView| !item.completed
}

/// How many of `items` are done.
pub open spec fn completed_count(items: Seq<TodoView>) -> nat {
    items.filter(is_completed()).len()
}

/// The positions in `items` of the items that are still to be done, in rising
/// order.
pub open spec fn pending_positions(items: Seq<TodoView>) -> Seq<int>
    decreases items.len(),
{
    if items.len() == 0 {
        Seq::empty()
    } else if items.last().completed {
        pending_positions(items.drop_last())
    } else {
        pending_positions(items.drop_last()).push(items.len() - 1)
    }
}

/// The identifiers of `items` grow strictly from each item to the next.
pub open spec fn ids_increase(items: Seq<TodoView>) -> bool {
    forall|i: int, j: int|
        0 <= i < j < items.len() ==> (#[trigger] items[i]).id < (#[trigger] items[j]).id
}

/// No two of `items` share an identifier.
pub open spec fn ids_are_unique(items: Seq<TodoView>) -> bool {
    forall|i: int, j: int|
        0 <= i < items.len() && 0 <= j < items.len() && i != j ==> (#[trigger] items[i]).id != (
        #[trigger] items[j]).id
}

/// One addition to the list: the title of the new item, and when it is made.
pub struct Addition {
    pub title: Seq<char>,
    pub at: Timestamp,
}

/// The list as a value.
pub struct ListView {
    /// The items, oldest first.
    pub todos: Seq<TodoView>,
    /// The identifier that the next new item gets.
    pub next_id: nat,
    /// Whether the items have changed since they were last read or written:
    /// whether the stored collection is out of date.
    pub unsaved: bool,
}

impl ListView {
    /// Every identifier in use lies below the next one to be handed out, so
    /// that no identifier is ever handed out twice.
    pub open spec fn wf(self) -> bool {
        forall|i: int| 0 <= i < self.todos.len() ==> (#[trigger] self.todos[i]).id < self.next_id
    }

    /// The list that takes up stored items: the next identifier is one above
    /// the largest in use, and 1 when nothing is stored. Nothing has changed
    /// yet, so there is nothing to write out.
    pub open spec fn resumed(todos: Seq<TodoView>) -> ListView {
        ListView { todos, next_id: largest_id(todos) + 1, unsaved: false }
    }

    /// The list once it has been written out.
    pub open spec fn saved(self) -> ListView {
        ListView { unsaved: false, ..self }
    }

    /// The list after a new item with the title `title` was added at `at`. It
    /// is to be written out.
    pub open spec fn with_added(self, title: Seq<char>, at: Timestamp) -> ListView {
        ListView {
            todos: self.todos.push(TodoView::fresh(self.next_id, title, at)),
            next_id: self.next_id + 1,
            unsaved: true,
        }
    }

    /// The list after each of `additions` was added in turn.
    pub open spec fn with_all_added(self, additions: Seq<Addition>) -> ListView
        decreases additions.len(),
    {
        if additions.len() == 0 {
            self
        } else {
            self.with_all_added(additions.drop_last()).with_added(
                additions.last().title,
                additions.last().at,
            )
        }
    }

    /// The list after the first item with the identifier `id` was flipped at
    /// `at`, which is to be written out; the list itself, with nothing new to
    /// write, when no item has that identifier.
    pub open spec fn with_toggled(self, id: nat, at: Timestamp) -> ListView {
        match position_of(self.todos, id) {
            Some(i) => ListView {
                todos: self.todos.update(i, self.todos[i].toggled(at)),
                unsaved: true,
                ..self
            },
            None => self,
        }
    }

    /// The list after the first item with the identifier `id` was taken out,
    /// which is to be written out; the list itself, with nothing new to
    /// write, when no item has that identifier.
    pub open spec fn with_deleted(self, id: nat) -> ListView {
        match position_of(self.todos, id) {
            Some(i) => ListView { todos: self.todos.remove(i), unsaved: true, ..self },
            None => self,
        }
    }

    /// The list after every item that is done was taken out. It is to be
    /// written out if there was such an item.
    pub open spec fn without_completed(self) -> ListView {
        ListView {
            todos: self.todos.filter(is_pending()),
            unsaved: self.unsaved || completed_count(self.todos) > 0,
            ..self
        }
    }
}

/// Where an identifier is present its first position is well defined, and
/// where `position_of` finds nothing the identifier is absent.
pub proof fn lemma_position_of(items: Seq<TodoView>, id: nat)
    ensures
        match position_of(items, id) {
            Some(i) => first_at(items, id, i),
            None => !holds_id(items, id),
        },
        position_of(items, id) is Some <==> holds_id(items, id),
{
    if holds_id(items, id) {
        let k = choose|i: int| 0 <= i < items.len() && (#[trigger] items[i]).id == id;
        lemma_first_exists(items, id, k);
    }
}

/// Below any position that holds `id` there is a first one.
proof fn lemma_first_exists(items: Seq<TodoView>, id: nat, k: int)
    requires
        0 <= k < items.len(),
        items[k].id == id,
    ensures
        exists|i: int| first_at(items, id, i),
    decreases k,
{
    if forall|j: int| 0 <= j < k ==> (#[trigger] items[j]).id != id {
        assert(first_at(items, id, k));
    } else {
        let j = choose|j: int| 0 <= j < k && (#[trigger] items[j]).id == id;
        lemma_first_exists(items, id, j);
    }
}

/// A position that is the first to hold `id` is the one that `position_of`
/// names.
pub proof fn lemma_first_is_position(items: Seq<TodoView>, id: nat, i: int)
    requires
        first_at(items, id, i),
    ensures
        position_of(items, id) == Some(i),
{
    let chosen = choose|k: int| first_at(items, id, k);
    assert(first_at(items, id, chosen));
    if chosen < i {
        assert(items[chosen].id != id);
    } else if i < chosen {
        assert(items[i].id != id);
    }
}

/// No identifier in use exceeds `largest_id`, and where there are items one
/// of them has it.
pub proof fn lemma_largest_id(items: Seq<TodoView>)
    ensures
        forall|i: int| 0 <= i < items.len() ==> (#[trigger] items[i]).id <= largest_id(items),
        items.len() > 0 ==> exists|i: int|
            0 <= i < items.len() && (#[trigger] items[i]).id == largest_id(items),
        items.len() == 0 ==> largest_id(items) == 0,
    decreases items.len(),
{
    if items.len() > 0 {
        let rest = items.drop_last();
        lemma_largest_id(rest);
        assert forall|i: int| 0 <= i < items.len() implies (#[trigger] items[i]).id <= largest_id(
            items,
        ) by {
            if i < rest.len() {
                assert(rest[i] == items[i]);
            }
        }
        if items.last().id > largest_id(rest) {
            assert(items[items.len() - 1].id == largest_id(items));
        } else if rest.len() > 0 {
            let i = choose|i: int| 0 <= i < rest.len() && (#[trigger] rest[i]).id == largest_id(rest);
            assert(items[i] == rest[i]);
        } else {
            assert(items[items.len() - 1].id == largest_id(items));
        }
    }
}

/// Taking out the items that are done leaves a list in which no identifier
/// reaches the next one to be handed out, if the list was such a one.
pub proof fn lemma_pending_of_wf(list: ListView)
    requires
        list.wf(),
    ensures
        list.without_completed().wf(),
{
    let kept = list.todos.filter(is_pending());
    assert forall|i: int| 0 <= i < kept.len() implies (#[trigger] kept[i]).id < list.next_id by {
        list.todos.lemma_filter_contains_rev(is_pending(), kept[i]);
    }
}

/// Every item is either done or pending: the two counts make up the length.
pub proof fn lemma_filter_split(items: Seq<TodoView>)
    ensures
        items.filter(is_completed()).len() + items.filter(is_pending()).len() == items.len(),
    decreases items.len(),
{
    reveal(Seq::filter);
    if items.len() > 0 {
        lemma_filter_split(items.drop_last());
    }
}

} // verus!
