//! What holds of the list whatever is done with it.
//!
//! Each statement here is proved of the mathematical list of `model`, which
//! the executable operations are proved to follow.

use vstd::prelude::*;
use crate::clock::Timestamp;
use crate::model::Addition;
use crate::model::ListView;
use crate::model::completed_count;
use crate::model::first_at;
use crate::model::holds_id;
use crate::model::ids_are_unique;
use crate::model::ids_increase;
use crate::model::is_completed;
use crate::model::is_pending;
use crate::model::lemma_filter_split;
use crate::model::lemma_first_is_position;
use crate::model::lemma_largest_id;
use crate::model::lemma_position_of;
use crate::model::pending_positions;
use crate::model::position_of;
use crate::todo::TodoView;

verus! {

/// A list that takes up stored items never hands out an identifier that is
/// in use: the next identifier lies above them all, and is 1 when nothing is
/// stored.
pub proof fn lemma_resumed_is_well_formed(todos: Seq<TodoView>)
    ensures
        ListView::resumed(todos).wf(),
        ListView::resumed(todos).todos == todos,
        !ListView::resumed(todos).unsaved,
        todos.len() == 0 ==> ListView::resumed(todos).next_id == 1,
        !holds_id(todos, ListView::resumed(todos).next_id),
{
    lemma_largest_id(todos);
}

/// However many items are added one after another, the identifiers they get
/// are the next one in line and its successors: they grow strictly from each
/// addition to the next, no two of them are equal, and none of them was in
/// use before. The items that were there stay as and where they were.
pub proof fn lemma_added_identifiers_increase(list: ListView, additions: Seq<Addition>)
    requires
        list.wf(),
    ensures
        list.with_all_added(additions).wf(),
        list.with_all_added(additions).next_id == list.next_id + additions.len(),
        list.with_all_added(additions).todos.len() == list.todos.len() + additions.len(),
        list.with_all_added(additions).todos.take(list.todos.len() as int) == list.todos,
        forall|k: int|
            0 <= k < additions.len() ==> #[trigger] list.with_all_added(additions).todos[list.todos.len()
                + k] == TodoView::fresh(
                (list.next_id + k) as nat,
                additions[k].title,
                additions[k].at,
            ),
        ids_increase(list.with_all_added(additions).todos.skip(list.todos.len() as int)),
        ids_are_unique(list.with_all_added(additions).todos.skip(list.todos.len() as int)),
        forall|i: int, k: int|
            0 <= i < list.todos.len() && 0 <= k < additions.len() ==> (#[trigger] list.todos[i]).id
                != (#[trigger] list.with_all_added(additions).todos[list.todos.len() + k]).id,
    decreases additions.len(),
{
    let after = list.with_all_added(additions);
    let n = list.todos.len() as int;
    if additions.len() == 0 {
        assert(after.todos.take(n) == list.todos);
    } else {
        let before = list.with_all_added(additions.drop_last());
        lemma_added_identifiers_increase(list, additions.drop_last());
        let m = additions.len() - 1;
        assert(after == before.with_added(additions.last().title, additions.last().at));
        assert(after.todos.take(n) == before.todos.take(n));
        assert forall|k: int| 0 <= k < additions.len() implies #[trigger] after.todos[n + k]
            == TodoView::fresh((list.next_id + k) as nat, additions[k].title, additions[k].at) by {
            if k < m {
                assert(after.todos[n + k] == before.todos[n + k]);
                assert(additions.drop_last()[k] == additions[k]);
            }
        }
        let added = after.todos.skip(n);
        assert forall|i: int, j: int| 0 <= i < j < added.len() implies (#[trigger] added[i]).id < (
        #[trigger] added[j]).id by {
            assert(added[i] == after.todos[n + i]);
            assert(added[j] == after.todos[n + j]);
        }
        assert forall|i: int, k: int| 0 <= i < n && 0 <= k < additions.len() implies (
        #[trigger] list.todos[i]).id != (#[trigger] after.todos[n + k]).id by {
            assert(list.todos[i].id < list.next_id);
        }
    }
}

/// Adding keeps the identifiers of the list strictly growing from each item to
/// the next, and keeps them distinct, where they were so before.
pub proof fn lemma_add_keeps_identifiers_in_order(list: ListView, title: Seq<char>, at: Timestamp)
    requires
        list.wf(),
    ensures
        list.with_added(title, at).wf(),
        ids_increase(list.todos) ==> ids_increase(list.with_added(title, at).todos),
        ids_are_unique(list.todos) ==> ids_are_unique(list.with_added(title, at).todos),
        !holds_id(list.todos, list.next_id),
{
}

/// Flipping changes no identifier, so whatever is found under an identifier
/// is found at the same place afterwards.
pub proof fn lemma_toggle_keeps_positions(list: ListView, id: nat, at: Timestamp, other: nat)
    ensures
        position_of(list.with_toggled(id, at).todos, other) == position_of(list.todos, other),
        list.with_toggled(id, at).todos.len() == list.todos.len(),
        list.with_toggled(id, at).next_id == list.next_id,
        list.wf() ==> list.with_toggled(id, at).wf(),
        ids_increase(list.todos) ==> ids_increase(list.with_toggled(id, at).todos),
        ids_are_unique(list.todos) ==> ids_are_unique(list.with_toggled(id, at).todos),
{
    let after = list.with_toggled(id, at);
    lemma_position_of(list.todos, id);
    assert forall|k: int| 0 <= k < list.todos.len() implies (#[trigger] after.todos[k]).id
        == list.todos[k].id by {}
    lemma_position_of(list.todos, other);
    lemma_position_of(after.todos, other);
    match position_of(list.todos, other) {
        Some(i) => {
            assert(first_at(after.todos, other, i)) by {
                assert forall|j: int| 0 <= j < i implies (#[trigger] after.todos[j]).id != other by {
                    assert(list.todos[j].id != other);
                }
            }
            lemma_first_is_position(after.todos, other, i);
        },
        None => {
            if holds_id(after.todos, other) {
                let k = choose|k: int| 0 <= k < after.todos.len() && (#[trigger] after.todos[k]).id
                    == other;
                assert(list.todos[k].id == other);
            }
        },
    }
    if ids_increase(list.todos) {
        assert forall|i: int, j: int| 0 <= i < j < after.todos.len() implies (
        #[trigger] after.todos[i]).id < (#[trigger] after.todos[j]).id by {
            assert(list.todos[i].id < list.todos[j].id);
        }
    }
    if ids_are_unique(list.todos) {
        assert forall|i: int, j: int|
            0 <= i < after.todos.len() && 0 <= j < after.todos.len() && i != j implies (
        #[trigger] after.todos[i]).id != (#[trigger] after.todos[j]).id by {
            assert(list.todos[i].id != list.todos[j].id);
        }
    }
}

/// Flipping the item under one identifier twice in a row gives every item
/// back its completion state. Nothing but the time of the last change of
/// that one item differs from the list before, and that time is the time of
/// the second flip. Where no item has the identifier, the list stays as it is.
pub proof fn lemma_toggle_twice_restores_list(
    list: ListView,
    id: nat,
    first: Timestamp,
    second: Timestamp,
)
    ensures
        list.with_toggled(id, first).with_toggled(id, second).todos.len() == list.todos.len(),
        forall|k: int|
            0 <= k < list.todos.len() ==> (#[trigger] list.with_toggled(id, first).with_toggled(
                id,
                second,
            ).todos[k]).completed == list.todos[k].completed,
        match position_of(list.todos, id) {
            Some(i) => list.with_toggled(id, first).with_toggled(id, second) == (ListView {
                todos: list.todos.update(i, TodoView { updated_at: second, ..list.todos[i] }),
                unsaved: true,
                ..list
            }),
            None => list.with_toggled(id, first).with_toggled(id, second) == list,
        },
{
    let once = list.with_toggled(id, first);
    let twice = once.with_toggled(id, second);
    lemma_toggle_keeps_positions(list, id, first, id);
    lemma_position_of(list.todos, id);
    match position_of(list.todos, id) {
        Some(i) => {
            assert(twice.todos == list.todos.update(
                i,
                TodoView { updated_at: second, ..list.todos[i] },
            ));
        },
        None => {},
    }
}

/// While the clock does not run backwards, the time of the last change of an
/// item never moves back under a flip: after each of two flips in a row it is
/// the instant of that flip, which is no earlier than what stood there
/// before, and later where the clock has moved on.
pub proof fn lemma_toggle_never_turns_time_back(
    list: ListView,
    id: nat,
    first: Timestamp,
    second: Timestamp,
)
    requires
        position_of(list.todos, id) is Some,
        list.todos[position_of(list.todos, id)->0].updated_at.not_after(first),
        first.not_after(second),
    ensures
        ({
            let i = position_of(list.todos, id)->0;
            let before = list.todos[i].updated_at;
            let once = list.with_toggled(id, first).todos[i].updated_at;
            let twice = list.with_toggled(id, first).with_toggled(id, second).todos[i].updated_at;
            &&& once == first
            &&& twice == second
            &&& before.not_after(once)
            &&& once.not_after(twice)
            &&& before.before(first) ==> before.before(once)
            &&& first.before(second) ==> once.before(twice)
        }),
{
    lemma_toggle_keeps_positions(list, id, first, id);
    lemma_position_of(list.todos, id);
}

/// Taking out the item under an identifier that is present shortens the list
/// by exactly one: the items before it stay where they are, those behind it
/// move up by one place, and the identifier is still found afterwards only if
/// a second item carried it. Where identifiers are unique it is gone. Where
/// the identifier is absent the list stays as it is.
pub proof fn lemma_delete_removes_one(list: ListView, id: nat)
    ensures
        match position_of(list.todos, id) {
            Some(i) => {
                &&& list.with_deleted(id).todos.len() == list.todos.len() - 1
                &&& forall|k: int|
                    0 <= k < i ==> #[trigger] list.with_deleted(id).todos[k] == list.todos[k]
                &&& forall|k: int|
                    i <= k < list.todos.len() - 1 ==> #[trigger] list.with_deleted(id).todos[k]
                        == list.todos[k + 1]
                &&& holds_id(list.with_deleted(id).todos, id) <==> exists|j: int|
                    0 <= j < list.todos.len() && j != i && (#[trigger] list.todos[j]).id == id
            },
            None => list.with_deleted(id) == list,
        },
        holds_id(list.todos, id) ==> list.with_deleted(id).todos.len() == list.todos.len() - 1,
        ids_are_unique(list.todos) ==> !holds_id(list.with_deleted(id).todos, id),
        list.with_deleted(id).next_id == list.next_id,
        list.wf() ==> list.with_deleted(id).wf(),
        ids_increase(list.todos) ==> ids_increase(list.with_deleted(id).todos),
        ids_are_unique(list.todos) ==> ids_are_unique(list.with_deleted(id).todos),
{
    let after = list.with_deleted(id);
    lemma_position_of(list.todos, id);
    match position_of(list.todos, id) {
        Some(i) => {
            if holds_id(after.todos, id) {
                let k = choose|k: int| 0 <= k < after.todos.len() && (#[trigger] after.todos[k]).id
                    == id;
                let j = if k < i { k } else { k + 1 };
                assert(list.todos[j].id == id);
            }
            if exists|j: int| 0 <= j < list.todos.len() && j != i && (#[trigger] list.todos[j]).id == id {
                let j = choose|j: int|
                    0 <= j < list.todos.len() && j != i && (#[trigger] list.todos[j]).id == id;
                let k = if j < i { j } else { j - 1 };
                assert(after.todos[k].id == id);
            }
            if ids_increase(list.todos) {
                assert forall|a: int, b: int| 0 <= a < b < after.todos.len() implies (
                #[trigger] after.todos[a]).id < (#[trigger] after.todos[b]).id by {
                    let a0 = if a < i { a } else { a + 1 };
                    let b0 = if b < i { b } else { b + 1 };
                    assert(list.todos[a0].id < list.todos[b0].id);
                }
            }
            if ids_are_unique(list.todos) {
                assert forall|a: int, b: int|
                    0 <= a < after.todos.len() && 0 <= b < after.todos.len() && a != b implies (
                #[trigger] after.todos[a]).id != (#[trigger] after.todos[b]).id by {
                    let a0 = if a < i { a } else { a + 1 };
                    let b0 = if b < i { b } else { b + 1 };
                    assert(list.todos[a0].id != list.todos[b0].id);
                }
                if holds_id(after.todos, id) {
                    let j = choose|j: int|
                        0 <= j < list.todos.len() && j != i && (#[trigger] list.todos[j]).id == id;
                    assert(list.todos[i].id != list.todos[j].id);
                }
            }
            if list.wf() {
                assert forall|k: int| 0 <= k < after.todos.len() implies (
                #[trigger] after.todos[k]).id < after.next_id by {
                    let k0 = if k < i { k } else { k + 1 };
                    assert(list.todos[k0].id < list.next_id);
                }
            }
        },
        None => {},
    }
}

/// What is left of `items` when the items that are done are taken out is the
/// items at `pending_positions`, one for one: each position names an item
/// that is still to be done, the positions rise, and no such item is passed
/// over.
pub proof fn lemma_pending_items_keep_their_order(items: Seq<TodoView>)
    ensures
        pending_positions(items).len() == items.filter(is_pending()).len(),
        forall|k: int|
            0 <= k < pending_positions(items).len() ==> {
                &&& 0 <= (#[trigger] pending_positions(items)[k]) < items.len()
                &&& !items[pending_positions(items)[k]].completed
                &&& items.filter(is_pending())[k] == items[pending_positions(items)[k]]
            },
        forall|j: int, k: int|
            0 <= j < k < pending_positions(items).len() ==> (#[trigger] pending_positions(items)[j])
                < (#[trigger] pending_positions(items)[k]),
        forall|i: int|
            0 <= i < items.len() && !(#[trigger] items[i]).completed ==> pending_positions(
                items,
            ).contains(i),
    decreases items.len(),
{
    reveal(Seq::filter);
    let at = pending_positions(items);
    let kept = items.filter(is_pending());
    if items.len() > 0 {
        let rest = items.drop_last();
        let rest_at = pending_positions(rest);
        let rest_kept = rest.filter(is_pending());
        lemma_pending_items_keep_their_order(rest);
        assert forall|k: int| 0 <= k < at.len() implies {
            &&& 0 <= (#[trigger] at[k]) < items.len()
            &&& !items[at[k]].completed
            &&& kept[k] == items[at[k]]
        } by {
            if k < rest_at.len() {
                assert(at[k] == rest_at[k]);
                assert(rest[rest_at[k]] == items[rest_at[k]]);
                assert(kept[k] == rest_kept[k]);
            }
        }
        assert forall|j: int, k: int| 0 <= j < k < at.len() implies (#[trigger] at[j]) < (
        #[trigger] at[k]) by {
            assert(at[j] == rest_at[j]);
            if k < rest_at.len() {
                assert(at[k] == rest_at[k]);
            }
        }
        assert forall|i: int| 0 <= i < items.len() && !(#[trigger] items[i]).completed implies at.contains(
            i,
        ) by {
            if i < rest.len() {
                assert(rest[i] == items[i]);
                assert(rest_at.contains(i));
                let k = choose|k: int| 0 <= k < rest_at.len() && rest_at[k] == i;
                assert(at[k] == i);
            } else {
                assert(at[at.len() - 1] == i);
            }
        }
    }
}

/// Clearing leaves no item that is done, and leaves every other item: what
/// stays is the items still to be done, each once and in the order in which
/// they stood. The list grows shorter by the number of items that were done,
/// and a list without such items stays as it is.
pub proof fn lemma_clear_keeps_pending_in_order(list: ListView)
    ensures
        forall|k: int|
            0 <= k < list.without_completed().todos.len() ==> !(
            #[trigger] list.without_completed().todos[k]).completed,
        list.without_completed().todos.len() == pending_positions(list.todos).len(),
        forall|k: int|
            0 <= k < list.without_completed().todos.len() ==> #[trigger] list.without_completed().todos[k]
                == list.todos[pending_positions(list.todos)[k]],
        forall|j: int, k: int|
            0 <= j < k < pending_positions(list.todos).len() ==> (#[trigger] pending_positions(
                list.todos,
            )[j]) < (#[trigger] pending_positions(list.todos)[k]),
        forall|i: int|
            0 <= i < list.todos.len() && !(#[trigger] list.todos[i]).completed
                ==> pending_positions(list.todos).contains(i),
        list.without_completed().todos.len() + completed_count(list.todos) == list.todos.len(),
        completed_count(list.todos) == 0 ==> list.without_completed() == list,
        completed_count(list.without_completed().todos) == 0,
        list.without_completed().next_id == list.next_id,
        list.wf() ==> list.without_completed().wf(),
        ids_increase(list.todos) ==> ids_increase(list.without_completed().todos),
        ids_are_unique(list.todos) ==> ids_are_unique(list.without_completed().todos),
{
    let kept = list.without_completed().todos;
    let at = pending_positions(list.todos);
    lemma_pending_items_keep_their_order(list.todos);
    lemma_filter_split(list.todos);
    assert forall|k: int| 0 <= k < kept.len() implies !(#[trigger] kept[k]).completed by {
        assert(kept[k] == list.todos[at[k]]);
    }
    if completed_count(list.todos) == 0 {
        assert forall|k: int| 0 <= k < kept.len() implies kept[k] == list.todos[k] by {
            lemma_rising_positions_fill_up(at, list.todos.len() as int, k);
        }
        assert(kept == list.todos);
    }
    assert(completed_count(kept) == 0) by {
        kept.lemma_all_neg_filter_empty(is_completed());
    }
    if list.wf() {
        assert forall|k: int| 0 <= k < kept.len() implies (#[trigger] kept[k]).id
            < list.next_id by {
            assert(kept[k] == list.todos[at[k]]);
        }
    }
    if ids_increase(list.todos) {
        assert forall|j: int, k: int| 0 <= j < k < kept.len() implies (#[trigger] kept[j]).id < (
        #[trigger] kept[k]).id by {
            assert(at[j] < at[k]);
            assert(list.todos[at[j]].id < list.todos[at[k]].id);
        }
    }
    if ids_are_unique(list.todos) {
        assert forall|j: int, k: int|
            0 <= j < kept.len() && 0 <= k < kept.len() && j != k implies (#[trigger] kept[j]).id
            != (#[trigger] kept[k]).id by {
            if j < k {
                assert(at[j] < at[k]);
            } else {
                assert(at[k] < at[j]);
            }
            assert(list.todos[at[j]].id != list.todos[at[k]].id);
        }
    }
}

/// A list asks to be written out exactly when an operation has changed its
/// items since it was read or last written: adding always does, flipping and
/// deleting do where the identifier is found, and clearing does where an item
/// was done. An operation that changes nothing leaves the request as it was,
/// and a write that went well withdraws it without touching the list.
pub proof fn lemma_unsaved_exactly_when_changed(
    list: ListView,
    id: nat,
    title: Seq<char>,
    at: Timestamp,
)
    ensures
        list.with_added(title, at).unsaved,
        list.with_added(title, at).todos != list.todos,
        list.with_toggled(id, at).unsaved == (list.unsaved || holds_id(list.todos, id)),
        list.with_toggled(id, at).todos != list.todos <==> holds_id(list.todos, id),
        list.with_deleted(id).unsaved == (list.unsaved || holds_id(list.todos, id)),
        list.with_deleted(id).todos != list.todos <==> holds_id(list.todos, id),
        list.without_completed().unsaved == (list.unsaved || completed_count(list.todos) > 0),
        list.without_completed().todos != list.todos <==> completed_count(list.todos) > 0,
        !list.saved().unsaved,
        list.saved().todos == list.todos,
        list.saved().next_id == list.next_id,
{
    lemma_position_of(list.todos, id);
    assert(list.with_added(title, at).todos.len() != list.todos.len());
    match position_of(list.todos, id) {
        Some(i) => {
            assert(list.with_toggled(id, at).todos[i].completed != list.todos[i].completed);
            assert(list.with_deleted(id).todos.len() != list.todos.len());
        },
        None => {},
    }
    lemma_clear_keeps_pending_in_order(list);
    if completed_count(list.todos) > 0 {
        assert(list.without_completed().todos.len() != list.todos.len());
    }
}

/// Rising positions below `bound` that are `bound` in number are the
/// positions from 0 on, each in its place.
proof fn lemma_rising_positions_fill_up(at: Seq<int>, bound: int, k: int)
    requires
        at.len() == bound,
        0 <= k < bound,
        forall|i: int| 0 <= i < at.len() ==> 0 <= (#[trigger] at[i]) < bound,
        forall|i: int, j: int| 0 <= i < j < at.len() ==> (#[trigger] at[i]) < (#[trigger] at[j]),
    ensures
        at[k] == k,
{
    lemma_rising_at_least(at, k);
    lemma_rising_at_most(at, bound, k);
}

/// The position at place `k` of a rising sequence of positions is at least
/// `k`.
proof fn lemma_rising_at_least(at: Seq<int>, k: int)
    requires
        0 <= k < at.len(),
        forall|i: int| 0 <= i < at.len() ==> 0 <= #[trigger] at[i],
        forall|i: int, j: int| 0 <= i < j < at.len() ==> (#[trigger] at[i]) < (#[trigger] at[j]),
    ensures
        at[k] >= k,
    decreases k,
{
    if k > 0 {
        lemma_rising_at_least(at, k - 1);
        assert(at[k - 1] < at[k]);
    }
}

/// The position at place `k` of a rising sequence of positions below `bound`
/// leaves room above it for those that follow.
proof fn lemma_rising_at_most(at: Seq<int>, bound: int, k: int)
    requires
        0 <= k < at.len(),
        forall|i: int| 0 <= i < at.len() ==> (#[trigger] at[i]) < bound,
        forall|i: int, j: int| 0 <= i < j < at.len() ==> (#[trigger] at[i]) < (#[trigger] at[j]),
    ensures
        at[k] <= bound - (at.len() - k),
    decreases at.len() - k,
{
    if k < at.len() - 1 {
        lemma_rising_at_most(at, bound, k + 1);
        assert(at[k] < at[k + 1]);
    }
}

} // verus!
