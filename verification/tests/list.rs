use todo_cli::app::highest_id;
use todo_cli::app::TodoApp;
use todo_cli::clock::Timestamp;
use todo_cli::todo::Todo;

fn at(secs: i64) -> Timestamp {
    Timestamp { secs, nanos: 0 }
}

fn item(id: usize, title: &str, completed: bool) -> Todo {
    let mut todo = Todo::new_at(id, title.to_string(), at(100));
    if completed {
        todo.toggle_at(at(200));
    }
    todo
}

fn ids(app: &TodoApp) -> Vec<usize> {
    let mut out = Vec::new();
    for todo in app.list() {
        out.push(todo.id);
    }
    out
}

#[test]
fn worked_example() {
    let mut app = TodoApp::new(Vec::new());

    let milk = app.add("buy milk".to_string());
    assert_eq!(milk.id, 1);
    assert!(!milk.completed);

    let mom = app.add("call mom".to_string());
    assert_eq!(mom.id, 2);

    let toggled = app.toggle(1).expect("item 1 is there");
    assert_eq!(toggled.id, 1);
    assert!(toggled.completed);

    let stats = app.stats();
    assert_eq!(stats.total, 2);
    assert_eq!(stats.completed, 1);
    assert_eq!(stats.pending, 1);
    assert_eq!(stats.percentage, Some(50));

    let removed = app.delete(2).expect("item 2 is there");
    assert_eq!(removed.id, 2);
    assert_eq!(removed.title, "call mom");
    assert_eq!(ids(&app), vec![1]);
}

#[test]
fn empty_list_starts_numbering_at_one() {
    let app = TodoApp::new(Vec::new());
    assert_eq!(app.next_id(), 1);
    assert!(app.list().is_empty());
}

#[test]
fn stored_items_are_taken_up_in_order() {
    let app = TodoApp::new(vec![item(4, "a", false), item(2, "b", true), item(9, "c", false)]);
    assert_eq!(ids(&app), vec![4, 2, 9]);
    assert_eq!(app.next_id(), 10);
    assert_eq!(app.list()[1].title, "b");
    assert!(app.list()[1].completed);
}

#[test]
fn highest_id_is_the_largest_or_zero() {
    assert_eq!(highest_id(&Vec::new()), 0);
    assert_eq!(highest_id(&vec![item(3, "a", false)]), 3);
    assert_eq!(highest_id(&vec![item(3, "a", false), item(8, "b", false), item(5, "c", false)]), 8);
    assert_eq!(highest_id(&vec![item(0, "a", false)]), 0);
}

#[test]
fn added_identifiers_grow_by_one_and_never_repeat() {
    let mut app = TodoApp::new(vec![item(5, "old", false)]);
    let mut seen = Vec::new();
    for n in 0..20 {
        let created = app.add_at(format!("task {}", n), at(n));
        seen.push(created.id);
    }
    for k in 0..seen.len() {
        assert_eq!(seen[k], 6 + k);
    }
    assert_eq!(app.next_id(), 26);
    assert_eq!(app.list().len(), 21);
    assert_eq!(app.list()[0].id, 5);
}

#[test]
fn identifiers_are_not_reused_after_a_delete() {
    let mut app = TodoApp::new(Vec::new());
    app.add_at("a".to_string(), at(1));
    app.add_at("b".to_string(), at(2));
    assert!(app.delete(2).is_some());
    let c = app.add_at("c".to_string(), at(3));
    assert_eq!(c.id, 3);
    assert_eq!(ids(&app), vec![1, 3]);
}

#[test]
fn add_at_appends_a_pending_item_with_the_given_time() {
    let mut app = TodoApp::new(vec![item(1, "first", true)]);
    let created = app.add_at("second".to_string(), at(77));
    assert_eq!(created.id, 2);
    assert_eq!(created.title, "second");
    assert!(!created.completed);
    assert_eq!(created.created_at, at(77));
    assert_eq!(created.updated_at, at(77));
    let last = &app.list()[1];
    assert_eq!(last.id, 2);
    assert_eq!(last.title, "second");
    assert_eq!(last.created_at, at(77));
    assert!(app.list()[0].completed);
}

#[test]
fn position_finds_the_first_match() {
    let app = TodoApp::new(vec![item(4, "a", false), item(2, "b", false), item(4, "c", false)]);
    assert_eq!(app.position(4), Some(0));
    assert_eq!(app.position(2), Some(1));
    assert_eq!(app.position(3), None);
}

#[test]
fn toggle_twice_restores_the_completion_state() {
    let mut app = TodoApp::new(vec![item(1, "a", false), item(2, "b", true)]);
    let once = app.toggle_at(2, at(300)).expect("present");
    assert!(!once.completed);
    assert_eq!(once.updated_at, at(300));
    let twice = app.toggle_at(2, at(400)).expect("present");
    assert!(twice.completed);
    assert_eq!(twice.updated_at, at(400));
    assert!(app.list()[1].completed);
    assert_eq!(app.list()[1].updated_at, at(400));
    assert_eq!(app.list()[1].created_at, at(100));
    assert!(!app.list()[0].completed);
    assert_eq!(app.list()[0].updated_at, at(100));
}

#[test]
fn toggle_with_the_clock_never_turns_time_back_on_a_steady_clock() {
    let mut app = TodoApp::new(Vec::new());
    let created = app.add("a".to_string());
    let once = app.toggle(created.id).expect("present");
    let twice = app.toggle(created.id).expect("present");
    assert!(once.completed);
    assert!(!twice.completed);
    assert_eq!(twice.created_at, created.created_at);
}

#[test]
fn toggle_of_an_unknown_identifier_changes_nothing() {
    let mut app = TodoApp::new(vec![item(1, "a", false)]);
    assert!(app.toggle_at(5, at(300)).is_none());
    assert!(app.toggle(6).is_none());
    assert_eq!(ids(&app), vec![1]);
    assert!(!app.list()[0].completed);
    assert_eq!(app.list()[0].updated_at, at(100));
    assert_eq!(app.next_id(), 2);
}

#[test]
fn toggle_touches_only_the_first_of_two_items_with_one_identifier() {
    let mut app = TodoApp::new(vec![item(3, "a", false), item(3, "b", false)]);
    let toggled = app.toggle_at(3, at(300)).expect("present");
    assert_eq!(toggled.title, "a");
    assert!(app.list()[0].completed);
    assert!(!app.list()[1].completed);
}

#[test]
fn delete_takes_out_one_item_and_keeps_the_order() {
    let mut app = TodoApp::new(vec![
        item(1, "a", false),
        item(2, "b", true),
        item(3, "c", false),
        item(4, "d", false),
    ]);
    let removed = app.delete(2).expect("present");
    assert_eq!(removed.id, 2);
    assert_eq!(removed.title, "b");
    assert!(removed.completed);
    assert_eq!(ids(&app), vec![1, 3, 4]);
    assert_eq!(app.position(2), None);
    assert_eq!(app.next_id(), 5);
}

#[test]
fn delete_of_an_unknown_identifier_changes_nothing() {
    let mut app = TodoApp::new(vec![item(1, "a", false), item(2, "b", false)]);
    assert!(app.delete(9).is_none());
    assert_eq!(ids(&app), vec![1, 2]);
}

#[test]
fn delete_takes_out_only_the_first_of_two_items_with_one_identifier() {
    let mut app = TodoApp::new(vec![item(3, "a", false), item(1, "x", false), item(3, "b", false)]);
    let removed = app.delete(3).expect("present");
    assert_eq!(removed.title, "a");
    assert_eq!(ids(&app), vec![1, 3]);
    assert_eq!(app.list()[1].title, "b");
}

#[test]
fn clear_completed_keeps_pending_items_in_order() {
    let mut app = TodoApp::new(vec![
        item(1, "a", true),
        item(2, "b", false),
        item(3, "c", true),
        item(4, "d", false),
        item(5, "e", true),
    ]);
    assert_eq!(app.clear_completed(), 3);
    assert_eq!(ids(&app), vec![2, 4]);
    for todo in app.list() {
        assert!(!todo.completed);
    }
    assert_eq!(app.stats().completed, 0);
    assert_eq!(app.next_id(), 6);
}

#[test]
fn clear_completed_without_completed_items_removes_nothing() {
    let mut app = TodoApp::new(vec![item(1, "a", false), item(2, "b", false)]);
    assert_eq!(app.clear_completed(), 0);
    assert_eq!(ids(&app), vec![1, 2]);
}

#[test]
fn clear_completed_may_empty_the_list() {
    let mut app = TodoApp::new(vec![item(1, "a", true), item(2, "b", true)]);
    assert_eq!(app.clear_completed(), 2);
    assert!(app.list().is_empty());
    assert_eq!(app.next_id(), 3);
    assert_eq!(app.clear_completed(), 0);
}

#[test]
fn taking_up_a_list_again_numbers_from_the_largest_identifier_left() {
    let mut app = TodoApp::new(Vec::new());
    app.add_at("a".to_string(), at(1));
    app.add_at("b".to_string(), at(2));
    app.add_at("c".to_string(), at(3));
    assert!(app.delete(3).is_some());
    assert_eq!(app.next_id(), 4);

    let mut stored = Vec::new();
    for todo in app.list() {
        stored.push(todo.duplicate());
    }
    let mut again = TodoApp::new(stored);
    assert_eq!(again.next_id(), 3);
    assert_eq!(again.add_at("d".to_string(), at(4)).id, 3);
    assert_eq!(ids(&again), vec![1, 2, 3]);
}

#[test]
fn a_list_just_taken_up_has_nothing_to_save() {
    assert!(!TodoApp::new(Vec::new()).needs_saving());
    assert!(!TodoApp::new(vec![item(1, "a", true)]).needs_saving());
}

#[test]
fn adding_asks_for_a_save() {
    let mut app = TodoApp::new(Vec::new());
    app.add("a".to_string());
    assert!(app.needs_saving());
    app.mark_saved();
    assert!(!app.needs_saving());
    app.add_at("b".to_string(), at(1));
    assert!(app.needs_saving());
}

#[test]
fn toggling_asks_for_a_save_only_when_the_item_is_found() {
    let mut app = TodoApp::new(vec![item(1, "a", false)]);
    assert!(app.toggle(2).is_none());
    assert!(!app.needs_saving());
    assert!(app.toggle_at(3, at(5)).is_none());
    assert!(!app.needs_saving());
    assert!(app.toggle(1).is_some());
    assert!(app.needs_saving());
}

#[test]
fn deleting_asks_for_a_save_only_when_the_item_is_found() {
    let mut app = TodoApp::new(vec![item(1, "a", false)]);
    assert!(app.delete(2).is_none());
    assert!(!app.needs_saving());
    assert!(app.delete(1).is_some());
    assert!(app.needs_saving());
}

#[test]
fn clearing_asks_for_a_save_only_when_something_was_removed() {
    let mut app = TodoApp::new(vec![item(1, "a", false), item(2, "b", true)]);
    app.mark_saved();
    assert_eq!(app.clear_completed(), 1);
    assert!(app.needs_saving());
    app.mark_saved();
    assert_eq!(app.clear_completed(), 0);
    assert!(!app.needs_saving());
}

#[test]
fn an_operation_that_changes_nothing_keeps_an_open_request_to_save() {
    let mut app = TodoApp::new(Vec::new());
    app.add_at("a".to_string(), at(1));
    assert!(app.needs_saving());
    assert!(app.toggle(9).is_none());
    assert!(app.delete(9).is_none());
    assert_eq!(app.clear_completed(), 0);
    assert!(app.needs_saving());
}

#[test]
fn mark_saved_leaves_the_items_alone() {
    let mut app = TodoApp::new(Vec::new());
    app.add_at("a".to_string(), at(1));
    app.mark_saved();
    assert_eq!(ids(&app), vec![1]);
    assert_eq!(app.next_id(), 2);
    assert_eq!(app.list()[0].title, "a");
}

#[test]
fn reading_the_list_asks_for_no_save() {
    let app = TodoApp::new(vec![item(1, "a", true)]);
    let _ = app.list();
    let _ = app.stats();
    let _ = app.position(1);
    let _ = app.next_id();
    assert!(!app.needs_saving());
}
