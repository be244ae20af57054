use todo_tui::todo::{NotFound, Todo, TodoList, TodoStatus};

fn titles(v: &[&Todo]) -> Vec<String> {
    v.iter().map(|t| t.title.clone()).collect()
}

#[test]
fn work_list_scenario() {
    let mut list = TodoList::new("Work");
    assert_eq!(list.len(), 0);
    let milk = list.add("Buy milk", TodoStatus::Pending);
    assert_eq!(list.len(), 1);
    let pending = list.get_by_status(TodoStatus::Pending);
    assert_eq!(pending.len(), 1);
    assert_eq!(pending[0].title, "Buy milk");
    list.add("Call bank", TodoStatus::Done);
    assert_eq!(list.len(), 2);
    assert_eq!(list.remove(milk), Ok(()));
    assert_eq!(list.len(), 1);
    assert_eq!(list.get(0).title, "Call bank");
}

#[test]
fn statuses_cover_added_todos_in_order() {
    let mut list = TodoList::new("Mixed");
    let a = list.add("a", TodoStatus::Pending);
    let b = list.add("b", TodoStatus::Done);
    let c = list.add("c", TodoStatus::InProgress);
    let d = list.add("d", TodoStatus::Pending);
    assert_eq!(titles(&list.get_by_status(TodoStatus::Pending)), vec!["a", "d"]);
    assert_eq!(titles(&list.get_by_status(TodoStatus::InProgress)), vec!["c"]);
    assert_eq!(titles(&list.get_by_status(TodoStatus::Done)), vec!["b"]);
    let ids = [a, b, c, d];
    for i in 0..ids.len() {
        for j in 0..ids.len() {
            if i != j {
                assert_ne!(ids[i], ids[j]);
            }
        }
    }
    assert_eq!(list.get(3).id(), d);
}

#[test]
fn empty_status_view() {
    let mut list = TodoList::new("Empty");
    assert!(list.get_by_status(TodoStatus::Done).is_empty());
    list.add("x", TodoStatus::Pending);
    assert!(list.get_by_status(TodoStatus::Done).is_empty());
}

#[test]
fn remove_absent_id_is_not_found() {
    let mut list = TodoList::new("Work");
    assert_eq!(list.remove(7), Err(NotFound));
    let a = list.add("a", TodoStatus::Pending);
    let b = list.add("b", TodoStatus::Pending);
    let missing = if a.wrapping_add(1) != b { a.wrapping_add(1) } else { a.wrapping_add(2) };
    assert_eq!(list.remove(missing), Err(NotFound));
    assert_eq!(list.len(), 2);
    assert_eq!(list.get(0).id(), a);
    assert_eq!(list.get(1).id(), b);
}

#[test]
fn remove_keeps_order_of_rest() {
    let mut list = TodoList::new("Work");
    list.add("a", TodoStatus::Pending);
    let b = list.add("b", TodoStatus::Done);
    list.add("c", TodoStatus::Pending);
    assert_eq!(list.remove(b), Ok(()));
    assert_eq!(list.len(), 2);
    assert_eq!(list.get(0).title, "a");
    assert_eq!(list.get(1).title, "c");
    assert!(list.get_by_status(TodoStatus::Done).is_empty());
    assert_eq!(list.remove(b), Err(NotFound));
}

#[test]
fn set_status_changes_only_that_todo() {
    let mut list = TodoList::new("Work");
    let a = list.add("a", TodoStatus::Pending);
    let b = list.add("b", TodoStatus::Pending);
    assert_eq!(list.set_status(b, TodoStatus::Done), Ok(()));
    assert_eq!(list.get(0).id(), a);
    assert_eq!(list.get(0).status, TodoStatus::Pending);
    assert_eq!(list.get(1).id(), b);
    assert_eq!(list.get(1).title, "b");
    assert_eq!(list.get(1).status, TodoStatus::Done);
    assert_eq!(titles(&list.get_by_status(TodoStatus::Done)), vec!["b"]);
    assert_eq!(titles(&list.get_by_status(TodoStatus::Pending)), vec!["a"]);
}

#[test]
fn set_status_absent_id_is_not_found() {
    let mut list = TodoList::new("Work");
    let a = list.add("a", TodoStatus::Pending);
    assert_eq!(list.set_status(a.wrapping_add(1), TodoStatus::Done), Err(NotFound));
    assert_eq!(list.get(0).status, TodoStatus::Pending);
}

#[test]
fn default_list_title() {
    let list = TodoList::default();
    assert_eq!(list.title(), "Default");
    assert_eq!(list.len(), 0);
}

#[test]
fn render_lines_lists_todos() {
    let mut list = TodoList::new("Work");
    for i in 0..10 {
        list.add(&format!("task {}", i), TodoStatus::Pending);
    }
    let lines = list.render_lines();
    assert_eq!(lines.len(), 12);
    assert_eq!(lines[0], "*** Work ***");
    assert_eq!(lines[1], "1. task 0");
    assert_eq!(lines[10], "10. task 9");
    assert_eq!(lines[11], "");
}

#[test]
fn render_lines_of_empty_list() {
    let list = TodoList::new("Home");
    assert_eq!(list.render_lines(), vec!["*** Home ***".to_string(), String::new()]);
}

#[test]
fn new_todo_has_v4_id() {
    let t = Todo::new("x", TodoStatus::InProgress);
    assert_eq!(t.title, "x");
    assert_eq!(t.status, TodoStatus::InProgress);
    assert_eq!((t.id() >> 76) & 0xf, 4);
    assert_eq!((t.id() >> 62) & 0x3, 2);
    let u = Todo::new("x", TodoStatus::InProgress);
    assert_ne!(t.id(), u.id());
}

#[test]
fn views_after_remove_lose_only_that_id() {
    let mut list = TodoList::new("Work");
    list.add("a", TodoStatus::Pending);
    let b = list.add("b", TodoStatus::Pending);
    list.add("c", TodoStatus::Done);
    list.add("d", TodoStatus::Pending);
    assert_eq!(list.remove(b), Ok(()));
    assert_eq!(titles(&list.get_by_status(TodoStatus::Pending)), vec!["a", "d"]);
    assert_eq!(titles(&list.get_by_status(TodoStatus::Done)), vec!["c"]);
}

#[test]
fn set_status_moves_todo_between_views() {
    let mut list = TodoList::new("Work");
    list.add("a", TodoStatus::Pending);
    let b = list.add("b", TodoStatus::Pending);
    list.add("c", TodoStatus::Done);
    assert_eq!(list.set_status(b, TodoStatus::Done), Ok(()));
    assert_eq!(titles(&list.get_by_status(TodoStatus::Pending)), vec!["a"]);
    assert_eq!(titles(&list.get_by_status(TodoStatus::Done)), vec!["b", "c"]);
    assert!(list.get_by_status(TodoStatus::InProgress).is_empty());
}

#[test]
fn ids_are_not_reissued_after_remove() {
    let mut list = TodoList::new("Work");
    let mut seen = Vec::new();
    for i in 0..20 {
        let id = list.add(&format!("t{}", i), TodoStatus::Pending);
        assert!(!seen.contains(&id));
        seen.push(id);
        assert_eq!(list.remove(id), Ok(()));
    }
    assert_eq!(list.len(), 0);
}
