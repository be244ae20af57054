use todo_tui::geometry::{centered_rect, Area};
use todo_tui::todo::{TodoList, TodoStatus};
use todo_tui::tui::{InputEvent, KeyCode, KeyEvent, KeyKind, Screen, TuiApp, CONTROL};

fn press(code: KeyCode, modifiers: u8) -> InputEvent {
    InputEvent::Key(KeyEvent { code, kind: KeyKind::Press, modifiers })
}

fn release(code: KeyCode) -> InputEvent {
    InputEvent::Key(KeyEvent { code, kind: KeyKind::Release, modifiers: 0 })
}

#[test]
fn starts_running_on_main() {
    let app = TuiApp::new();
    assert!(app.is_running());
    assert_eq!(app.current_screen(), Screen::Main);
    assert_eq!(app.todo_list().title(), "Default");
}

#[test]
fn n_opens_entry_and_q_quits() {
    let mut app = TuiApp::new();
    app.handle_event(press(KeyCode::Char('n'), 0));
    assert_eq!(app.current_screen(), Screen::NewTodoEntry);
    assert!(app.is_running());
    app.handle_event(press(KeyCode::Char('q'), 0));
    assert!(!app.is_running());
    assert_eq!(app.current_screen(), Screen::NewTodoEntry);
}

#[test]
fn q_quits_from_main() {
    let mut app = TuiApp::new();
    app.handle_event(press(KeyCode::Char('q'), 0));
    assert!(!app.is_running());
    assert_eq!(app.current_screen(), Screen::Main);
}

#[test]
fn release_changes_nothing() {
    let mut app = TuiApp::new();
    app.handle_event(release(KeyCode::Char('n')));
    assert_eq!(app.current_screen(), Screen::Main);
    app.handle_event(release(KeyCode::Char('q')));
    app.handle_event(release(KeyCode::Esc));
    assert!(app.is_running());
    app.handle_event(press(KeyCode::Char('n'), 0));
    app.handle_event(release(KeyCode::Char('q')));
    assert!(app.is_running());
    assert_eq!(app.current_screen(), Screen::NewTodoEntry);
}

#[test]
fn escape_and_control_c_quit() {
    let mut app = TuiApp::new();
    app.handle_event(press(KeyCode::Esc, 0));
    assert!(!app.is_running());
    let mut app = TuiApp::new();
    app.handle_event(press(KeyCode::Char('c'), CONTROL));
    assert!(!app.is_running());
    let mut app = TuiApp::new();
    app.handle_event(press(KeyCode::Char('C'), CONTROL));
    assert!(!app.is_running());
}

#[test]
fn c_without_only_control_is_ignored() {
    let mut app = TuiApp::new();
    app.handle_event(press(KeyCode::Char('c'), 0));
    app.handle_event(press(KeyCode::Char('C'), CONTROL | 1));
    assert!(app.is_running());
    assert_eq!(app.current_screen(), Screen::Main);
}

#[test]
fn other_events_are_ignored() {
    let mut app = TuiApp::new();
    app.handle_event(InputEvent::Mouse);
    app.handle_event(InputEvent::Resize(80, 24));
    app.handle_event(InputEvent::Other);
    app.handle_event(press(KeyCode::Other, 0));
    app.handle_event(press(KeyCode::Char('x'), 0));
    assert!(app.is_running());
    assert_eq!(app.current_screen(), Screen::Main);
}

#[test]
fn keys_leave_store_alone() {
    let mut list = TodoList::new("Work");
    list.add("a", TodoStatus::Pending);
    let mut app = TuiApp::with_list(list);
    app.handle_event(press(KeyCode::Char('n'), 0));
    app.handle_event(press(KeyCode::Char('q'), 0));
    assert_eq!(app.todo_list().len(), 1);
    assert_eq!(app.todo_list().title(), "Work");
}

#[test]
fn popup_only_on_entry_screen() {
    let surface = Area { x: 0, y: 0, width: 100, height: 100 };
    let mut app = TuiApp::new();
    assert_eq!(app.popup_area(surface), None);
    app.handle_event(press(KeyCode::Char('n'), 0));
    assert_eq!(app.popup_area(surface), Some(centered_rect(60, 25, surface)));
}
