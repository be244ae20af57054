use crate::geometry::{centered_rect, centered_area, Area};
use crate::todo::{list_wf, TodoList, TodoListView};
use vstd::prelude::*;

verus! {

/// The modifier bit of the Control key in `KeyEvent::modifiers`.
pub const CONTROL: u8 = 0b0000_0010;

/// Width of the new-todo prompt, in hundredths of the surface.
pub const PROMPT_PERCENT_X: u16 = 60;

/// Height of the new-todo prompt, in hundredths of the surface.
pub const PROMPT_PERCENT_Y: u16 = 25;

/// The screen that is active: what is drawn and how keys are read.
#[derive(Clone, Copy, Debug, PartialEq, Eq, Structural)]
pub enum Screen {
    Main,
    NewTodoEntry,
    RemoveTodoSelection,
}

/// The key of a key event.
#[derive(Clone, Copy, Debug, PartialEq, Eq, Structural)]
pub enum KeyCode {
    Char(char),
    Esc,
    Other,
}

/// Whether a key went down, repeated or came up.
#[derive(Clone, Copy, Debug, PartialEq, Eq, Structural)]
pub enum KeyKind {
    Press,
    Repeat,
    Release,
}

/// A key event: the key, its kind, and the held modifiers as a bit set
/// (Shift 1, Control 2, Alt 4, Super 8, Hyper 16, Meta 32).
#[derive(Clone, Copy, Debug, PartialEq, Eq, Structural)]
pub struct KeyEvent {
    pub code: KeyCode,
    pub kind: KeyKind,
    pub modifiers: u8,
}

/// An input event as the terminal delivers it.
#[derive(Clone, Copy, Debug, PartialEq, Eq, Structural)]
pub enum InputEvent {
    Key(KeyEvent),
    Mouse,
    Resize(u16, u16),
    Other,
}

/// The abstract state of the application.
pub struct AppView {
    pub running: bool,
    pub screen: Screen,
    pub store: TodoListView,
}

/// Esc or `q` with any modifiers, or Control with `c` or `C` and nothing else.
pub open spec fn is_quit_key(key: KeyEvent) -> bool {
    key.code == KeyCode::Esc || key.code == KeyCode::Char('q') || (key.modifiers == CONTROL && (
    key.code == KeyCode::Char('c') || key.code == KeyCode::Char('C')))
}

/// The state after a pressed key: a quit key stops the run, `n` on the main
/// screen opens the new-todo entry, and every other key changes nothing.
pub open spec fn key_step(s: AppView, key: KeyEvent) -> AppView {
    if is_quit_key(key) {
        AppView { running: false, screen: s.screen, store: s.store }
    } else if s.screen == Screen::Main && key.code == KeyCode::Char('n') {
        AppView { running: s.running, screen: Screen::NewTodoEntry, store: s.store }
    } else {
        s
    }
}

/// The state after an input event: only key presses count.
pub open spec fn event_step(s: AppView, event: InputEvent) -> AppView {
    match event {
        InputEvent::Key(key) => if key.kind == KeyKind::Press {
            key_step(s, key)
        } else {
            s
        },
        _ => s,
    }
}

/// A key event that is not a press leaves every state as it is.
pub proof fn lemma_non_press_ignored(s: AppView, key: KeyEvent)
    requires
        key.kind != KeyKind::Press,
    ensures
        event_step(s, InputEvent::Key(key)) == s,
{
}

/// Pressing `q` stops the run from every screen and changes nothing else.
pub proof fn lemma_q_quits(s: AppView, modifiers: u8)
    ensures
        event_step(s, InputEvent::Key(KeyEvent { code: KeyCode::Char('q'), kind: KeyKind::Press, modifiers }))
            == (AppView { running: false, screen: s.screen, store: s.store }),
{
}

/// The application: whether it runs, the active screen, and the todo store.
pub struct TuiApp {
    running: bool,
    current_screen: Screen,
    todo_list: TodoList,
}

impl View for TuiApp {
    type V = AppView;

    closed spec fn view(&self) -> AppView {
        AppView { running: self.running, screen: self.current_screen, store: self.todo_list@ }
    }
}

impl TuiApp {
    /// The store's invariant holds.
    pub open spec fn wf(&self) -> bool {
        list_wf(self@.store)
    }

    /// A running application on the main screen with an empty store titled
    /// "Default".
    pub fn new() -> (r: TuiApp)
        ensures
            r.wf(),
            r@.running,
            r@.screen == Screen::Main,
            r@.store.title == "Default"@,
            r@.store.todos.len() == 0,
    {
        TuiApp { running: true, current_screen: Screen::Main, todo_list: TodoList::default() }
    }

    /// A running application on the main screen with the given store.
    pub fn with_list(todo_list: TodoList) -> (r: TuiApp)
        requires
            todo_list.wf(),
        ensures
            r.wf(),
            r@.running,
            r@.screen == Screen::Main,
            r@.store == todo_list@,
    {
        TuiApp { running: true, current_screen: Screen::Main, todo_list }
    }

    /// Whether the run loop should go on.
    pub fn is_running(&self) -> (r: bool)
        ensures
            r == self@.running,
    {
        self.running
    }

    /// The active screen.
    pub fn current_screen(&self) -> (r: Screen)
        ensures
            r == self@.screen,
    {
        self.current_screen
    }

    /// The todo store, to read.
    pub fn todo_list(&self) -> (r: &TodoList)
        ensures
            r@ == self@.store,
    {
        &self.todo_list
    }

    /// Asks the run loop to stop.
    pub fn quit(&mut self)
        ensures
            final(self)@ == (AppView { running: false, screen: old(self)@.screen, store: old(self)@.store }),
    {
        self.running = false;
    }

    /// Applies a key press to the state.
    pub fn on_key_event(&mut self, key: KeyEvent)
        ensures
            final(self)@ == key_step(old(self)@, key),
    {
        let quit = match key.code {
            KeyCode::Esc => true,
            KeyCode::Char(c) => c == 'q' || (key.modifiers == CONTROL && (c == 'c' || c == 'C')),
            KeyCode::Other => false,
        };
        if quit {
            self.quit();
        } else if self.current_screen == Screen::Main && key.code == KeyCode::Char('n') {
            self.current_screen = Screen::NewTodoEntry;
        }
    }

    /// Applies an input event to the state: key presses go to
    /// `on_key_event`, everything else is ignored.
    pub fn handle_event(&mut self, event: InputEvent)
        ensures
            final(self)@ == event_step(old(self)@, event),
    {
        match event {
            InputEvent::Key(key) => {
                if key.kind == KeyKind::Press {
                    self.on_key_event(key);
                }
            },
            _ => {},
        }
    }

    /// Where the modal overlay of the active screen goes on a surface of the
    /// given size, if that screen has one: the new-todo prompt, centered.
    pub fn popup_area(&self, surface: Area) -> (r: Option<Area>)
        ensures
            r == (if self@.screen == Screen::NewTodoEntry {
                Some(centered_area(PROMPT_PERCENT_X, PROMPT_PERCENT_Y, surface))
            } else {
                None
            }),
    {
        match self.current_screen {
            Screen::NewTodoEntry => Some(centered_rect(PROMPT_PERCENT_X, PROMPT_PERCENT_Y, surface)),
            _ => None,
        }
    }
}

} // verus!
