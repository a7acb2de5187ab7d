use vstd::prelude::*;

verus! {

/// The keys the front end distinguishes; any other key is `Other`.
#[derive(Debug, Clone, Copy, PartialEq, Eq, Structural)]
pub enum KeyCode {
    Char(char),
    Enter,
    Esc,
    Up,
    Down,
    Left,
    Right,
    Tab,
    Backspace,
    Other,
}

/// A key press, as far as the bindings read it.
#[derive(Debug, Clone, Copy, PartialEq, Eq, Structural)]
pub struct KeyEvent {
    pub code: KeyCode,
}

impl KeyEvent {
    /// A key press of `code`.
    pub fn new(code: KeyCode) -> (k: Self)
        ensures
            k.code == code,
    {
        KeyEvent { code }
    }
}

/// What the user asks for.
#[derive(Debug, Clone, Copy, PartialEq, Eq, Structural)]
pub enum Action {
    Quit,
    Save,
    CopyHex,
    Delete,
    Clear,
    NavigateUp,
    NavigateDown,
}

/// The action bound to a key, if any.
pub open spec fn binding(code: KeyCode) -> Option<Action> {
    match code {
        KeyCode::Char(c) => if c == 'q' {
            Some(Action::Quit)
        } else if c == 's' {
            Some(Action::Save)
        } else if c == 'y' {
            Some(Action::CopyHex)
        } else if c == 'd' {
            Some(Action::Delete)
        } else if c == 'c' {
            Some(Action::Clear)
        } else {
            None
        },
        KeyCode::Esc => Some(Action::Quit),
        KeyCode::Enter => Some(Action::Save),
        KeyCode::Up => Some(Action::NavigateUp),
        KeyCode::Down => Some(Action::NavigateDown),
        _ => None,
    }
}

impl Action {
    /// `q`/Esc quit, `s`/Enter save, `y` copies, `d` deletes, `c` clears,
    /// the arrows move the selection; every other key means nothing.
    pub fn from_key(key: KeyEvent) -> (a: Option<Self>)
        ensures
            a == binding(key.code),
    {
        match key.code {
            KeyCode::Char('q') => Some(Action::Quit),
            KeyCode::Esc => Some(Action::Quit),
            KeyCode::Char('s') => Some(Action::Save),
            KeyCode::Enter => Some(Action::Save),
            KeyCode::Char('y') => Some(Action::CopyHex),
            KeyCode::Char('d') => Some(Action::Delete),
            KeyCode::Char('c') => Some(Action::Clear),
            KeyCode::Up => Some(Action::NavigateUp),
            KeyCode::Down => Some(Action::NavigateDown),
            _ => None,
        }
    }
}

} // verus!
