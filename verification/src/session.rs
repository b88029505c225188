//! The interactive session's decision logic: from the current input mode
//! and a key event to the next mode and the action the front end performs.
use vstd::prelude::*;

verus! {

/// The two input modes of the interactive session.
#[derive(Debug, PartialEq, Eq, Structural, Clone, Copy)]
pub enum InputMode {
    /// Keys select commands; nothing is typed into the input box.
    Normal,
    /// Keys are forwarded to the input box.
    Editing,
}

/// A key event, reduced to what the decision depends on.
#[derive(Debug, PartialEq, Eq, Structural, Clone, Copy)]
pub enum KeyInput {
    /// A printable character key.
    Character(char),
    /// The enter key.
    Enter,
    /// The escape key.
    Escape,
    /// Any other key.
    Other,
}

/// What the front end does next; it performs the action and reads the
/// next key event.
#[derive(Debug, PartialEq, Eq, Structural, Clone, Copy)]
pub enum UiAction {
    /// Leave the session.
    Quit,
    /// Take the typed identifier, look it up and record the outcome.
    SubmitLookup,
    /// Hand the key to the input box.
    ForwardToInput,
    /// Do nothing.
    Ignore,
}

/// The session's transition function: in normal mode, `e` starts editing
/// and `q` quits; in editing mode, enter submits a lookup, escape returns
/// to normal mode, and any other key goes to the input box.
pub open spec fn session_step(mode: InputMode, key: KeyInput) -> (InputMode, UiAction) {
    match mode {
        InputMode::Normal => match key {
            KeyInput::Character(c) => if c == 'e' {
                (InputMode::Editing, UiAction::Ignore)
            } else if c == 'q' {
                (InputMode::Normal, UiAction::Quit)
            } else {
                (InputMode::Normal, UiAction::Ignore)
            },
            _ => (InputMode::Normal, UiAction::Ignore),
        },
        InputMode::Editing => match key {
            KeyInput::Enter => (InputMode::Editing, UiAction::SubmitLookup),
            KeyInput::Escape => (InputMode::Normal, UiAction::Ignore),
            _ => (InputMode::Editing, UiAction::ForwardToInput),
        },
    }
}

/// Computes `session_step`.
pub fn next_session_state(mode: InputMode, key: KeyInput) -> (r: (InputMode, UiAction))
    ensures
        r == session_step(mode, key),
{
    match mode {
        InputMode::Normal => match key {
            KeyInput::Character(c) => if c == 'e' {
                (InputMode::Editing, UiAction::Ignore)
            } else if c == 'q' {
                (InputMode::Normal, UiAction::Quit)
            } else {
                (InputMode::Normal, UiAction::Ignore)
            },
            _ => (InputMode::Normal, UiAction::Ignore),
        },
        InputMode::Editing => match key {
            KeyInput::Enter => (InputMode::Editing, UiAction::SubmitLookup),
            KeyInput::Escape => (InputMode::Normal, UiAction::Ignore),
            _ => (InputMode::Editing, UiAction::ForwardToInput),
        },
    }
}

} // verus!
