use oui_lookup::session::{next_session_state, InputMode, KeyInput, UiAction};

#[test]
fn normal_mode_starts_editing() {
    let (mode, action) = next_session_state(InputMode::Normal, KeyInput::Character('e'));
    assert_eq!(mode, InputMode::Editing);
    assert_eq!(action, UiAction::Ignore);
}

#[test]
fn normal_mode_quits() {
    let (mode, action) = next_session_state(InputMode::Normal, KeyInput::Character('q'));
    assert_eq!(mode, InputMode::Normal);
    assert_eq!(action, UiAction::Quit);
}

#[test]
fn normal_mode_ignores_other_keys() {
    let (mode, action) = next_session_state(InputMode::Normal, KeyInput::Character('x'));
    assert_eq!(mode, InputMode::Normal);
    assert_eq!(action, UiAction::Ignore);
    let (mode2, action2) = next_session_state(InputMode::Normal, KeyInput::Enter);
    assert_eq!(mode2, InputMode::Normal);
    assert_eq!(action2, UiAction::Ignore);
}

#[test]
fn editing_mode_submits_on_enter() {
    let (mode, action) = next_session_state(InputMode::Editing, KeyInput::Enter);
    assert_eq!(mode, InputMode::Editing);
    assert_eq!(action, UiAction::SubmitLookup);
}

#[test]
fn editing_mode_stops_on_escape() {
    let (mode, action) = next_session_state(InputMode::Editing, KeyInput::Escape);
    assert_eq!(mode, InputMode::Normal);
    assert_eq!(action, UiAction::Ignore);
}

#[test]
fn editing_mode_forwards_other_keys() {
    let (mode, action) = next_session_state(InputMode::Editing, KeyInput::Character('a'));
    assert_eq!(mode, InputMode::Editing);
    assert_eq!(action, UiAction::ForwardToInput);
    let (mode2, action2) = next_session_state(InputMode::Editing, KeyInput::Other);
    assert_eq!(mode2, InputMode::Editing);
    assert_eq!(action2, UiAction::ForwardToInput);
}
