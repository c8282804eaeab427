use rupervise::machine::{Action, Key, Mode, State, handle_key, is_svc_command};

fn type_text(mut state: State, text: &str, n: usize) -> (State, Action) {
    let mut last = Action::Stay;
    for c in text.chars() {
        let (next, act) = handle_key(&Key::Char(c), &state, n);
        state = next;
        last = act;
    }
    (state, last)
}

#[test]
fn command_letter_enters_command_mode_and_keeps_selection() {
    let mut state = State::initial();
    state.highlighted = Some(2);
    let (next, act) = handle_key(&Key::Char('d'), &state, 3);
    assert_eq!(Mode::Command, next.mode);
    assert_eq!('d', next.command);
    assert_eq!(Some(2), next.highlighted);
    assert_eq!(Action::Stay, act);
    // the state handed in was not touched
    assert_eq!(Mode::Normal, state.mode);
    assert_eq!(Some(2), state.highlighted);
}

#[test]
fn digit_key_highlights_that_row() {
    let state = State::initial();
    let (next, act) = handle_key(&Key::Char('7'), &state, 3);
    assert_eq!(Mode::Normal, next.mode);
    assert_eq!(Some(7), next.highlighted);
    assert_eq!(Action::Stay, act);
}

#[test]
fn unmapped_key_changes_nothing() {
    let state = State::initial();
    let (next, act) = handle_key(&Key::Char('z'), &state, 3);
    assert_eq!(Mode::Normal, next.mode);
    assert_eq!(None, next.highlighted);
    assert_eq!(state.buffer, next.buffer);
    assert_eq!(Action::Stay, act);
}

#[test]
fn quit_key_stops_from_either_mode() {
    let state = State::initial();
    let (_, act) = handle_key(&Key::Ctrl('c'), &state, 3);
    assert_eq!(Action::Quit, act);
    let (cmd_state, _) = handle_key(&Key::Char('k'), &state, 3);
    let (_, act) = handle_key(&Key::Ctrl('c'), &cmd_state, 3);
    assert_eq!(Action::Quit, act);
}

#[test]
fn confirmed_selection_dispatches_to_each_resolved_index() {
    let state = State::initial();
    let (state, _) = handle_key(&Key::Char('t'), &state, 3);
    assert_eq!(Mode::Command, state.mode);
    let (state, _) = type_text(state, "0,2", 3);
    assert_eq!("0,2", state.buffer);
    let (state, act) = handle_key(&Key::Enter, &state, 3);
    assert_eq!(Mode::Normal, state.mode);
    assert_eq!("", state.buffer);
    match act {
        Action::Dispatch { command, indices } => {
            assert_eq!('t', command);
            // both targets are listed in the one dispatch request, so a
            // failure on the first cannot hide the second
            assert_eq!(vec![0, 2], indices);
        }
        other => panic!("expected a dispatch, got {:?}", other),
    }
}

#[test]
fn open_selection_dispatches_through_last_service() {
    let state = State::initial();
    let (state, _) = handle_key(&Key::Char('p'), &state, 5);
    let (state, _) = type_text(state, "1-", 5);
    let (_, act) = handle_key(&Key::Enter, &state, 5);
    match act {
        Action::Dispatch { indices, .. } => assert_eq!(vec![1, 2, 3, 4], indices),
        other => panic!("expected a dispatch, got {:?}", other),
    }
}

#[test]
fn command_alphabet_is_fixed() {
    for c in ['i', 't', 'd', 'k', 'p', 'c', 'o', 'x'] {
        assert!(is_svc_command(c));
    }
    assert!(!is_svc_command('z'));
    assert!(!is_svc_command('1'));
}
