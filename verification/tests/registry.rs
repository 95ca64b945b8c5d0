use keydispatch::{
    Action, Effect, EditorMode, EditorState, KeyCode, KeyCombination, KeyCombinationHandler,
    KeyCombinationRegister, KeyModifiers,
};

fn plain(c: char) -> KeyCombination {
    KeyCombination::one_key(KeyCode::Char(c), KeyModifiers::none())
}

#[test]
fn overwrite_leaves_only_latest_action() {
    let mut h = KeyCombinationHandler::new(Vec::new(), false);
    h.insert(
        KeyCombinationRegister::n(vec![plain('q')]),
        Action::Atomic(Effect::Undo),
    );
    h.insert(
        KeyCombinationRegister::n(vec![plain('q')]),
        Action::Atomic(Effect::Redo),
    );
    let key = KeyCombinationRegister::n(vec![plain('q')]);
    assert_eq!(h.lookup_action(&key), Some(&Action::Atomic(Effect::Redo)));
}

#[test]
fn overwritten_action_never_fires() {
    let mut h = KeyCombinationHandler::new(Vec::new(), false);
    h.insert(
        KeyCombinationRegister::n(vec![plain('q')]),
        Action::Atomic(Effect::MoveForward(1)),
    );
    h.insert(
        KeyCombinationRegister::n(vec![plain('q')]),
        Action::Atomic(Effect::MoveToEndOfLine),
    );
    let mut st = EditorState::new(EditorMode::Normal);
    st.lines = vec!["abcde".chars().collect()];
    h.on_event(&plain('q'), &mut st);
    // the replacement moved to the end of the line, not one column forward
    assert_eq!(st.col, 5);
}

#[test]
fn remove_unregisters_the_action() {
    let mut h = KeyCombinationHandler::new(Vec::new(), false);
    h.insert(
        KeyCombinationRegister::v(vec![plain('q')]),
        Action::Atomic(Effect::Paste),
    );
    let key = KeyCombinationRegister::v(vec![plain('q')]);
    assert!(h.lookup_action(&key).is_some());
    h.remove(&key);
    assert_eq!(h.lookup_action(&key), None);
}

#[test]
fn remove_of_absent_key_is_a_noop() {
    let mut h = KeyCombinationHandler::new(Vec::new(), true);
    let key = KeyCombinationRegister::s(vec![plain('q')]);
    h.remove(&key);
    assert_eq!(h.lookup_action(&key), None);
}

#[test]
fn extend_registers_in_order_with_overwrite() {
    let mut h = KeyCombinationHandler::new(Vec::new(), false);
    h.extend(vec![
        (
            KeyCombinationRegister::n(vec![plain('a')]),
            Action::Atomic(Effect::Undo),
        ),
        (
            KeyCombinationRegister::n(vec![plain('b')]),
            Action::Atomic(Effect::Redo),
        ),
        (
            KeyCombinationRegister::n(vec![plain('a')]),
            Action::Atomic(Effect::Paste),
        ),
    ]);
    let a = KeyCombinationRegister::n(vec![plain('a')]);
    let b = KeyCombinationRegister::n(vec![plain('b')]);
    assert_eq!(h.lookup_action(&a), Some(&Action::Atomic(Effect::Paste)));
    assert_eq!(h.lookup_action(&b), Some(&Action::Atomic(Effect::Redo)));
}

#[test]
fn same_chord_in_another_mode_is_another_key() {
    let mut h = KeyCombinationHandler::new(Vec::new(), false);
    h.insert(
        KeyCombinationRegister::n(vec![plain('y')]),
        Action::Atomic(Effect::Undo),
    );
    let visual = KeyCombinationRegister::v(vec![plain('y')]);
    assert_eq!(h.lookup_action(&visual), None);
}

#[test]
fn capture_policy_is_fixed_at_construction() {
    let vim = KeyCombinationHandler::vim_mode();
    let emacs = KeyCombinationHandler::emacs_mode();
    assert!(!vim.captures_on_insert());
    assert!(emacs.captures_on_insert());
    let default = KeyCombinationHandler::default();
    assert!(!default.captures_on_insert());
}
