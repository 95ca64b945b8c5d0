use keydispatch::{
    Action, Effect, EditorMode, EditorState, KeyCode, KeyCombination, KeyCombinationHandler,
    KeyCombinationRegister, KeyModifiers,
};

fn plain(c: char) -> KeyCombination {
    KeyCombination::one_key(KeyCode::Char(c), KeyModifiers::none())
}

fn ctrl(c: char) -> KeyCombination {
    KeyCombination::one_key(KeyCode::Char(c), KeyModifiers::control())
}

fn key(code: KeyCode) -> KeyCombination {
    KeyCombination::one_key(code, KeyModifiers::none())
}

fn state_with(mode: EditorMode, text: &str) -> EditorState {
    let mut st = EditorState::new(mode);
    st.lines = text.lines().map(|l| l.chars().collect()).collect();
    st
}

fn line(st: &EditorState, row: usize) -> String {
    st.lines[row].iter().collect()
}

#[test]
fn registered_single_key_chord_fires_exactly_once() {
    let mut h = KeyCombinationHandler::new(Vec::new(), false);
    h.insert(
        KeyCombinationRegister::n(vec![plain('q')]),
        Action::Atomic(Effect::MoveForward(1)),
    );
    let mut st = state_with(EditorMode::Normal, "abc");
    h.on_event(&plain('q'), &mut st);
    assert_eq!(st.col, 1);
    assert_eq!(h.pending_keys().len(), 0);
}

#[test]
fn registered_two_key_chord_fires_exactly_once() {
    let mut h = KeyCombinationHandler::new(Vec::new(), false);
    h.insert(
        KeyCombinationRegister::n(vec![plain('q'), plain('w')]),
        Action::Atomic(Effect::DeleteLine(1)),
    );
    let mut st = state_with(EditorMode::Normal, "abc\ndef");
    h.on_event(&plain('q'), &mut st);
    assert_eq!(st.lines.len(), 2);
    assert_eq!(h.pending_keys().len(), 1);
    h.on_event(&plain('w'), &mut st);
    assert_eq!(st.lines.len(), 1);
    assert_eq!(line(&st, 0), "def");
    assert_eq!(h.pending_keys().len(), 0);
}

#[test]
fn unbound_key_is_dropped_without_effect() {
    let mut h = KeyCombinationHandler::vim_mode();
    let mut st = state_with(EditorMode::Normal, "abc");
    st.col = 1;
    h.on_event(&plain('z'), &mut st);
    assert_eq!(st.mode, EditorMode::Normal);
    assert_eq!(st.col, 1);
    assert_eq!(st.row, 0);
    assert_eq!(line(&st, 0), "abc");
    assert_eq!(st.search.len(), 0);
    assert_eq!(st.checkpoints, 0);
    assert_eq!(h.pending_keys().len(), 0);
}

#[test]
fn chord_abandoned_by_a_stray_key_is_dropped() {
    let mut h = KeyCombinationHandler::vim_mode();
    let mut st = state_with(EditorMode::Normal, "abc\ndef");
    h.on_event(&plain('d'), &mut st);
    assert_eq!(h.pending_keys().len(), 1);
    h.on_event(&plain('z'), &mut st);
    assert_eq!(h.pending_keys().len(), 0);
    assert_eq!(st.lines.len(), 2);
    assert_eq!(st.col, 0);
}

#[test]
fn insert_mode_bypasses_a_normal_mode_binding() {
    // vim binds 'a' in Normal mode; while Insert is active the literal
    // character is inserted and the registry is never consulted
    let mut h = KeyCombinationHandler::vim_mode();
    let mut st = state_with(EditorMode::Insert, "bc");
    h.on_event(&plain('a'), &mut st);
    assert_eq!(line(&st, 0), "abc");
    assert_eq!(st.col, 1);
    assert_eq!(st.mode, EditorMode::Insert);
    assert_eq!(st.checkpoints, 0);
    assert_eq!(h.pending_keys().len(), 0);
}

#[test]
fn insert_mode_bypass_applies_even_with_an_insert_mode_binding() {
    let mut h = KeyCombinationHandler::new(Vec::new(), false);
    h.insert(
        KeyCombinationRegister::i(vec![plain('x')]),
        Action::Atomic(Effect::DeleteLine(1)),
    );
    let mut st = state_with(EditorMode::Insert, "abc");
    h.on_event(&plain('x'), &mut st);
    assert_eq!(st.lines.len(), 1);
    assert_eq!(line(&st, 0), "xabc");
}

#[test]
fn tab_is_inserted_literally_in_insert_mode() {
    let mut h = KeyCombinationHandler::vim_mode();
    let mut st = state_with(EditorMode::Insert, "a");
    h.on_event(&key(KeyCode::Tab), &mut st);
    assert_eq!(line(&st, 0), "\ta");
    assert_eq!(st.col, 1);
}

#[test]
fn insert_into_an_empty_buffer_creates_its_line() {
    let mut h = KeyCombinationHandler::vim_mode();
    let mut st = EditorState::new(EditorMode::Insert);
    h.on_event(&plain('x'), &mut st);
    assert_eq!(st.lines.len(), 1);
    assert_eq!(line(&st, 0), "x");
    assert_eq!(st.col, 1);
}

#[test]
fn search_mode_always_appends_to_the_query() {
    let mut h = KeyCombinationHandler::vim_mode();
    // even a chord registered for Search mode cannot shadow a printable key
    h.insert(
        KeyCombinationRegister::s(vec![plain('q')]),
        Action::Atomic(Effect::DeleteLine(1)),
    );
    let mut st = state_with(EditorMode::Search, "abc");
    h.on_event(&plain('q'), &mut st);
    assert_eq!(st.search.iter().collect::<String>(), "q");
    assert_eq!(st.lines.len(), 1);
    assert_eq!(st.mode, EditorMode::Search);
    assert_eq!(h.pending_keys().len(), 0);
}

#[test]
fn composed_action_runs_children_in_declared_order() {
    let action = Action::Composed(vec![
        Action::Atomic(Effect::SwitchMode(EditorMode::Insert)),
        Action::Atomic(Effect::MoveForward(1)),
    ]);
    let mut st = state_with(EditorMode::Normal, "abc");
    action.execute(&mut st);
    assert_eq!(st.mode, EditorMode::Insert);
    assert_eq!(st.col, 1);
}

#[test]
fn vim_delete_line_removes_the_line_and_stays_normal() {
    let mut h = KeyCombinationHandler::vim_mode();
    let mut st = state_with(EditorMode::Normal, "hello world");
    h.on_event(&plain('d'), &mut st);
    h.on_event(&plain('d'), &mut st);
    assert_eq!(st.lines.len(), 0);
    assert_eq!(st.mode, EditorMode::Normal);
    assert_eq!(h.pending_keys().len(), 0);
}

#[test]
fn strict_prefix_of_a_longer_chord_keeps_waiting() {
    // vim registers [g, g] in Normal mode and no [g]-only binding: a single
    // 'g' fires nothing and stays pending (corrected prefix semantics)
    let mut h = KeyCombinationHandler::vim_mode();
    let mut st = state_with(EditorMode::Normal, "ab\ncd");
    st.row = 1;
    h.on_event(&plain('g'), &mut st);
    assert_eq!(h.pending_keys().len(), 1);
    assert_eq!(st.row, 1);
    assert_eq!(st.mode, EditorMode::Normal);
    // completing the chord moves to the first row
    h.on_event(&plain('g'), &mut st);
    assert_eq!(h.pending_keys().len(), 0);
    assert_eq!(st.row, 0);
}

#[test]
fn emacs_forward_chord_moves_without_a_checkpoint() {
    let mut h = KeyCombinationHandler::emacs_mode();
    let mut st = state_with(EditorMode::Insert, "hello world");
    h.on_event(&ctrl('f'), &mut st);
    assert_eq!(st.col, 1);
    assert_eq!(st.checkpoints, 0);
    assert_eq!(line(&st, 0), "hello world");
    assert_eq!(st.mode, EditorMode::Insert);
}

#[test]
fn emacs_literal_insert_takes_a_checkpoint() {
    let mut h = KeyCombinationHandler::emacs_mode();
    let mut st = state_with(EditorMode::Insert, "bc");
    h.on_event(&plain('a'), &mut st);
    assert_eq!(st.checkpoints, 1);
    assert_eq!(line(&st, 0), "abc");
    h.on_event(&plain('z'), &mut st);
    assert_eq!(st.checkpoints, 2);
}

#[test]
fn vim_search_lifecycle_edits_the_query() {
    let mut h = KeyCombinationHandler::vim_mode();
    let mut st = state_with(EditorMode::Normal, "abc");
    h.on_event(&plain('/'), &mut st);
    assert_eq!(st.mode, EditorMode::Search);
    assert_eq!(st.search.len(), 0);
    h.on_event(&plain('h'), &mut st);
    h.on_event(&plain('i'), &mut st);
    assert_eq!(st.search.iter().collect::<String>(), "hi");
    h.on_event(&key(KeyCode::Backspace), &mut st);
    assert_eq!(st.search.iter().collect::<String>(), "h");
    h.on_event(&key(KeyCode::Esc), &mut st);
    assert_eq!(st.mode, EditorMode::Normal);
    assert_eq!(st.search.len(), 0);
}

#[test]
fn emacs_search_lifecycle_returns_to_insert() {
    let mut h = KeyCombinationHandler::emacs_mode();
    let mut st = state_with(EditorMode::Insert, "abc");
    h.on_event(&ctrl('s'), &mut st);
    assert_eq!(st.mode, EditorMode::Search);
    h.on_event(&plain('a'), &mut st);
    assert_eq!(st.search.iter().collect::<String>(), "a");
    h.on_event(&ctrl('g'), &mut st);
    assert_eq!(st.mode, EditorMode::Insert);
    assert_eq!(st.search.len(), 0);
}

#[test]
fn vim_insert_mode_entry_and_literal_typing() {
    let mut h = KeyCombinationHandler::vim_mode();
    let mut st = state_with(EditorMode::Normal, "bc");
    h.on_event(&plain('i'), &mut st);
    assert_eq!(st.mode, EditorMode::Insert);
    h.on_event(&plain('d'), &mut st);
    // 'd' is bound in Normal mode but typed literally in Insert mode
    assert_eq!(line(&st, 0), "dbc");
    assert_eq!(st.checkpoints, 0);
    h.on_event(&key(KeyCode::Esc), &mut st);
    assert_eq!(st.mode, EditorMode::Normal);
}

#[test]
fn motions_clamp_at_the_ends_of_the_buffer() {
    let mut h = KeyCombinationHandler::new(Vec::new(), false);
    h.insert(
        KeyCombinationRegister::n(vec![plain('f')]),
        Action::Atomic(Effect::MoveForward(10)),
    );
    h.insert(
        KeyCombinationRegister::n(vec![plain('b')]),
        Action::Atomic(Effect::MoveBackward(10)),
    );
    h.insert(
        KeyCombinationRegister::n(vec![plain('j')]),
        Action::Atomic(Effect::MoveDown(10)),
    );
    let mut st = state_with(EditorMode::Normal, "ab\ncdef");
    h.on_event(&plain('f'), &mut st);
    assert_eq!(st.col, 2);
    h.on_event(&plain('j'), &mut st);
    assert_eq!(st.row, 1);
    assert_eq!(st.col, 2);
    h.on_event(&plain('b'), &mut st);
    assert_eq!(st.col, 0);
}

#[test]
fn delete_line_on_an_empty_buffer_is_harmless() {
    let mut h = KeyCombinationHandler::new(Vec::new(), false);
    h.insert(
        KeyCombinationRegister::n(vec![plain('q')]),
        Action::Atomic(Effect::DeleteLine(1)),
    );
    let mut st = EditorState::new(EditorMode::Normal);
    h.on_event(&plain('q'), &mut st);
    assert_eq!(st.lines.len(), 0);
    assert_eq!(st.row, 0);
    assert_eq!(st.col, 0);
}

#[test]
fn vim_visual_mode_delete_returns_to_normal() {
    let mut h = KeyCombinationHandler::vim_mode();
    let mut st = state_with(EditorMode::Normal, "abc");
    h.on_event(&plain('v'), &mut st);
    assert_eq!(st.mode, EditorMode::Visual);
    // DeleteSelection belongs to the external selection collaborator; the
    // composition still switches the mode back afterwards
    h.on_event(&plain('d'), &mut st);
    assert_eq!(st.mode, EditorMode::Normal);
    assert_eq!(h.pending_keys().len(), 0);
}

#[test]
fn vim_append_switches_mode_then_moves() {
    let mut h = KeyCombinationHandler::vim_mode();
    let mut st = state_with(EditorMode::Normal, "abc");
    // 'a': switch to Insert, then move one column forward, in that order
    h.on_event(&plain('a'), &mut st);
    assert_eq!(st.mode, EditorMode::Insert);
    assert_eq!(st.col, 1);
    assert_eq!(h.pending_keys().len(), 0);
}

#[test]
fn vim_append_composes_three_children_in_order() {
    let mut h = KeyCombinationHandler::vim_mode();
    let mut st = state_with(EditorMode::Normal, "abc");
    // 'A': switch to Insert, move to the end of the line, one further column
    h.on_event(&plain('A'), &mut st);
    assert_eq!(st.mode, EditorMode::Insert);
    assert_eq!(st.col, 3);
}

#[test]
fn emacs_meta_chord_jumps_to_the_first_row() {
    let mut h = KeyCombinationHandler::emacs_mode();
    let mut st = state_with(EditorMode::Insert, "ab\ncd");
    st.row = 1;
    h.on_event(
        &KeyCombination::one_key(KeyCode::Char('<'), KeyModifiers { shift: false, control: false, alt: true }),
        &mut st,
    );
    assert_eq!(st.row, 0);
    assert_eq!(st.checkpoints, 0);
}

#[test]
fn backspace_on_an_empty_query_is_harmless() {
    let mut h = KeyCombinationHandler::vim_mode();
    let mut st = state_with(EditorMode::Search, "abc");
    h.on_event(&key(KeyCode::Backspace), &mut st);
    assert_eq!(st.search.len(), 0);
    assert_eq!(st.mode, EditorMode::Search);
}

#[test]
fn uninterpreted_effects_leave_the_model_fields_unchanged() {
    let mut h = KeyCombinationHandler::vim_mode();
    let mut st = state_with(EditorMode::Normal, "abc");
    // 'u' is bound to Undo, whose algorithm belongs to the external undo
    // collaborator: the dispatcher resolves it without touching the model
    h.on_event(&plain('u'), &mut st);
    assert_eq!(line(&st, 0), "abc");
    assert_eq!(st.col, 0);
    assert_eq!(st.mode, EditorMode::Normal);
}
