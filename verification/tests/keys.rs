use aur_search::keys::{handle_key, Command, Key, Modifiers};
use aur_search::search::{Package, Popularity};
use aur_search::state::{State, StatefulTable};

fn control() -> Modifiers {
    Modifiers { control: true, ..Modifiers::none() }
}

fn typed(ch: char) -> Key {
    Key::Char { ch, modifiers: Modifiers::none() }
}

fn record(name: &str) -> Package {
    Package {
        description: None,
        first_submitted: 0,
        last_modified: 0,
        id: 0,
        maintainer: None,
        name: name.to_string(),
        num_votes: 0,
        package_base: None,
        package_base_id: 0,
        popularity: Popularity::from_bits(0),
        url: None,
        url_path: None,
        version: None,
    }
}

fn sent(command: Command) -> String {
    match command {
        Command::Send(query) => query,
        other => panic!("expected a query to send, got {:?}", other),
    }
}

#[test]
fn character_is_appended_and_sent() {
    let mut state = State::default();
    assert_eq!(sent(handle_key(&mut state, typed('g'))), "g");
    assert_eq!(state.input, "g");
    assert_eq!(sent(handle_key(&mut state, typed('i'))), "gi");
    assert_eq!(sent(handle_key(&mut state, typed('t'))), "git");
    assert_eq!(state.input, "git");
}

#[test]
fn characters_outside_ascii_are_typed_whole() {
    let mut state = State::default();
    assert_eq!(sent(handle_key(&mut state, typed('é'))), "é");
    assert_eq!(sent(handle_key(&mut state, typed('日'))), "é日");
    assert_eq!(sent(handle_key(&mut state, Key::Backspace)), "é");
    assert_eq!(state.input, "é");
}

#[test]
fn backspace_removes_the_last_character_and_sends() {
    let mut state = State::default();
    state.input = "git".to_string();
    assert_eq!(sent(handle_key(&mut state, Key::Backspace)), "gi");
    assert_eq!(state.input, "gi");
}

#[test]
fn backspace_on_empty_input_sends_the_empty_query() {
    let mut state = State::default();
    assert_eq!(sent(handle_key(&mut state, Key::Backspace)), "");
    assert_eq!(state.input, "");
}

#[test]
fn escape_quits() {
    let mut state = State::default();
    state.input = "git".to_string();
    assert!(matches!(handle_key(&mut state, Key::Esc), Command::Quit));
    assert_eq!(state.input, "git");
}

#[test]
fn control_c_quits() {
    let mut state = State::default();
    state.input = "git".to_string();
    assert!(matches!(handle_key(&mut state, Key::Char { ch: 'c', modifiers: control() }), Command::Quit));
    assert_eq!(state.input, "git");
}

#[test]
fn control_c_with_another_modifier_is_typed() {
    let others = [
        Modifiers { shift: true, ..control() },
        Modifiers { alt: true, ..control() },
        Modifiers { logo: true, ..control() },
        Modifiers { hyper: true, ..control() },
        Modifiers { meta: true, ..control() },
        Modifiers { shift: true, ..Modifiers::none() },
        Modifiers { alt: true, ..Modifiers::none() },
    ];
    for modifiers in others {
        let mut state = State::default();
        assert!(!modifiers.is_only_control());
        assert_eq!(sent(handle_key(&mut state, Key::Char { ch: 'c', modifiers })), "c");
    }
    assert!(control().is_only_control());
    assert!(!Modifiers::none().is_only_control());
}

#[test]
fn plain_c_is_typed() {
    let mut state = State::default();
    assert_eq!(sent(handle_key(&mut state, typed('c'))), "c");
}

#[test]
fn control_with_another_character_types_it() {
    let mut state = State::default();
    assert_eq!(sent(handle_key(&mut state, Key::Char { ch: 'a', modifiers: control() })), "a");
    assert_eq!(state.input, "a");
}

#[test]
fn arrows_move_the_selection_and_send_nothing() {
    let mut state = State::default();
    state.input = "x".to_string();
    state.results = StatefulTable::new(vec![record("a"), record("b"), record("c")]);
    assert!(matches!(handle_key(&mut state, Key::Down), Command::Wait));
    assert_eq!(state.results.selected, Some(0));
    assert!(matches!(handle_key(&mut state, Key::Down), Command::Wait));
    assert_eq!(state.results.selected, Some(1));
    assert!(matches!(handle_key(&mut state, Key::Up), Command::Wait));
    assert!(matches!(handle_key(&mut state, Key::Up), Command::Wait));
    assert_eq!(state.results.selected, Some(2));
    assert_eq!(state.input, "x");
    assert_eq!(state.results.items.len(), 3);
}

#[test]
fn arrows_on_empty_results_select_nothing() {
    let mut state = State::default();
    assert!(matches!(handle_key(&mut state, Key::Down), Command::Wait));
    assert_eq!(state.results.selected, None);
    assert!(matches!(handle_key(&mut state, Key::Up), Command::Wait));
    assert_eq!(state.results.selected, None);
}

#[test]
fn editing_keeps_results_and_selection() {
    let mut state = State::default();
    state.results = StatefulTable::new(vec![record("a"), record("b")]);
    state.results.selected = Some(1);
    state.pending_searches = 2;
    state.spinner_index = 3;
    let _ = handle_key(&mut state, typed('z'));
    let _ = handle_key(&mut state, Key::Backspace);
    assert_eq!(state.results.selected, Some(1));
    assert_eq!(state.results.items.len(), 2);
    assert_eq!(state.pending_searches, 2);
    assert_eq!(state.spinner_index, 3);
}

#[test]
fn other_keys_do_nothing() {
    let mut state = State::default();
    state.input = "git".to_string();
    assert!(matches!(handle_key(&mut state, Key::Other), Command::Wait));
    assert_eq!(state.input, "git");
}
