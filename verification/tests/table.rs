use aur_search::state::{State, StatefulTable};

#[test]
fn selection_wraparound() {
    let mut table = StatefulTable::new(vec!["a", "b", "c"]);
    assert_eq!(table.selected, None);
    table.next();
    assert_eq!(table.selected, Some(0));
    table.next();
    assert_eq!(table.selected, Some(1));
    table.next();
    assert_eq!(table.selected, Some(2));
    table.next();
    assert_eq!(table.selected, Some(0));
    table.previous();
    assert_eq!(table.selected, Some(2));

    let mut table = StatefulTable::new(vec!["a", "b", "c"]);
    table.previous();
    assert_eq!(table.selected, Some(2));
    table.previous();
    assert_eq!(table.selected, Some(1));
    table.previous();
    assert_eq!(table.selected, Some(0));
}

#[test]
fn empty_results_selection_is_a_no_op() {
    let mut table: StatefulTable<u8> = StatefulTable::new(Vec::new());
    table.next();
    assert_eq!(table.selected, None);
    table.previous();
    assert_eq!(table.selected, None);
    table.next();
    table.next();
    assert_eq!(table.selected, None);
    assert!(table.items.is_empty());
}

#[test]
fn single_row_stays_selected() {
    let mut table = StatefulTable::new(vec![1u8]);
    table.next();
    assert_eq!(table.selected, Some(0));
    table.next();
    assert_eq!(table.selected, Some(0));
    table.previous();
    assert_eq!(table.selected, Some(0));
}

#[test]
fn new_table_keeps_its_rows() {
    let table = StatefulTable::new(vec![3u8, 1, 2]);
    assert_eq!(table.items, vec![3u8, 1, 2]);
    assert_eq!(table.selected, None);
}

#[test]
fn up_and_down_keep_the_rows() {
    let mut table = StatefulTable::new(vec![3u8, 1, 2]);
    table.next();
    table.previous();
    table.previous();
    assert_eq!(table.items, vec![3u8, 1, 2]);
    assert_eq!(table.selected, Some(1));
}

#[test]
fn cursor_past_the_rows_comes_back_on_down() {
    let mut table = StatefulTable { selected: Some(7), items: vec![1u8, 2, 3] };
    table.next();
    assert_eq!(table.selected, Some(2));
    let mut table = StatefulTable { selected: Some(usize::MAX), items: vec![1u8, 2, 3] };
    table.next();
    assert_eq!(table.selected, Some(2));
}

#[test]
fn cursor_past_the_rows_steps_back_on_up() {
    let mut table = StatefulTable { selected: Some(7), items: vec![1u8, 2, 3] };
    table.previous();
    assert_eq!(table.selected, Some(6));
}

#[test]
fn state_starts_empty() {
    let state = State::default();
    assert_eq!(state.input, "");
    assert!(state.results.items.is_empty());
    assert_eq!(state.results.selected, None);
    assert_eq!(state.pending_searches, 0);
    assert_eq!(state.spinner_index, 0);
}
