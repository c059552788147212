use turing_sim::table::{
    build_key_states, build_transition_table, validate_entry, validate_state, Direction,
    EntryError, RawEntry, StateError,
};

fn entry(ls: &str, li: &str, rs: &str, ri: &str, d: &str) -> RawEntry {
    RawEntry {
        lhs_state: ls.to_string(),
        lhs_symbol: li.to_string(),
        rhs_state: rs.to_string(),
        rhs_symbol: ri.to_string(),
        direction: d.to_string(),
    }
}

#[test]
fn valid_entry_is_accepted() {
    let t = validate_entry(&entry("q0", "a", "q1", "b", "R"), 1).unwrap();
    assert_eq!(t.lhs_state, "q0");
    assert_eq!(t.lhs_symbol.text(), "a");
    assert_eq!(t.rhs_state, "q1");
    assert_eq!(t.rhs_symbol.text(), "b");
    assert_eq!(t.direction, Direction::Right);
}

#[test]
fn direction_letter_is_case_insensitive() {
    let left = validate_entry(&entry("q0", "a", "q1", "a", "l"), 1).unwrap();
    assert_eq!(left.direction, Direction::Left);
    let right = validate_entry(&entry("q0", "a", "q1", "a", "r"), 1).unwrap();
    assert_eq!(right.direction, Direction::Right);
}

#[test]
fn symbol_width_mismatch_is_rejected() {
    let r = validate_entry(&entry("q0", "ab", "q1", "b", "R"), 1);
    assert_eq!(r.unwrap_err(), EntryError::SymbolWidth);
    let r = validate_entry(&entry("q0", "a", "q1", "ab", "R"), 1);
    assert_eq!(r.unwrap_err(), EntryError::SymbolWidth);
}

#[test]
fn blank_sentinel_is_always_accepted() {
    let t = validate_entry(&entry("q0", "\u{25A1}\u{25A1}", "q1", "ab", "L"), 2).unwrap();
    assert_eq!(t.lhs_symbol.text(), "\u{25A1}\u{25A1}");
    // A lone blank character is one track wide, not two.
    let r = validate_entry(&entry("q0", "\u{25A1}", "q1", "ab", "L"), 2);
    assert_eq!(r.unwrap_err(), EntryError::SymbolWidth);
}

#[test]
fn direction_with_more_than_one_char_is_rejected() {
    let r = validate_entry(&entry("q0", "a", "q1", "b", "RL"), 1);
    assert_eq!(r.unwrap_err(), EntryError::DirectionNotOneChar);
    let r = validate_entry(&entry("q0", "a", "q1", "b", ""), 1);
    assert_eq!(r.unwrap_err(), EntryError::DirectionNotOneChar);
}

#[test]
fn direction_with_wrong_letter_is_rejected() {
    let r = validate_entry(&entry("q0", "a", "q1", "b", "X"), 1);
    assert_eq!(r.unwrap_err(), EntryError::DirectionNotLR);
}

// Idempotence of validation: a validated transition, rendered back into a
// raw entry, is never rejected and validates to the same transition.
#[test]
fn revalidating_a_valid_entry_never_rejects_it() {
    let first = validate_entry(&entry("q0", "a", "q1", "\u{25A1}", "l"), 1).unwrap();
    let again = validate_entry(&first.to_raw(), 1).unwrap();
    assert_eq!(again.lhs_state, first.lhs_state);
    assert_eq!(again.lhs_symbol.text(), first.lhs_symbol.text());
    assert_eq!(again.rhs_state, first.rhs_state);
    assert_eq!(again.rhs_symbol.text(), first.rhs_symbol.text());
    assert_eq!(again.direction, first.direction);
}

#[test]
fn table_build_skips_bad_entries_and_keeps_good_ones() {
    let entries = vec![
        entry("q0", "a", "q1", "b", "R"),
        entry("q0", "ab", "q1", "b", "R"),
        entry("q1", "b", "q0", "a", "Q"),
        entry("q1", "a", "q1", "a", "L"),
    ];
    let (table, errors) = build_transition_table(&entries, 1);
    assert_eq!(table.len(), 2);
    assert_eq!(table[0].lhs_state, "q0");
    assert_eq!(table[1].lhs_state, "q1");
    assert_eq!(table[1].direction, Direction::Left);
    assert_eq!(errors, vec![EntryError::SymbolWidth, EntryError::DirectionNotLR]);
}

#[test]
fn state_validator_accepts_only_mentioned_states() {
    let entries = vec![entry("q0", "a", "q1", "b", "R")];
    let (table, _) = build_transition_table(&entries, 1);
    assert!(validate_state(&"q0".to_string(), &table));
    assert!(validate_state(&"q1".to_string(), &table));
    assert!(!validate_state(&"q2".to_string(), &table));
}

#[test]
fn key_states_reject_unknown_initial() {
    let entries = vec![entry("q0", "a", "q1", "b", "R")];
    let (table, _) = build_transition_table(&entries, 1);
    let r = build_key_states("qZ".to_string(), &vec!["q1".to_string()], &table);
    assert_eq!(r.unwrap_err(), StateError::UnknownInitial);
}

#[test]
fn key_states_exclude_unknown_finals() {
    let entries = vec![entry("q0", "a", "q1", "b", "R")];
    let (table, _) = build_transition_table(&entries, 1);
    let finals = vec!["q1".to_string(), "qZ".to_string(), "q0".to_string()];
    let ks = build_key_states("q0".to_string(), &finals, &table).unwrap();
    assert_eq!(ks.initial_state, "q0");
    assert_eq!(ks.final_states, vec!["q1".to_string(), "q0".to_string()]);
}
