use turing_sim::csv_table::{
    build_transition_table_csv, csv_header_valid, CsvError, RowCause,
};
use turing_sim::table::{Direction, EntryError};

fn header() -> Vec<String> {
    vec![
        "lhs_state".to_string(),
        "input".to_string(),
        "rhs_state".to_string(),
        "replacement".to_string(),
        "direction".to_string(),
    ]
}

fn row(fields: &[&str]) -> Vec<String> {
    fields.iter().map(|f| f.to_string()).collect()
}

#[test]
fn exact_header_is_valid() {
    assert!(csv_header_valid(&header()));
}

#[test]
fn wrong_header_is_invalid() {
    let mut h = header();
    h[1] = "symbol".to_string();
    assert!(!csv_header_valid(&h));
    assert!(!csv_header_valid(&header()[..4].to_vec()));
}

#[test]
fn csv_load_builds_all_rows_in_order() {
    let rows = vec![
        row(&["q0", "a", "q0", "b", "R"]),
        row(&["q0", "\u{25A1}", "q1", "\u{25A1}", "l"]),
    ];
    let table = build_transition_table_csv(&header(), &rows, 1).unwrap();
    assert_eq!(table.len(), 2);
    assert_eq!(table[0].lhs_state, "q0");
    assert_eq!(table[0].rhs_symbol.text(), "b");
    assert_eq!(table[0].direction, Direction::Right);
    assert_eq!(table[1].lhs_symbol.text(), "\u{25A1}");
    assert_eq!(table[1].direction, Direction::Left);
}

#[test]
fn csv_load_rejects_wrong_header() {
    let mut h = header();
    h[0] = "state".to_string();
    let rows = vec![row(&["q0", "a", "q0", "b", "R"])];
    let r = build_transition_table_csv(&h, &rows, 1);
    assert_eq!(r.unwrap_err(), CsvError::InvalidHeader);
}

// A data row whose input field is two characters wide while the machine has
// one track aborts the load with a width error and zero transitions.
#[test]
fn csv_width_mismatch_aborts_whole_load() {
    let rows = vec![
        row(&["q0", "ab", "q1", "b", "R"]),
        row(&["q0", "a", "q0", "b", "R"]),
    ];
    let r = build_transition_table_csv(&header(), &rows, 1);
    assert_eq!(
        r.unwrap_err(),
        CsvError::BadRow { index: 0, cause: RowCause::Invalid(EntryError::SymbolWidth) }
    );
}

#[test]
fn csv_first_bad_row_wins_and_discards_earlier_rows() {
    let rows = vec![
        row(&["q0", "a", "q0", "b", "R"]),
        row(&["q0", "b", "q1", "b", "RR"]),
        row(&["q1", "a", "q1", "a", "L"]),
    ];
    let r = build_transition_table_csv(&header(), &rows, 1);
    assert_eq!(
        r.unwrap_err(),
        CsvError::BadRow { index: 1, cause: RowCause::Invalid(EntryError::DirectionNotOneChar) }
    );
}

#[test]
fn csv_row_with_wrong_field_count_aborts() {
    let rows = vec![row(&["q0", "a", "q0", "b"])];
    let r = build_transition_table_csv(&header(), &rows, 1);
    assert_eq!(
        r.unwrap_err(),
        CsvError::BadRow { index: 0, cause: RowCause::WrongFieldCount }
    );
}

#[test]
fn csv_direction_letter_error_is_distinct() {
    let rows = vec![row(&["q0", "a", "q0", "b", "Z"])];
    let r = build_transition_table_csv(&header(), &rows, 1);
    assert_eq!(
        r.unwrap_err(),
        CsvError::BadRow { index: 0, cause: RowCause::Invalid(EntryError::DirectionNotLR) }
    );
}
