use turing_sim::table::{Direction, EntryError};
use turing_sim::text::{parse_transition_text, TextError};

#[test]
fn plain_transition_parses() {
    let t = parse_transition_text("(q1,a)=(q2,b,L)", 1).unwrap();
    assert_eq!(t.lhs_state, "q1");
    assert_eq!(t.lhs_symbol.text(), "a");
    assert_eq!(t.rhs_state, "q2");
    assert_eq!(t.rhs_symbol.text(), "b");
    assert_eq!(t.direction, Direction::Left);
}

#[test]
fn whitespace_is_removed_before_parsing() {
    let t = parse_transition_text(" ( q1 , a ) = ( q2 , b , r )\r\n", 1).unwrap();
    assert_eq!(t.lhs_state, "q1");
    assert_eq!(t.direction, Direction::Right);
}

#[test]
fn blank_alias_is_substituted() {
    let t = parse_transition_text("(q0,blank)=(q1,blank,R)", 1).unwrap();
    assert_eq!(t.lhs_symbol.text(), "\u{25A1}");
    assert_eq!(t.rhs_symbol.text(), "\u{25A1}");
}

#[test]
fn text_without_the_shape_is_rejected() {
    assert_eq!(parse_transition_text("nonsense", 1).unwrap_err(), TextError::BadShape);
    assert_eq!(parse_transition_text("", 1).unwrap_err(), TextError::BadShape);
    assert_eq!(parse_transition_text("(q1,a)=(q2,b)", 1).unwrap_err(), TextError::BadShape);
    assert_eq!(parse_transition_text("(q1,a)=(q2,b,X)", 1).unwrap_err(), TextError::BadShape);
    assert_eq!(parse_transition_text("q1,a=q2,b,L", 1).unwrap_err(), TextError::BadShape);
}

#[test]
fn shaped_text_with_wrong_width_is_a_field_error() {
    let r = parse_transition_text("(q0,ab)=(q1,b,R)", 1);
    assert_eq!(r.unwrap_err(), TextError::Entry(EntryError::SymbolWidth));
    let r = parse_transition_text("(q0,a)=(q1,ab,R)", 1);
    assert_eq!(r.unwrap_err(), TextError::Entry(EntryError::SymbolWidth));
}

#[test]
fn two_track_transition_parses_with_matching_width() {
    let t = parse_transition_text("(q0,ab)=(q0,11,R)", 2).unwrap();
    assert_eq!(t.lhs_symbol.text(), "ab");
    assert_eq!(t.rhs_symbol.text(), "11");
}

#[test]
fn lowercase_direction_letters_parse() {
    let left = parse_transition_text("(q0,a)=(q1,a,l)", 1).unwrap();
    assert_eq!(left.direction, Direction::Left);
    let right = parse_transition_text("(q0,a)=(q1,a,r)", 1).unwrap();
    assert_eq!(right.direction, Direction::Right);
}

#[test]
fn empty_state_names_are_tolerated_by_the_shape() {
    // The loose shape allows empty states; width checks still apply.
    let t = parse_transition_text("(,a)=(,b,R)", 1).unwrap();
    assert_eq!(t.lhs_state, "");
    assert_eq!(t.rhs_state, "");
}
