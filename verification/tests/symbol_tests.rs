use turing_sim::symbol::{
    compose_symbols, compose_tracks, decompose_symbols, ComposeError, Symbol,
};

#[test]
fn symbol_from_text_and_back() {
    let s = Symbol::new("ab");
    assert_eq!(s.chars, vec!['a', 'b']);
    assert_eq!(s.text(), "ab");
    assert_eq!(s.width(), 2);
}

#[test]
fn blank_symbol_width_and_text() {
    let b = Symbol::blank(3);
    assert_eq!(b.text(), "\u{25A1}\u{25A1}\u{25A1}");
    assert_eq!(b.width(), 3);
}

#[test]
fn symbol_equality_is_by_characters() {
    let a = Symbol::new("ab");
    let b = Symbol::new("ab");
    let c = Symbol::new("ba");
    assert!(a.same_as(&b));
    assert!(!a.same_as(&c));
    assert!(!a.same_as(&Symbol::new("a")));
}

#[test]
fn compose_single_track_is_one_char_per_symbol() {
    let tracks = vec!["aab".to_string()];
    let syms = compose_tracks(&tracks).unwrap();
    let texts: Vec<String> = syms.iter().map(|s| s.text()).collect();
    assert_eq!(texts, vec!["a", "a", "b"]);
}

#[test]
fn compose_two_tracks_interleaves_in_track_order() {
    let tracks = vec!["ab".to_string(), "cd".to_string()];
    let syms = compose_symbols(&tracks);
    let texts: Vec<String> = syms.iter().map(|s| s.text()).collect();
    assert_eq!(texts, vec!["ac", "bd"]);
}

#[test]
fn compose_empty_input_gives_no_symbols() {
    let tracks = vec![String::new(), String::new()];
    let syms = compose_tracks(&tracks).unwrap();
    assert_eq!(syms.len(), 0);
}

// The composition precondition rejects unequal track lengths before the
// engine can see them.
#[test]
fn track_length_mismatch_is_rejected() {
    let tracks = vec!["aa".to_string(), "a".to_string()];
    assert_eq!(compose_tracks(&tracks).unwrap_err(), ComposeError::LengthMismatch);
}

#[test]
fn no_tracks_is_rejected() {
    let tracks: Vec<String> = Vec::new();
    assert_eq!(compose_tracks(&tracks).unwrap_err(), ComposeError::NoTracks);
}

// Round trip: composing per-track strings and decomposing the symbols
// recovers the original strings exactly.
#[test]
fn compose_then_decompose_recovers_tracks() {
    let tracks = vec!["abca".to_string(), "bbbb".to_string(), "xyzw".to_string()];
    let syms = compose_tracks(&tracks).unwrap();
    let back = decompose_symbols(&syms, 3);
    assert_eq!(back, tracks);
}

#[test]
fn compose_then_decompose_single_track() {
    let tracks = vec!["hello".to_string()];
    let syms = compose_tracks(&tracks).unwrap();
    let back = decompose_symbols(&syms, 1);
    assert_eq!(back, tracks);
}
