use turing_sim::demos::{
    demo_accepter, demo_copier, demo_multiplier, demo_track_matcher, demo_translator, demos,
};
use turing_sim::engine::Configuration;
use turing_sim::symbol::{compose_tracks, decompose_symbols, Symbol};
use turing_sim::table::Machine;

fn run(m: &Machine, tracks_text: &[&str]) -> (Configuration, usize) {
    let texts: Vec<String> = tracks_text.iter().map(|t| t.to_string()).collect();
    let input = compose_tracks(&texts).unwrap();
    let mut c = Configuration::start(m, input);
    let steps = c.run_for(m, 1_000_000);
    assert!(c.is_halted(m));
    (c, steps)
}

fn trimmed(c: &Configuration, tracks: usize) -> Vec<String> {
    let blank = Symbol::blank(tracks);
    let cells = &c.tape.cells;
    let mut start = 0;
    while start < cells.len() && cells[start].same_as(&blank) {
        start += 1;
    }
    let mut end = cells.len();
    while end > start && cells[end - 1].same_as(&blank) {
        end -= 1;
    }
    let mid: Vec<Symbol> = cells[start..end]
        .iter()
        .map(|s| Symbol { chars: s.chars.clone() })
        .collect();
    decompose_symbols(&mid, tracks)
}

#[test]
fn there_are_five_demos() {
    let all = demos();
    assert_eq!(all.len(), 5);
    assert_eq!(all[0].tracks, 1);
    assert_eq!(all[3].tracks, 2);
    assert_eq!(all[4].states.final_states, vec!["q12".to_string()]);
}

#[test]
fn translator_turns_every_a_into_b() {
    let m = demo_translator();
    let (c, _) = run(&m, &["aab"]);
    assert_eq!(c.state, "q1");
    assert!(m.accepts(&c.state));
    assert_eq!(trimmed(&c, 1), vec!["bbb".to_string()]);
}

#[test]
fn accepter_accepts_balanced_ab() {
    let m = demo_accepter();
    let (c, _) = run(&m, &["aabb"]);
    assert!(m.accepts(&c.state));
}

#[test]
fn accepter_rejects_unbalanced_ab() {
    let m = demo_accepter();
    let (c, _) = run(&m, &["aab"]);
    assert!(!m.accepts(&c.state));
    let (c, _) = run(&m, &["ba"]);
    assert!(!m.accepts(&c.state));
}

#[test]
fn copier_accepts_a_string_of_ones() {
    let m = demo_copier();
    let (c, _) = run(&m, &["11"]);
    assert_eq!(c.state, "q3");
    assert!(m.accepts(&c.state));
}

#[test]
fn track_matcher_marks_matching_positions() {
    let m = demo_track_matcher();
    let (c, _) = run(&m, &["ab", "ab"]);
    assert!(m.accepts(&c.state));
    assert_eq!(trimmed(&c, 2), vec!["11".to_string(), "11".to_string()]);
}

#[test]
fn track_matcher_leaves_mismatches_alone() {
    let m = demo_track_matcher();
    let (c, _) = run(&m, &["ab", "ba"]);
    assert!(m.accepts(&c.state));
    assert_eq!(trimmed(&c, 2), vec!["ab".to_string(), "ba".to_string()]);
}

#[test]
fn multiplier_halts_accepting_on_a_product() {
    let m = demo_multiplier();
    let (c, _) = run(&m, &["11*11"]);
    assert_eq!(c.state, "q12");
    assert!(m.accepts(&c.state));
    // The product of two and two is written as four ones after the input.
    let tape = trimmed(&c, 1).remove(0);
    let ones = tape.chars().filter(|c| *c == '1').count();
    assert!(ones >= 4);
}
