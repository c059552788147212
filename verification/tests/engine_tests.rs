use turing_sim::engine::{accepts, Configuration};
use turing_sim::symbol::{compose_tracks, decompose_symbols, Symbol};
use turing_sim::table::{
    build_key_states, build_transition_table, Machine, RawEntry,
};

fn entry(ls: &str, li: &str, rs: &str, ri: &str, d: &str) -> RawEntry {
    RawEntry {
        lhs_state: ls.to_string(),
        lhs_symbol: li.to_string(),
        rhs_state: rs.to_string(),
        rhs_symbol: ri.to_string(),
        direction: d.to_string(),
    }
}

fn machine(entries: Vec<RawEntry>, initial: &str, finals: &[&str], tracks: usize) -> Machine {
    let (table, errors) = build_transition_table(&entries, tracks);
    assert!(errors.is_empty());
    let finals: Vec<String> = finals.iter().map(|f| f.to_string()).collect();
    let states = build_key_states(initial.to_string(), &finals, &table).unwrap();
    Machine { transitions: table, states, tracks }
}

fn input_symbols(m: &Machine, tracks_text: &[&str]) -> Vec<Symbol> {
    assert_eq!(tracks_text.len(), m.tracks);
    let texts: Vec<String> = tracks_text.iter().map(|t| t.to_string()).collect();
    compose_tracks(&texts).unwrap()
}

/// The tape contents with outer all-blank symbols trimmed, one string per
/// track.
fn trimmed_tracks(c: &Configuration, tracks: usize) -> Vec<String> {
    let blank = Symbol::blank(tracks);
    let cells = &c.tape.cells;
    let mut start = 0;
    while start < cells.len() && cells[start].same_as(&blank) {
        start += 1;
    }
    let mut end = cells.len();
    while end > start && cells[end - 1].same_as(&blank) {
        end -= 1;
    }
    let mid: Vec<Symbol> = cells[start..end]
        .iter()
        .map(|s| Symbol { chars: s.chars.clone() })
        .collect();
    decompose_symbols(&mid, tracks)
}

// The unary increment scenario: table {(q0,a)->(q0,b,R), (q0,b)->(q0,b,R),
// (q0,blank)->(q1,blank,L)}, initial q0, final {q1}, input "aab": the run
// halts in q1, accepts, and the tape trimmed of outer blanks reads "bbb".
#[test]
fn unary_increment_scenario() {
    let m = machine(
        vec![
            entry("q0", "a", "q0", "b", "R"),
            entry("q0", "b", "q0", "b", "R"),
            entry("q0", "\u{25A1}", "q1", "\u{25A1}", "L"),
        ],
        "q0",
        &["q1"],
        1,
    );
    let mut c = Configuration::start(&m, input_symbols(&m, &["aab"]));
    let steps = c.run_for(&m, 10_000);
    assert!(c.is_halted(&m));
    assert_eq!(steps, 4);
    assert_eq!(c.state, "q1");
    assert!(m.accepts(&c.state));
    assert_eq!(trimmed_tracks(&c, 1), vec!["bbb".to_string()]);
}

// A missing table entry halts the machine at once, with the state unchanged.
#[test]
fn no_matching_transition_halts_immediately() {
    let m = machine(vec![entry("q0", "a", "q1", "b", "R")], "q0", &["q1"], 1);
    let mut c = Configuration::start(&m, input_symbols(&m, &["z"]));
    assert!(c.is_halted(&m));
    let r = c.step(&m);
    assert!(r.is_none());
    assert_eq!(c.state, "q0");
    let steps = c.run_for(&m, 10_000);
    assert_eq!(steps, 0);
    assert_eq!(c.state, "q0");
}

// Tape length never shrinks and grows by at most one cell per step, only
// when the head would leave the current cells.
#[test]
fn tape_growth_is_monotone_and_single_step() {
    let m = machine(
        vec![
            entry("q0", "a", "q0", "b", "R"),
            entry("q0", "\u{25A1}", "q0", "1", "R"),
        ],
        "q0",
        &["q0"],
        1,
    );
    let mut c = Configuration::start(&m, input_symbols(&m, &["a"]));
    let mut lengths = vec![c.tape.cells.len()];
    for _ in 0..5 {
        assert!(c.step(&m).is_some());
        lengths.push(c.tape.cells.len());
    }
    // Initial tape is [blank, a, blank]; the head leaves the cells for the
    // first time on the second step.
    assert_eq!(lengths, vec![3, 3, 4, 5, 6, 7]);
    for w in lengths.windows(2) {
        assert!(w[0] <= w[1] && w[1] <= w[0] + 1);
    }
}

// Moving left at the leftmost cell grows the tape at the front and keeps
// the head on the new blank.
#[test]
fn left_move_at_edge_grows_front() {
    let m = machine(
        vec![
            entry("q0", "a", "q0", "a", "L"),
            entry("q0", "\u{25A1}", "q0", "x", "L"),
        ],
        "q0",
        &["q0"],
        1,
    );
    let mut c = Configuration::start(&m, input_symbols(&m, &["a"]));
    assert_eq!(c.tape.head, 1);
    assert!(c.step(&m).is_some());
    // Head moved from the first input symbol onto the left bracket blank.
    assert_eq!(c.tape.head, 0);
    assert_eq!(c.tape.cells.len(), 3);
    assert!(c.step(&m).is_some());
    // The head was already at the edge: one blank was inserted in front.
    assert_eq!(c.tape.head, 0);
    assert_eq!(c.tape.cells.len(), 4);
    assert_eq!(c.tape.cells[1].text(), "x");
}

// A final state that no transition ever produces is never entered: the run
// halts in some other state and rejects.
#[test]
fn unreachable_final_state_rejects() {
    let table_entries = vec![
        entry("q0", "a", "q1", "a", "R"),
        entry("q1", "a", "q1", "a", "R"),
    ];
    let (table, errors) = build_transition_table(&table_entries, 1);
    assert!(errors.is_empty());
    let states = turing_sim::table::KeyStates {
        initial_state: "q0".to_string(),
        final_states: vec!["qF".to_string()],
    };
    let m = Machine { transitions: table, states, tracks: 1 };
    let mut c = Configuration::start(&m, compose_tracks(&vec!["aaa".to_string()]).unwrap());
    let steps = c.run_for(&m, 10_000);
    assert!(c.is_halted(&m));
    assert!(steps < 10_000);
    assert_ne!(c.state, "qF");
    assert!(!m.accepts(&c.state));
}

#[test]
fn acceptance_is_membership_in_final_states() {
    let finals = vec!["q1".to_string(), "q2".to_string()];
    assert!(accepts(&"q1".to_string(), &finals));
    assert!(accepts(&"q2".to_string(), &finals));
    assert!(!accepts(&"q0".to_string(), &finals));
    assert!(!accepts(&"q1".to_string(), &Vec::new()));
}

// First-match-wins: with two entries for the same key, the earlier one in
// table order fires.
#[test]
fn lookup_uses_first_match_in_table_order() {
    let m = machine(
        vec![
            entry("q0", "a", "q1", "x", "R"),
            entry("q0", "a", "q2", "y", "R"),
        ],
        "q0",
        &["q1", "q2"],
        1,
    );
    let mut c = Configuration::start(&m, input_symbols(&m, &["a"]));
    let fired = c.step(&m).unwrap();
    assert_eq!(fired, 0);
    assert_eq!(c.state, "q1");
    assert_eq!(c.tape.cells[1].text(), "x");
}

// An empty input still gets the two bracket blanks, with the head on the
// trailing one.
#[test]
fn empty_input_runs_on_blank_tape() {
    let m = machine(
        vec![entry("q0", "\u{25A1}", "q1", "1", "R")],
        "q0",
        &["q1"],
        1,
    );
    let mut c = Configuration::start(&m, Vec::new());
    assert_eq!(c.tape.cells.len(), 2);
    assert_eq!(c.tape.head, 1);
    let steps = c.run_for(&m, 10_000);
    assert!(c.is_halted(&m));
    assert_eq!(steps, 1);
    assert_eq!(c.state, "q1");
    assert!(m.accepts(&c.state));
}

// A run that does not halt within the fuel bound reports the full bound and
// is restartable: running further continues where it stopped.
#[test]
fn fuel_bound_stops_a_nonhalting_run() {
    let m = machine(
        vec![
            entry("q0", "a", "q0", "a", "R"),
            entry("q0", "\u{25A1}", "q0", "\u{25A1}", "R"),
        ],
        "q0",
        &["q0"],
        1,
    );
    let mut c = Configuration::start(&m, input_symbols(&m, &["a"]));
    let steps = c.run_for(&m, 7);
    assert_eq!(steps, 7);
    assert!(!c.is_halted(&m));
    let more = c.run_for(&m, 3);
    assert_eq!(more, 3);
}
