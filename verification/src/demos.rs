//! The built-in demonstration machines.
//!
//! Five ready-made machines, in order: a translator that turns every `a`
//! into `b`; an accepter for strings of the form `a^n b^n`; a copier for
//! strings of `1`; a two-track comparer that marks where the tracks match;
//! and a unary multiplier (input such as `11*11`).  Each constructor's
//! contract pins the machine completely: its exact transition rows, its key
//! states and its track count.

use vstd::prelude::*;
use crate::symbol::Symbol;
use crate::table::{
    Direction, KeyStates, Machine, Transition, TransitionModel, machine_wf, mentions_state,
    state_known, transition_wf, transitions_model,
};

verus! {

/// The transition δ(lhs_state, lhs_symbol) = (rhs_state, rhs_symbol,
/// direction), as a model value.
pub open spec fn demo_row(
    lhs_state: Seq<char>,
    lhs_symbol: Seq<char>,
    rhs_state: Seq<char>,
    rhs_symbol: Seq<char>,
    direction: Direction,
) -> TransitionModel {
    TransitionModel { lhs_state, lhs_symbol, rhs_state, rhs_symbol, direction }
}

/// The translator's table: every `a` becomes `b`, `b` stays, and the first
/// blank switches to the accepting state.
pub open spec fn translator_table() -> Seq<TransitionModel> {
    seq![
        demo_row("q0"@, "a"@, "q0"@, "b"@, Direction::Right),
        demo_row("q0"@, "b"@, "q0"@, "b"@, Direction::Right),
        demo_row("q0"@, "\u{25A1}"@, "q1"@, "\u{25A1}"@, Direction::Left),
    ]
}

/// The `a^n b^n` accepter's table.
pub open spec fn accepter_table() -> Seq<TransitionModel> {
    seq![
        demo_row("q0"@, "a"@, "q1"@, "x"@, Direction::Right),
        demo_row("q1"@, "a"@, "q1"@, "a"@, Direction::Right),
        demo_row("q1"@, "y"@, "q1"@, "y"@, Direction::Right),
        demo_row("q1"@, "b"@, "q2"@, "y"@, Direction::Left),
        demo_row("q2"@, "y"@, "q2"@, "y"@, Direction::Left),
        demo_row("q2"@, "a"@, "q2"@, "a"@, Direction::Left),
        demo_row("q2"@, "x"@, "q0"@, "x"@, Direction::Right),
        demo_row("q0"@, "y"@, "q3"@, "y"@, Direction::Right),
        demo_row("q3"@, "y"@, "q3"@, "y"@, Direction::Right),
        demo_row("q3"@, "\u{25A1}"@, "q4"@, "\u{25A1}"@, Direction::Left),
    ]
}

/// The `1`-string copier's table.
pub open spec fn copier_table() -> Seq<TransitionModel> {
    seq![
        demo_row("q0"@, "1"@, "q0"@, "x"@, Direction::Right),
        demo_row("q0"@, "\u{25A1}"@, "q1"@, "\u{25A1}"@, Direction::Left),
        demo_row("q1"@, "1"@, "q1"@, "1"@, Direction::Left),
        demo_row("q1"@, "\u{25A1}"@, "q3"@, "\u{25A1}"@, Direction::Right),
        demo_row("q1"@, "x"@, "q2"@, "1"@, Direction::Right),
        demo_row("q2"@, "1"@, "q2"@, "1"@, Direction::Right),
        demo_row("q2"@, "\u{25A1}"@, "q1"@, "1"@, Direction::Left),
    ]
}

/// The two-track comparer's table: matching positions become `11`.
pub open spec fn track_matcher_table() -> Seq<TransitionModel> {
    seq![
        demo_row("q0"@, "aa"@, "q0"@, "11"@, Direction::Right),
        demo_row("q0"@, "bb"@, "q0"@, "11"@, Direction::Right),
        demo_row("q0"@, "ab"@, "q0"@, "ab"@, Direction::Right),
        demo_row("q0"@, "ba"@, "q0"@, "ba"@, Direction::Right),
        demo_row("q0"@, "\u{25A1}\u{25A1}"@, "q1"@, "\u{25A1}\u{25A1}"@, Direction::Left),
    ]
}

/// The unary multiplier's table.
pub open spec fn multiplier_table() -> Seq<TransitionModel> {
    seq![
        demo_row("q0"@, "1"@, "q0"@, "1"@, Direction::Right),
        demo_row("q0"@, "*"@, "q1"@, "*"@, Direction::Right),
        demo_row("q1"@, "1"@, "q1"@, "1"@, Direction::Right),
        demo_row("q1"@, "\u{25A1}"@, "q2"@, "*"@, Direction::Left),
        demo_row("q2"@, "1"@, "q2"@, "1"@, Direction::Left),
        demo_row("q2"@, "*"@, "q3"@, "*"@, Direction::Right),
        demo_row("q3"@, "X"@, "q3"@, "X"@, Direction::Right),
        demo_row("q3"@, "1"@, "q4"@, "X"@, Direction::Left),
        demo_row("q3"@, "*"@, "q12"@, "\u{25A1}"@, Direction::Right),
        demo_row("q4"@, "X"@, "q4"@, "X"@, Direction::Left),
        demo_row("q4"@, "*"@, "q5"@, "*"@, Direction::Left),
        demo_row("q5"@, "Y"@, "q5"@, "Y"@, Direction::Left),
        demo_row("q5"@, "1"@, "q6"@, "Y"@, Direction::Right),
        demo_row("q5"@, "\u{25A1}"@, "q11"@, "\u{25A1}"@, Direction::Right),
        demo_row("q6"@, "Y"@, "q6"@, "Y"@, Direction::Right),
        demo_row("q6"@, "*"@, "q7"@, "*"@, Direction::Right),
        demo_row("q7"@, "1"@, "q7"@, "1"@, Direction::Right),
        demo_row("q7"@, "X"@, "q7"@, "X"@, Direction::Right),
        demo_row("q7"@, "*"@, "q8"@, "*"@, Direction::Right),
        demo_row("q8"@, "1"@, "q8"@, "1"@, Direction::Right),
        demo_row("q8"@, "\u{25A1}"@, "q9"@, "1"@, Direction::Left),
        demo_row("q9"@, "1"@, "q9"@, "1"@, Direction::Left),
        demo_row("q9"@, "*"@, "q10"@, "*"@, Direction::Left),
        demo_row("q10"@, "1"@, "q10"@, "1"@, Direction::Left),
        demo_row("q10"@, "X"@, "q10"@, "X"@, Direction::Left),
        demo_row("q10"@, "*"@, "q5"@, "*"@, Direction::Left),
        demo_row("q11"@, "Y"@, "q11"@, "1"@, Direction::Right),
        demo_row("q11"@, "*"@, "q3"@, "*"@, Direction::Right),
    ]
}

/// Appends exactly the transition spelled by the given literals, keeping
/// every symbol exactly `tracks` characters wide.
fn push_t(
    ts: &mut Vec<Transition>,
    lhs_state: &str,
    lhs_symbol: &str,
    rhs_state: &str,
    rhs_symbol: &str,
    direction: Direction,
    Ghost(tracks): Ghost<nat>,
)
    requires
        lhs_symbol@.len() == tracks,
        rhs_symbol@.len() == tracks,
        forall|i: int|
            0 <= i < old(ts)@.len() ==> transition_wf(
                #[trigger] transitions_model(old(ts)@)[i],
                tracks,
            ),
    ensures
        transitions_model(final(ts)@) == transitions_model(old(ts)@).push(
            demo_row(lhs_state@, lhs_symbol@, rhs_state@, rhs_symbol@, direction),
        ),
        forall|i: int|
            0 <= i < final(ts)@.len() ==> transition_wf(
                #[trigger] transitions_model(final(ts)@)[i],
                tracks,
            ),
{
    let t = Transition {
        lhs_state: lhs_state.to_owned(),
        lhs_symbol: Symbol::new(lhs_symbol),
        rhs_state: rhs_state.to_owned(),
        rhs_symbol: Symbol::new(rhs_symbol),
        direction,
    };
    proof {
        assert(t@ == demo_row(lhs_state@, lhs_symbol@, rhs_state@, rhs_symbol@, direction));
    }
    let ghost before = transitions_model(ts@);
    ts.push(t);
    proof {
        assert(transitions_model(ts@) =~= before.push(t@));
    }
}

/// The key states `q0` (initial) and one final state.
fn simple_states(final_state: &str) -> (r: KeyStates)
    ensures
        r@.initial_state == "q0"@,
        r@.final_states =~= seq![final_state@],
{
    let finals = vec![final_state.to_owned()];
    proof {
        assert(finals.deep_view() =~= seq![final_state@]);
    }
    KeyStates { initial_state: "q0".to_owned(), final_states: finals }
}

/// The machine's initial state and all its final states appear in its own
/// transitions.
pub open spec fn key_states_known(m: crate::table::MachineModel) -> bool {
    &&& state_known(m.initial_state, m.transitions)
    &&& forall|i: int|
        0 <= i < m.final_states.len() ==> state_known(#[trigger] m.final_states[i], m.transitions)
}

/// The translator: turns every `a` into `b` and accepts at the first blank.
pub fn demo_translator() -> (m: Machine)
    ensures
        machine_wf(m@),
        m@.tracks == 1,
        m@.initial_state == "q0"@,
        m@.final_states =~= seq!["q1"@],
        m@.transitions == translator_table(),
        key_states_known(m@),
{
    proof {
        reveal_strlit("a");
        reveal_strlit("b");
        reveal_strlit("\u{25A1}");
    }
    let mut ts: Vec<Transition> = Vec::new();
    push_t(&mut ts, "q0", "a", "q0", "b", Direction::Right, Ghost(1));
    push_t(&mut ts, "q0", "b", "q0", "b", Direction::Right, Ghost(1));
    push_t(&mut ts, "q0", "\u{25A1}", "q1", "\u{25A1}", Direction::Left, Ghost(1));
    proof {
        assert(transitions_model(ts@) =~= translator_table());
        assert(mentions_state(translator_table()[0], "q0"@));
        assert(mentions_state(translator_table()[2], "q1"@));
    }
    Machine { transitions: ts, states: simple_states("q1"), tracks: 1 }
}

/// The accepter for `a^n b^n`.
pub fn demo_accepter() -> (m: Machine)
    ensures
        machine_wf(m@),
        m@.tracks == 1,
        m@.initial_state == "q0"@,
        m@.final_states =~= seq!["q4"@],
        m@.transitions == accepter_table(),
        key_states_known(m@),
{
    proof {
        reveal_strlit("a");
        reveal_strlit("b");
        reveal_strlit("x");
        reveal_strlit("y");
        reveal_strlit("\u{25A1}");
    }
    let mut ts: Vec<Transition> = Vec::new();
    push_t(&mut ts, "q0", "a", "q1", "x", Direction::Right, Ghost(1));
    push_t(&mut ts, "q1", "a", "q1", "a", Direction::Right, Ghost(1));
    push_t(&mut ts, "q1", "y", "q1", "y", Direction::Right, Ghost(1));
    push_t(&mut ts, "q1", "b", "q2", "y", Direction::Left, Ghost(1));
    push_t(&mut ts, "q2", "y", "q2", "y", Direction::Left, Ghost(1));
    push_t(&mut ts, "q2", "a", "q2", "a", Direction::Left, Ghost(1));
    push_t(&mut ts, "q2", "x", "q0", "x", Direction::Right, Ghost(1));
    push_t(&mut ts, "q0", "y", "q3", "y", Direction::Right, Ghost(1));
    push_t(&mut ts, "q3", "y", "q3", "y", Direction::Right, Ghost(1));
    push_t(&mut ts, "q3", "\u{25A1}", "q4", "\u{25A1}", Direction::Left, Ghost(1));
    proof {
        assert(transitions_model(ts@) =~= accepter_table());
        assert(mentions_state(accepter_table()[0], "q0"@));
        assert(mentions_state(accepter_table()[9], "q4"@));
    }
    Machine { transitions: ts, states: simple_states("q4"), tracks: 1 }
}

/// The copier for strings of `1`.
pub fn demo_copier() -> (m: Machine)
    ensures
        machine_wf(m@),
        m@.tracks == 1,
        m@.initial_state == "q0"@,
        m@.final_states =~= seq!["q3"@],
        m@.transitions == copier_table(),
        key_states_known(m@),
{
    proof {
        reveal_strlit("1");
        reveal_strlit("x");
        reveal_strlit("\u{25A1}");
    }
    let mut ts: Vec<Transition> = Vec::new();
    push_t(&mut ts, "q0", "1", "q0", "x", Direction::Right, Ghost(1));
    push_t(&mut ts, "q0", "\u{25A1}", "q1", "\u{25A1}", Direction::Left, Ghost(1));
    push_t(&mut ts, "q1", "1", "q1", "1", Direction::Left, Ghost(1));
    push_t(&mut ts, "q1", "\u{25A1}", "q3", "\u{25A1}", Direction::Right, Ghost(1));
    push_t(&mut ts, "q1", "x", "q2", "1", Direction::Right, Ghost(1));
    push_t(&mut ts, "q2", "1", "q2", "1", Direction::Right, Ghost(1));
    push_t(&mut ts, "q2", "\u{25A1}", "q1", "1", Direction::Left, Ghost(1));
    proof {
        assert(transitions_model(ts@) =~= copier_table());
        assert(mentions_state(copier_table()[0], "q0"@));
        assert(mentions_state(copier_table()[3], "q3"@));
    }
    Machine { transitions: ts, states: simple_states("q3"), tracks: 1 }
}

/// The two-track comparer: writes `11` where the tracks match.
pub fn demo_track_matcher() -> (m: Machine)
    ensures
        machine_wf(m@),
        m@.tracks == 2,
        m@.initial_state == "q0"@,
        m@.final_states =~= seq!["q1"@],
        m@.transitions == track_matcher_table(),
        key_states_known(m@),
{
    proof {
        reveal_strlit("aa");
        reveal_strlit("bb");
        reveal_strlit("ab");
        reveal_strlit("ba");
        reveal_strlit("11");
        reveal_strlit("\u{25A1}\u{25A1}");
    }
    let mut ts: Vec<Transition> = Vec::new();
    push_t(&mut ts, "q0", "aa", "q0", "11", Direction::Right, Ghost(2));
    push_t(&mut ts, "q0", "bb", "q0", "11", Direction::Right, Ghost(2));
    push_t(&mut ts, "q0", "ab", "q0", "ab", Direction::Right, Ghost(2));
    push_t(&mut ts, "q0", "ba", "q0", "ba", Direction::Right, Ghost(2));
    push_t(
        &mut ts,
        "q0",
        "\u{25A1}\u{25A1}",
        "q1",
        "\u{25A1}\u{25A1}",
        Direction::Left,
        Ghost(2),
    );
    proof {
        assert(transitions_model(ts@) =~= track_matcher_table());
        assert(mentions_state(track_matcher_table()[0], "q0"@));
        assert(mentions_state(track_matcher_table()[4], "q1"@));
    }
    Machine { transitions: ts, states: simple_states("q1"), tracks: 2 }
}

/// The unary multiplier (input such as `11*11`).
pub fn demo_multiplier() -> (m: Machine)
    ensures
        machine_wf(m@),
        m@.tracks == 1,
        m@.initial_state == "q0"@,
        m@.final_states =~= seq!["q12"@],
        m@.transitions == multiplier_table(),
        key_states_known(m@),
{
    proof {
        reveal_strlit("1");
        reveal_strlit("*");
        reveal_strlit("X");
        reveal_strlit("Y");
        reveal_strlit("\u{25A1}");
    }
    let mut ts: Vec<Transition> = Vec::new();
    push_t(&mut ts, "q0", "1", "q0", "1", Direction::Right, Ghost(1));
    push_t(&mut ts, "q0", "*", "q1", "*", Direction::Right, Ghost(1));
    push_t(&mut ts, "q1", "1", "q1", "1", Direction::Right, Ghost(1));
    push_t(&mut ts, "q1", "\u{25A1}", "q2", "*", Direction::Left, Ghost(1));
    push_t(&mut ts, "q2", "1", "q2", "1", Direction::Left, Ghost(1));
    push_t(&mut ts, "q2", "*", "q3", "*", Direction::Right, Ghost(1));
    push_t(&mut ts, "q3", "X", "q3", "X", Direction::Right, Ghost(1));
    push_t(&mut ts, "q3", "1", "q4", "X", Direction::Left, Ghost(1));
    push_t(&mut ts, "q3", "*", "q12", "\u{25A1}", Direction::Right, Ghost(1));
    push_t(&mut ts, "q4", "X", "q4", "X", Direction::Left, Ghost(1));
    push_t(&mut ts, "q4", "*", "q5", "*", Direction::Left, Ghost(1));
    push_t(&mut ts, "q5", "Y", "q5", "Y", Direction::Left, Ghost(1));
    push_t(&mut ts, "q5", "1", "q6", "Y", Direction::Right, Ghost(1));
    push_t(&mut ts, "q5", "\u{25A1}", "q11", "\u{25A1}", Direction::Right, Ghost(1));
    push_t(&mut ts, "q6", "Y", "q6", "Y", Direction::Right, Ghost(1));
    push_t(&mut ts, "q6", "*", "q7", "*", Direction::Right, Ghost(1));
    push_t(&mut ts, "q7", "1", "q7", "1", Direction::Right, Ghost(1));
    push_t(&mut ts, "q7", "X", "q7", "X", Direction::Right, Ghost(1));
    push_t(&mut ts, "q7", "*", "q8", "*", Direction::Right, Ghost(1));
    push_t(&mut ts, "q8", "1", "q8", "1", Direction::Right, Ghost(1));
    push_t(&mut ts, "q8", "\u{25A1}", "q9", "1", Direction::Left, Ghost(1));
    push_t(&mut ts, "q9", "1", "q9", "1", Direction::Left, Ghost(1));
    push_t(&mut ts, "q9", "*", "q10", "*", Direction::Left, Ghost(1));
    push_t(&mut ts, "q10", "1", "q10", "1", Direction::Left, Ghost(1));
    push_t(&mut ts, "q10", "X", "q10", "X", Direction::Left, Ghost(1));
    push_t(&mut ts, "q10", "*", "q5", "*", Direction::Left, Ghost(1));
    push_t(&mut ts, "q11", "Y", "q11", "1", Direction::Right, Ghost(1));
    push_t(&mut ts, "q11", "*", "q3", "*", Direction::Right, Ghost(1));
    proof {
        assert(transitions_model(ts@) =~= multiplier_table());
        assert(mentions_state(multiplier_table()[0], "q0"@));
        assert(mentions_state(multiplier_table()[8], "q12"@));
    }
    Machine { transitions: ts, states: simple_states("q12"), tracks: 1 }
}

/// All five demonstration machines, in their menu order, each pinned to its
/// description above: two calls build the very same machines.
pub fn demos() -> (r: Vec<Machine>)
    ensures
        r@.len() == 5,
        forall|i: int| 0 <= i < r@.len() ==> machine_wf(#[trigger] r@[i]@),
        forall|i: int| 0 <= i < r@.len() ==> key_states_known(#[trigger] r@[i]@),
        forall|i: int| 0 <= i < r@.len() ==> (#[trigger] r@[i]@).initial_state == "q0"@,
        r@[0]@.tracks == 1 && r@[1]@.tracks == 1 && r@[2]@.tracks == 1 && r@[3]@.tracks == 2
            && r@[4]@.tracks == 1,
        r@[0]@.transitions == translator_table() && r@[0]@.final_states =~= seq!["q1"@],
        r@[1]@.transitions == accepter_table() && r@[1]@.final_states =~= seq!["q4"@],
        r@[2]@.transitions == copier_table() && r@[2]@.final_states =~= seq!["q3"@],
        r@[3]@.transitions == track_matcher_table() && r@[3]@.final_states =~= seq!["q1"@],
        r@[4]@.transitions == multiplier_table() && r@[4]@.final_states =~= seq!["q12"@],
{
    let r = vec![
        demo_translator(),
        demo_accepter(),
        demo_copier(),
        demo_track_matcher(),
        demo_multiplier(),
    ];
    proof {
        assert(r@.len() == 5);
    }
    r
}

} // verus!
