//! Transition tables and their validation.
//!
//! A loader (interactive free text or CSV rows) produces raw five-field
//! entries; validation turns each into a [`Transition`] or rejects it with an
//! [`EntryError`].  Key states are checked against the finished table: a
//! state is valid only if some transition mentions it.

use vstd::prelude::*;
use vstd::string::StrSliceExecFns;
use crate::symbol::{Symbol, blank_seq};

verus! {

/// The direction the head moves after a transition fires.
#[derive(Clone, Copy, Debug, PartialEq, Eq, Structural)]
pub enum Direction {
    Left,
    Right,
}

/// A validated transition: δ(lhs_state, lhs_symbol) = (rhs_state, rhs_symbol, direction).
#[derive(Debug)]
pub struct Transition {
    pub lhs_state: String,
    pub lhs_symbol: Symbol,
    pub rhs_state: String,
    pub rhs_symbol: Symbol,
    pub direction: Direction,
}

/// The mathematical value of a [`Transition`].
pub struct TransitionModel {
    pub lhs_state: Seq<char>,
    pub lhs_symbol: Seq<char>,
    pub rhs_state: Seq<char>,
    pub rhs_symbol: Seq<char>,
    pub direction: Direction,
}

impl View for Transition {
    type V = TransitionModel;

    open spec fn view(&self) -> TransitionModel {
        TransitionModel {
            lhs_state: self.lhs_state@,
            lhs_symbol: self.lhs_symbol@,
            rhs_state: self.rhs_state@,
            rhs_symbol: self.rhs_symbol@,
            direction: self.direction,
        }
    }
}

/// An unvalidated transition entry, as a loader hands it over.
///
/// The `direction` field is kept as raw text so that validation itself can
/// decide whether it is a single `L`/`R` character.
#[derive(Debug)]
pub struct RawEntry {
    pub lhs_state: String,
    pub lhs_symbol: String,
    pub rhs_state: String,
    pub rhs_symbol: String,
    pub direction: String,
}

/// The mathematical value of a [`RawEntry`].
pub struct RawEntryModel {
    pub lhs_state: Seq<char>,
    pub lhs_symbol: Seq<char>,
    pub rhs_state: Seq<char>,
    pub rhs_symbol: Seq<char>,
    pub direction: Seq<char>,
}

impl View for RawEntry {
    type V = RawEntryModel;

    open spec fn view(&self) -> RawEntryModel {
        RawEntryModel {
            lhs_state: self.lhs_state@,
            lhs_symbol: self.lhs_symbol@,
            rhs_state: self.rhs_state@,
            rhs_symbol: self.rhs_symbol@,
            direction: self.direction@,
        }
    }
}

/// Why a raw entry was rejected.
#[derive(Clone, Copy, Debug, PartialEq, Eq, Structural)]
pub enum EntryError {
    /// A symbol's width differs from the track count, and the symbol is not
    /// the all-blank sentinel.
    SymbolWidth,
    /// The direction field is not a single character.
    DirectionNotOneChar,
    /// The direction character is not `L` or `R`, in either case.
    DirectionNotLR,
}

/// The views of a sequence of raw entries.
pub open spec fn entries_model(es: Seq<RawEntry>) -> Seq<RawEntryModel> {
    es.map_values(|e: RawEntry| e@)
}

/// The views of a sequence of transitions.
pub open spec fn transitions_model(ts: Seq<Transition>) -> Seq<TransitionModel> {
    ts.map_values(|t: Transition| t@)
}

/// A symbol is acceptable for a table of `tracks` tracks when it is exactly
/// `tracks` characters wide; the all-blank sentinel of that width is always
/// accepted.
pub open spec fn width_ok(sym: Seq<char>, tracks: nat) -> bool {
    sym.len() == tracks || sym == blank_seq(tracks)
}

/// Whether `c` spells a move direction, case-insensitively.
pub open spec fn is_direction_char(c: char) -> bool {
    c == 'L' || c == 'l' || c == 'R' || c == 'r'
}

/// The direction a valid direction character spells.
pub open spec fn direction_of_char(c: char) -> Direction {
    if c == 'L' || c == 'l' {
        Direction::Left
    } else {
        Direction::Right
    }
}

/// The character that renders a direction.
pub open spec fn direction_char(d: Direction) -> char {
    match d {
        Direction::Left => 'L',
        Direction::Right => 'R',
    }
}

/// The validation rule for one raw entry: both symbols must fit the track
/// width, and the direction must be a single `L`/`R` character.
pub open spec fn check_entry(e: RawEntryModel, tracks: nat) -> Result<TransitionModel, EntryError> {
    if !width_ok(e.lhs_symbol, tracks) {
        Err(EntryError::SymbolWidth)
    } else if !width_ok(e.rhs_symbol, tracks) {
        Err(EntryError::SymbolWidth)
    } else if e.direction.len() != 1 {
        Err(EntryError::DirectionNotOneChar)
    } else if !is_direction_char(e.direction[0]) {
        Err(EntryError::DirectionNotLR)
    } else {
        Ok(TransitionModel {
            lhs_state: e.lhs_state,
            lhs_symbol: e.lhs_symbol,
            rhs_state: e.rhs_state,
            rhs_symbol: e.rhs_symbol,
            direction: direction_of_char(e.direction[0]),
        })
    }
}

/// A validated transition's symbols fit the track width.
pub open spec fn transition_wf(t: TransitionModel, tracks: nat) -> bool {
    width_ok(t.lhs_symbol, tracks) && width_ok(t.rhs_symbol, tracks)
}

/// The raw entry that renders a validated transition back into loader form.
pub open spec fn raw_of_transition(t: TransitionModel) -> RawEntryModel {
    RawEntryModel {
        lhs_state: t.lhs_state,
        lhs_symbol: t.lhs_symbol,
        rhs_state: t.rhs_state,
        rhs_symbol: t.rhs_symbol,
        direction: seq![direction_char(t.direction)],
    }
}

/// Whatever validation accepts is well-formed for the width it was
/// validated against.
pub proof fn lemma_check_entry_wf(e: RawEntryModel, tracks: nat)
    requires
        check_entry(e, tracks) is Ok,
    ensures
        transition_wf(check_entry(e, tracks)->Ok_0, tracks),
{
}

/// Validation is idempotent: a transition that already passed validation,
/// rendered back into a raw entry, is never rejected, and validates to the
/// very same transition.
pub proof fn lemma_validation_idempotent(t: TransitionModel, tracks: nat)
    requires
        transition_wf(t, tracks),
    ensures
        check_entry(raw_of_transition(t), tracks) == Ok::<TransitionModel, EntryError>(t),
{
    let e = raw_of_transition(t);
    assert(e.direction.len() == 1);
    match t.direction {
        Direction::Left => {
            assert(e.direction[0] == 'L');
        }
        Direction::Right => {
            assert(e.direction[0] == 'R');
        }
    }
}

/// Whether `sym` fits a table of `tracks` tracks.
///
/// The all-blank sentinel is exactly `tracks` characters wide, so the rule
/// reduces to a single length test.
pub fn symbol_width_fits(sym: &String, tracks: usize) -> (r: bool)
    ensures
        r == width_ok(sym@, tracks as nat),
{
    let r = sym.as_str().unicode_len() == tracks;
    proof {
        if sym@.len() != tracks as nat {
            assert(blank_seq(tracks as nat).len() == tracks as nat);
            assert(sym@ != blank_seq(tracks as nat));
        }
    }
    r
}

/// Validates one raw entry against the track width, yielding the transition
/// it spells or the reason it is rejected.
pub fn validate_entry(entry: &RawEntry, tracks: usize) -> (r: Result<Transition, EntryError>)
    ensures
        match r {
            Ok(t) => check_entry(entry@, tracks as nat) == Ok::<TransitionModel, EntryError>(t@),
            Err(e) => check_entry(entry@, tracks as nat) == Err::<TransitionModel, EntryError>(e),
        },
{
    if !symbol_width_fits(&entry.lhs_symbol, tracks) {
        return Err(EntryError::SymbolWidth);
    }
    if !symbol_width_fits(&entry.rhs_symbol, tracks) {
        return Err(EntryError::SymbolWidth);
    }
    if entry.direction.as_str().unicode_len() != 1 {
        return Err(EntryError::DirectionNotOneChar);
    }
    let d = entry.direction.as_str().get_char(0);
    let direction = if d == 'L' || d == 'l' {
        Direction::Left
    } else if d == 'R' || d == 'r' {
        Direction::Right
    } else {
        return Err(EntryError::DirectionNotLR);
    };
    Ok(Transition {
        lhs_state: entry.lhs_state.clone(),
        lhs_symbol: Symbol::new(entry.lhs_symbol.as_str()),
        rhs_state: entry.rhs_state.clone(),
        rhs_symbol: Symbol::new(entry.rhs_symbol.as_str()),
        direction,
    })
}

/// What building a table from raw entries yields: the transitions of the
/// accepted entries in order, and the errors of the rejected ones in order.
pub open spec fn build_table_spec(entries: Seq<RawEntryModel>, tracks: nat) -> (Seq<
    TransitionModel,
>, Seq<EntryError>)
    decreases entries.len(),
{
    if entries.len() == 0 {
        (Seq::empty(), Seq::empty())
    } else {
        let prior = build_table_spec(entries.drop_last(), tracks);
        match check_entry(entries.last(), tracks) {
            Ok(t) => (prior.0.push(t), prior.1),
            Err(e) => (prior.0, prior.1.push(e)),
        }
    }
}

/// Builds a transition table from raw entries, with per-entry recovery:
/// a rejected entry contributes an error and is skipped, and the remaining
/// entries are still processed.
pub fn build_transition_table(entries: &Vec<RawEntry>, tracks: usize) -> (r: (
    Vec<Transition>,
    Vec<EntryError>,
))
    ensures
        transitions_model(r.0@) == build_table_spec(entries_model(entries@), tracks as nat).0,
        r.1@ == build_table_spec(entries_model(entries@), tracks as nat).1,
{
    let ghost es = entries_model(entries@);
    let mut table: Vec<Transition> = Vec::new();
    let mut errors: Vec<EntryError> = Vec::new();
    let mut i: usize = 0;
    while i < entries.len()
        invariant
            i <= entries.len(),
            es == entries_model(entries@),
            transitions_model(table@) == build_table_spec(es.take(i as int), tracks as nat).0,
            errors@ == build_table_spec(es.take(i as int), tracks as nat).1,
        decreases entries.len() - i,
    {
        proof {
            assert(es.take(i + 1).drop_last() =~= es.take(i as int));
            assert(es.take(i + 1).last() == es[i as int]);
        }
        match validate_entry(&entries[i], tracks) {
            Ok(t) => {
                let ghost before = transitions_model(table@);
                table.push(t);
                proof {
                    assert(transitions_model(table@) =~= before.push(t@));
                }
            }
            Err(e) => {
                errors.push(e);
            }
        }
        i = i + 1;
    }
    proof {
        assert(es.take(entries@.len() as int) =~= es);
    }
    (table, errors)
}

/// Whether `t` mentions `state` on its left- or right-hand side.
pub open spec fn mentions_state(t: TransitionModel, state: Seq<char>) -> bool {
    t.lhs_state == state || t.rhs_state == state
}

/// A candidate state is valid exactly when some transition mentions it, on
/// its left- or right-hand side.
pub open spec fn state_known(state: Seq<char>, ts: Seq<TransitionModel>) -> bool {
    exists|i: int| 0 <= i < ts.len() && mentions_state(#[trigger] ts[i], state)
}

/// Whether `candidate` appears in the table as a left- or right-hand state.
pub fn validate_state(candidate: &String, transitions: &Vec<Transition>) -> (r: bool)
    ensures
        r == state_known(candidate@, transitions_model(transitions@)),
{
    let ghost ts = transitions_model(transitions@);
    let mut i: usize = 0;
    while i < transitions.len()
        invariant
            i <= transitions.len(),
            ts == transitions_model(transitions@),
            forall|j: int| 0 <= j < i ==> !mentions_state(#[trigger] ts[j], candidate@),
        decreases transitions.len() - i,
    {
        proof {
            assert(ts[i as int] == transitions@[i as int]@);
        }
        if transitions[i].lhs_state == *candidate || transitions[i].rhs_state == *candidate {
            proof {
                assert(mentions_state(ts[i as int], candidate@));
            }
            return true;
        }
        i = i + 1;
    }
    false
}

/// The distinguished states of a machine: where it starts, and which halting
/// states mean acceptance.
#[derive(Debug)]
pub struct KeyStates {
    pub initial_state: String,
    pub final_states: Vec<String>,
}

/// The mathematical value of a [`KeyStates`].
pub struct KeyStatesModel {
    pub initial_state: Seq<char>,
    pub final_states: Seq<Seq<char>>,
}

impl View for KeyStates {
    type V = KeyStatesModel;

    open spec fn view(&self) -> KeyStatesModel {
        KeyStatesModel {
            initial_state: self.initial_state@,
            final_states: self.final_states.deep_view(),
        }
    }
}

/// Why a key-state set could not be built.
#[derive(Clone, Copy, Debug, PartialEq, Eq, Structural)]
pub enum StateError {
    /// The initial state appears in no transition.
    UnknownInitial,
}

/// The final-state candidates the table knows, in candidate order.
pub open spec fn kept_finals(finals: Seq<Seq<char>>, ts: Seq<TransitionModel>) -> Seq<Seq<char>>
    decreases finals.len(),
{
    if finals.len() == 0 {
        Seq::empty()
    } else {
        let prior = kept_finals(finals.drop_last(), ts);
        if state_known(finals.last(), ts) {
            prior.push(finals.last())
        } else {
            prior
        }
    }
}

/// Builds the key states for a table: the initial state must be known to the
/// table, and final-state candidates that the table does not mention are
/// excluded.
pub fn build_key_states(
    initial: String,
    finals: &Vec<String>,
    transitions: &Vec<Transition>,
) -> (r: Result<KeyStates, StateError>)
    ensures
        match r {
            Ok(ks) => {
                &&& state_known(initial@, transitions_model(transitions@))
                &&& ks.initial_state@ == initial@
                &&& ks.final_states.deep_view() == kept_finals(
                    finals.deep_view(),
                    transitions_model(transitions@),
                )
            },
            Err(e) => e == StateError::UnknownInitial && !state_known(
                initial@,
                transitions_model(transitions@),
            ),
        },
{
    let ghost ts = transitions_model(transitions@);
    if !validate_state(&initial, transitions) {
        return Err(StateError::UnknownInitial);
    }
    let mut kept: Vec<String> = Vec::new();
    let mut i: usize = 0;
    while i < finals.len()
        invariant
            i <= finals.len(),
            ts == transitions_model(transitions@),
            kept.deep_view() == kept_finals(finals.deep_view().take(i as int), ts),
        decreases finals.len() - i,
    {
        proof {
            assert(finals.deep_view().take(i + 1).drop_last() =~= finals.deep_view().take(
                i as int,
            ));
            assert(finals.deep_view().take(i + 1).last() == finals.deep_view()[i as int]);
        }
        if validate_state(&finals[i], transitions) {
            let ghost before = kept.deep_view();
            kept.push(finals[i].clone());
            proof {
                assert(kept.deep_view() =~= before.push(finals.deep_view()[i as int]));
            }
        }
        i = i + 1;
    }
    proof {
        assert(finals.deep_view().take(finals@.len() as int) =~= finals.deep_view());
    }
    Ok(KeyStates { initial_state: initial, final_states: kept })
}

/// A complete machine: an ordered transition table, its key states, and the
/// track count every symbol must respect.
#[derive(Debug)]
pub struct Machine {
    pub transitions: Vec<Transition>,
    pub states: KeyStates,
    pub tracks: usize,
}

/// The mathematical value of a [`Machine`].
pub struct MachineModel {
    pub transitions: Seq<TransitionModel>,
    pub initial_state: Seq<char>,
    pub final_states: Seq<Seq<char>>,
    pub tracks: nat,
}

impl View for Machine {
    type V = MachineModel;

    open spec fn view(&self) -> MachineModel {
        MachineModel {
            transitions: transitions_model(self.transitions@),
            initial_state: self.states.initial_state@,
            final_states: self.states.final_states.deep_view(),
            tracks: self.tracks as nat,
        }
    }
}

/// A machine is well-formed when it has at least one track and every
/// transition's symbols fit the track width.
pub open spec fn machine_wf(m: MachineModel) -> bool {
    &&& m.tracks >= 1
    &&& forall|i: int| 0 <= i < m.transitions.len() ==> transition_wf(#[trigger] m.transitions[i], m.tracks)
}

impl Transition {
    /// Renders this transition back into the raw-entry form a loader would
    /// have handed over.
    pub fn to_raw(&self) -> (r: RawEntry)
        ensures
            r@ == raw_of_transition(self@),
    {
        let mut direction = String::new();
        match self.direction {
            Direction::Left => direction.push('L'),
            Direction::Right => direction.push('R'),
        }
        proof {
            assert(direction@ =~= seq![direction_char(self.direction)]);
        }
        RawEntry {
            lhs_state: self.lhs_state.clone(),
            lhs_symbol: self.lhs_symbol.text(),
            rhs_state: self.rhs_state.clone(),
            rhs_symbol: self.rhs_symbol.text(),
            direction,
        }
    }
}

/// Every transition a table build accepts is well-formed for the track
/// width it was validated against.
pub proof fn lemma_built_table_wf(entries: Seq<RawEntryModel>, tracks: nat)
    ensures
        forall|i: int|
            0 <= i < build_table_spec(entries, tracks).0.len() ==> transition_wf(
                #[trigger] build_table_spec(entries, tracks).0[i],
                tracks,
            ),
    decreases entries.len(),
{
    if entries.len() > 0 {
        lemma_built_table_wf(entries.drop_last(), tracks);
        let prior = build_table_spec(entries.drop_last(), tracks);
        match check_entry(entries.last(), tracks) {
            Ok(t) => {
                assert(transition_wf(t, tracks));
                assert(forall|i: int|
                    0 <= i < prior.0.len() ==> build_table_spec(entries, tracks).0[i]
                        == prior.0[i]);
            }
            Err(_) => {}
        }
    }
}

} // verus!
