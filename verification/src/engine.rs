//! The execution engine: the tape and the step/halt loop.
//!
//! A run starts from the input symbols bracketed by one blank on each side,
//! with the head over the first input symbol.  Each step looks the pair
//! (current state, symbol under the head) up in the table — first match in
//! table order — overwrites the cell, switches state and moves the head,
//! growing the tape by a blank when the head would leave it.  The machine
//! halts exactly when no transition matches; the halting state then decides
//! acceptance.

use vstd::prelude::*;
use crate::symbol::{Symbol, blank_seq};
use crate::table::{
    Direction, Machine, MachineModel, TransitionModel, machine_wf, transition_wf,
};

verus! {

/// An unbounded-in-spirit tape: the cells materialised so far and the head
/// index into them.
#[derive(Debug)]
pub struct Tape {
    pub cells: Vec<Symbol>,
    pub head: usize,
}

/// The mathematical value of a [`Tape`].
pub struct TapeModel {
    pub cells: Seq<Seq<char>>,
    pub head: int,
}

impl View for Tape {
    type V = TapeModel;

    open spec fn view(&self) -> TapeModel {
        TapeModel { cells: self.cells.deep_view(), head: self.head as int }
    }
}

/// The head always rests on a materialised cell.
pub open spec fn tape_wf(t: TapeModel) -> bool {
    0 <= t.head < t.cells.len()
}

/// Whether a transition's left-hand side matches the current state and the
/// symbol under the head.
pub open spec fn transition_applies(t: TransitionModel, state: Seq<char>, sym: Seq<char>) -> bool {
    t.lhs_state == state && t.lhs_symbol == sym
}

/// The first transition in table order whose left-hand side matches, if any.
pub open spec fn first_match(
    ts: Seq<TransitionModel>,
    state: Seq<char>,
    sym: Seq<char>,
) -> Option<TransitionModel>
    decreases ts.len(),
{
    if ts.len() == 0 {
        None
    } else if transition_applies(ts[0], state, sym) {
        Some(ts[0])
    } else {
        first_match(ts.drop_first(), state, sym)
    }
}

/// A matched transition is in the table, and its left-hand side matches.
pub proof fn lemma_first_match_member(ts: Seq<TransitionModel>, state: Seq<char>, sym: Seq<char>)
    requires
        first_match(ts, state, sym) is Some,
    ensures
        ts.contains(first_match(ts, state, sym)->Some_0),
        transition_applies(first_match(ts, state, sym)->Some_0, state, sym),
    decreases ts.len(),
{
    let t = first_match(ts, state, sym)->Some_0;
    if transition_applies(ts[0], state, sym) {
        assert(exists|i: int| 0 <= i < ts.len() && ts[i] == t) by {
            assert(ts[0] == t);
        }
    } else {
        lemma_first_match_member(ts.drop_first(), state, sym);
        let j = choose|j: int| 0 <= j < ts.drop_first().len() && ts.drop_first()[j] == t;
        assert(exists|i: int| 0 <= i < ts.len() && ts[i] == t) by {
            assert(ts[j + 1] == t);
        }
    }
}

/// If no transition among the first `i` matches, the table's first match is
/// the remainder's first match.
proof fn lemma_first_match_skip(
    ts: Seq<TransitionModel>,
    state: Seq<char>,
    sym: Seq<char>,
    i: int,
)
    requires
        0 <= i <= ts.len(),
        forall|j: int| 0 <= j < i ==> !transition_applies(#[trigger] ts[j], state, sym),
    ensures
        first_match(ts, state, sym) == first_match(ts.skip(i), state, sym),
    decreases i,
{
    if i > 0 {
        assert(!transition_applies(ts[0], state, sym));
        let tail = ts.drop_first();
        assert forall|j: int| 0 <= j < i - 1 implies !transition_applies(
            #[trigger] tail[j],
            state,
            sym,
        ) by {
            assert(tail[j] == ts[j + 1]);
        }
        lemma_first_match_skip(tail, state, sym, i - 1);
        assert(tail.skip(i - 1) =~= ts.skip(i));
    } else {
        assert(ts.skip(0) =~= ts);
    }
}

impl Machine {
    /// Looks the pair (state, symbol) up in the table, returning the index
    /// of the first matching transition in table order.
    pub fn find_transition(&self, state: &String, symbol: &Symbol) -> (r: Option<usize>)
        ensures
            match r {
                Some(i) => i < self@.transitions.len() && first_match(
                    self@.transitions,
                    state@,
                    symbol@,
                ) == Some(self@.transitions[i as int]),
                None => first_match(self@.transitions, state@, symbol@) is None,
            },
    {
        let ghost ts = self@.transitions;
        let mut i: usize = 0;
        while i < self.transitions.len()
            invariant
                i <= self.transitions.len(),
                ts == self@.transitions,
                forall|j: int| 0 <= j < i ==> !transition_applies(#[trigger] ts[j], state@, symbol@),
            decreases self.transitions.len() - i,
        {
            proof {
                assert(ts[i as int] == self.transitions@[i as int]@);
            }
            let t = &self.transitions[i];
            if t.lhs_state == *state && t.lhs_symbol.same_as(symbol) {
                proof {
                    lemma_first_match_skip(ts, state@, symbol@, i as int);
                    assert(ts.skip(i as int)[0] == ts[i as int]);
                }
                return Some(i);
            }
            i = i + 1;
        }
        proof {
            lemma_first_match_skip(ts, state@, symbol@, ts.len() as int);
        }
        None
    }

    /// Whether the halting state `state` is accepted by this machine.
    pub fn accepts(&self, state: &String) -> (r: bool)
        ensures
            r == accept_spec(state@, self@.final_states),
    {
        accepts(state, &self.states.final_states)
    }
}

impl Tape {
    /// A fresh tape for one run: the input symbols bracketed by one blank on
    /// each side, with the head over the first input symbol.
    pub fn new(input: Vec<Symbol>, tracks: usize) -> (t: Tape)
        ensures
            t@.cells == seq![blank_seq(tracks as nat)] + input.deep_view() + seq![
                blank_seq(tracks as nat),
            ],
            t@.head == 1,
    {
        let ghost input_model = input.deep_view();
        let mut cells: Vec<Symbol> = Vec::new();
        cells.push(Symbol::blank(tracks));
        let mut rest = input;
        cells.append(&mut rest);
        cells.push(Symbol::blank(tracks));
        proof {
            assert(cells.deep_view() =~= seq![blank_seq(tracks as nat)] + input_model + seq![
                blank_seq(tracks as nat),
            ]);
        }
        Tape { cells, head: 1 }
    }

    /// The symbol under the head.
    pub fn read(&self) -> (s: &Symbol)
        requires
            tape_wf(self@),
        ensures
            s@ == self@.cells[self@.head],
    {
        let s = &self.cells[self.head];
        proof {
            assert(self@.cells[self@.head] == self.cells@[self.head as int]@);
        }
        s
    }

    /// Overwrites the symbol under the head.
    pub fn write(&mut self, sym: Symbol)
        requires
            tape_wf(old(self)@),
        ensures
            final(self)@.cells == old(self)@.cells.update(old(self)@.head, sym@),
            final(self)@.head == old(self)@.head,
            tape_wf(final(self)@),
    {
        let ghost before = self@.cells;
        let ghost sym_model = sym@;
        self.cells.set(self.head, sym);
        proof {
            assert(self.cells.deep_view() =~= before.update(self.head as int, sym_model));
        }
    }

    /// Moves the head one cell, growing the tape with a blank symbol when
    /// the head would leave the materialised cells.
    pub fn shift(&mut self, direction: Direction, blank: Symbol)
        requires
            tape_wf(old(self)@),
        ensures
            final(self)@ == shift_spec(old(self)@, direction, blank@),
            tape_wf(final(self)@),
    {
        let ghost before = self@;
        let ghost blank_model = blank@;
        match direction {
            Direction::Left => {
                if self.head == 0 {
                    self.cells.insert(0, blank);
                    proof {
                        assert(self.cells.deep_view() =~= seq![blank_model] + before.cells);
                    }
                } else {
                    self.head = self.head - 1;
                }
            }
            Direction::Right => {
                let len = self.cells.len();
                proof {
                    assert(self.cells.deep_view().len() == self.cells@.len());
                }
                self.head = self.head + 1;
                if self.head == len {
                    self.cells.push(blank);
                    proof {
                        assert(self.cells.deep_view() =~= before.cells.push(blank_model));
                    }
                }
            }
        }
    }
}

/// The tape after the head moves, growing by one blank exactly when the head
/// would leave the current cells.
pub open spec fn shift_spec(t: TapeModel, direction: Direction, blank: Seq<char>) -> TapeModel {
    match direction {
        Direction::Left => if t.head == 0 {
            TapeModel { cells: seq![blank] + t.cells, head: 0 }
        } else {
            TapeModel { cells: t.cells, head: t.head - 1 }
        },
        Direction::Right => if t.head + 1 == t.cells.len() {
            TapeModel { cells: t.cells.push(blank), head: t.head + 1 }
        } else {
            TapeModel { cells: t.cells, head: t.head + 1 }
        },
    }
}

/// One configuration of a run: the current state and the tape.
#[derive(Debug)]
pub struct Configuration {
    pub state: String,
    pub tape: Tape,
}

/// The mathematical value of a [`Configuration`].
pub struct ConfigModel {
    pub state: Seq<char>,
    pub tape: TapeModel,
}

impl View for Configuration {
    type V = ConfigModel;

    open spec fn view(&self) -> ConfigModel {
        ConfigModel { state: self.state@, tape: self.tape@ }
    }
}

/// A configuration is well-formed when its tape is.
pub open spec fn config_wf(c: ConfigModel) -> bool {
    tape_wf(c.tape)
}

/// The configuration a matched transition leads to: cell overwritten, state
/// switched, head moved.
pub open spec fn apply_transition_spec(
    c: ConfigModel,
    t: TransitionModel,
    blank: Seq<char>,
) -> ConfigModel {
    ConfigModel {
        state: t.rhs_state,
        tape: shift_spec(
            TapeModel { cells: c.tape.cells.update(c.tape.head, t.rhs_symbol), head: c.tape.head },
            t.direction,
            blank,
        ),
    }
}

/// One step of the machine: `None` exactly when no transition matches, which
/// is the sole halting condition.
pub open spec fn step_spec(m: MachineModel, c: ConfigModel) -> Option<ConfigModel> {
    match first_match(m.transitions, c.state, c.tape.cells[c.tape.head]) {
        None => None,
        Some(t) => Some(apply_transition_spec(c, t, blank_seq(m.tracks))),
    }
}

/// The configuration after `n` steps, or `None` if the machine halts within
/// them.
pub open spec fn run_steps(m: MachineModel, c: ConfigModel, n: nat) -> Option<ConfigModel>
    decreases n,
{
    if n == 0 {
        Some(c)
    } else {
        match run_steps(m, c, (n - 1) as nat) {
            None => None,
            Some(prior) => step_spec(m, prior),
        }
    }
}

/// The starting configuration of a run on the given input symbols.
pub open spec fn initial_config(m: MachineModel, input: Seq<Seq<char>>) -> ConfigModel {
    ConfigModel {
        state: m.initial_state,
        tape: TapeModel {
            cells: seq![blank_seq(m.tracks)] + input + seq![blank_seq(m.tracks)],
            head: 1,
        },
    }
}

/// Acceptance: the halting state is one of the final states.
pub open spec fn accept_spec(state: Seq<char>, finals: Seq<Seq<char>>) -> bool {
    finals.contains(state)
}

/// Whether the halting state is one of the final states.
pub fn accepts(state: &String, final_states: &Vec<String>) -> (r: bool)
    ensures
        r == accept_spec(state@, final_states.deep_view()),
{
    let mut i: usize = 0;
    while i < final_states.len()
        invariant
            i <= final_states.len(),
            forall|j: int| 0 <= j < i ==> final_states.deep_view()[j] != state@,
        decreases final_states.len() - i,
    {
        if final_states[i] == *state {
            proof {
                assert(final_states.deep_view()[i as int] == state@);
            }
            return true;
        }
        i = i + 1;
    }
    false
}

impl Configuration {
    /// The starting configuration for one run of `machine` on the composed
    /// input symbols.
    pub fn start(machine: &Machine, input: Vec<Symbol>) -> (c: Configuration)
        ensures
            c@ == initial_config(machine@, input.deep_view()),
            config_wf(c@),
    {
        let ghost input_model = input.deep_view();
        let tape = Tape::new(input, machine.tracks);
        Configuration { state: machine.states.initial_state.clone(), tape }
    }

    /// Whether no transition matches the current state and head symbol.
    pub fn is_halted(&self, machine: &Machine) -> (r: bool)
        requires
            config_wf(self@),
        ensures
            r == (step_spec(machine@, self@) is None),
    {
        machine.find_transition(&self.state, self.tape.read()).is_none()
    }

    /// Performs one step: applies the first matching transition and returns
    /// its index, or returns `None` — the machine has halted — leaving the
    /// configuration unchanged.
    pub fn step(&mut self, machine: &Machine) -> (r: Option<usize>)
        requires
            config_wf(old(self)@),
        ensures
            config_wf(final(self)@),
            match r {
                Some(i) => i < machine@.transitions.len() && first_match(
                    machine@.transitions,
                    old(self)@.state,
                    old(self)@.tape.cells[old(self)@.tape.head],
                ) == Some(machine@.transitions[i as int]) && step_spec(machine@, old(self)@)
                    == Some(final(self)@),
                None => step_spec(machine@, old(self)@) is None && final(self)@ == old(self)@,
            },
    {
        let found = machine.find_transition(&self.state, self.tape.read());
        match found {
            None => None,
            Some(i) => {
                let t = &machine.transitions[i];
                proof {
                    assert(machine@.transitions[i as int] == machine.transitions@[i as int]@);
                }
                self.state = t.rhs_state.clone();
                self.tape.write(t.rhs_symbol.clone());
                self.tape.shift(t.direction, Symbol::blank(machine.tracks));
                Some(i)
            }
        }
    }

    /// Runs at most `fuel` steps, stopping as soon as the machine halts, and
    /// returns the number of steps taken.  A return below `fuel` means the
    /// machine has halted.
    pub fn run_for(&mut self, machine: &Machine, fuel: usize) -> (steps: usize)
        requires
            config_wf(old(self)@),
        ensures
            steps <= fuel,
            config_wf(final(self)@),
            run_steps(machine@, old(self)@, steps as nat) == Some(final(self)@),
            steps < fuel ==> step_spec(machine@, final(self)@) is None,
    {
        let ghost c0 = self@;
        let mut steps: usize = 0;
        while steps < fuel
            invariant_except_break
                steps <= fuel,
                config_wf(self@),
                run_steps(machine@, c0, steps as nat) == Some(self@),
            ensures
                steps <= fuel,
                config_wf(self@),
                run_steps(machine@, c0, steps as nat) == Some(self@),
                steps < fuel ==> step_spec(machine@, self@) is None,
            decreases fuel - steps,
        {
            let ghost prior = self@;
            match self.step(machine) {
                Some(_) => {
                    proof {
                        assert(run_steps(machine@, c0, (steps + 1) as nat) == Some(self@));
                    }
                    steps = steps + 1;
                }
                None => {
                    break ;
                }
            }
        }
        steps
    }
}

/// Once the machine has halted within `n` steps, it has halted within every
/// longer bound as well.
pub proof fn lemma_halt_persists(m: MachineModel, c0: ConfigModel, n: nat, k: nat)
    requires
        run_steps(m, c0, n) is None,
        k >= n,
    ensures
        run_steps(m, c0, k) is None,
    decreases k,
{
    if k > n {
        lemma_halt_persists(m, c0, n, (k - 1) as nat);
    }
}

/// A missing table entry halts the machine in exactly one more step: if
/// after `n` steps the machine sits in a state/symbol pair for which the
/// table has no entry, no longer run exists, and the machine halts in that
/// very state — its state never changes again.
pub proof fn lemma_no_match_halts(m: MachineModel, c0: ConfigModel, n: nat)
    requires
        run_steps(m, c0, n) is Some,
        first_match(
            m.transitions,
            (run_steps(m, c0, n)->Some_0).state,
            (run_steps(m, c0, n)->Some_0).tape.cells[(run_steps(m, c0, n)->Some_0).tape.head],
        ) is None,
    ensures
        run_steps(m, c0, n + 1) is None,
        forall|k: nat| k > n ==> #[trigger] run_steps(m, c0, k) is None,
{
    let c = run_steps(m, c0, n)->Some_0;
    assert(step_spec(m, c) is None);
    assert(run_steps(m, c0, n + 1) is None);
    assert forall|k: nat| k > n implies #[trigger] run_steps(m, c0, k) is None by {
        lemma_halt_persists(m, c0, n + 1, k);
    }
}

/// One step keeps the head on a materialised cell.
pub proof fn lemma_step_preserves_wf(m: MachineModel, c: ConfigModel)
    requires
        tape_wf(c.tape),
        step_spec(m, c) is Some,
    ensures
        tape_wf((step_spec(m, c)->Some_0).tape),
{
}

/// One step grows the tape by at most one cell and never shrinks it, and
/// grows it exactly when the matched transition moves the head outside the
/// current cells.
pub proof fn lemma_step_tape_growth(m: MachineModel, c: ConfigModel)
    requires
        tape_wf(c.tape),
        step_spec(m, c) is Some,
    ensures
        ({
            let c2 = step_spec(m, c)->Some_0;
            let t = first_match(m.transitions, c.state, c.tape.cells[c.tape.head])->Some_0;
            &&& c.tape.cells.len() <= c2.tape.cells.len() <= c.tape.cells.len() + 1
            &&& (c2.tape.cells.len() == c.tape.cells.len() + 1) <==> ((t.direction is Left
                && c.tape.head == 0) || (t.direction is Right && c.tape.head + 1
                == c.tape.cells.len()))
        }),
{
}

/// Over a whole run the tape only ever grows, by at most one cell per step.
pub proof fn lemma_run_tape_growth(m: MachineModel, c0: ConfigModel, n: nat)
    requires
        tape_wf(c0.tape),
    ensures
        run_steps(m, c0, n) matches Some(cn) ==> tape_wf(cn.tape) && c0.tape.cells.len()
            <= cn.tape.cells.len() <= c0.tape.cells.len() + n,
    decreases n,
{
    if n > 0 {
        lemma_run_tape_growth(m, c0, (n - 1) as nat);
        if run_steps(m, c0, n) is Some {
            let prior = run_steps(m, c0, (n - 1) as nat)->Some_0;
            lemma_step_preserves_wf(m, prior);
            lemma_step_tape_growth(m, prior);
        }
    }
}

/// A state that no transition produces is never entered: starting from some
/// other state, every reachable configuration is in some other state, so a
/// run can never be accepted by a final-state set holding only that state.
pub proof fn lemma_unreachable_state_rejects(
    m: MachineModel,
    c0: ConfigModel,
    target: Seq<char>,
    n: nat,
)
    requires
        c0.state != target,
        forall|i: int|
            0 <= i < m.transitions.len() ==> (#[trigger] m.transitions[i]).rhs_state != target,
    ensures
        run_steps(m, c0, n) matches Some(c) ==> c.state != target && ((forall|j: int|
            0 <= j < m.final_states.len() ==> #[trigger] m.final_states[j] == target)
            ==> !accept_spec(c.state, m.final_states)),
    decreases n,
{
    if n > 0 {
        lemma_unreachable_state_rejects(m, c0, target, (n - 1) as nat);
        if run_steps(m, c0, n) is Some {
            let prior = run_steps(m, c0, (n - 1) as nat)->Some_0;
            let sym = prior.tape.cells[prior.tape.head];
            lemma_first_match_member(m.transitions, prior.state, sym);
            let t = first_match(m.transitions, prior.state, sym)->Some_0;
            let j = choose|j: int| 0 <= j < m.transitions.len() && m.transitions[j] == t;
            assert(m.transitions[j].rhs_state != target);
        }
    }
}

/// Every cell of a tape is exactly `tracks` characters wide.
pub open spec fn uniform_width(cells: Seq<Seq<char>>, tracks: nat) -> bool {
    forall|i: int| 0 <= i < cells.len() ==> (#[trigger] cells[i]).len() == tracks
}

/// Executing a step of a well-formed machine keeps every tape cell exactly
/// `tracks` characters wide.
pub proof fn lemma_step_preserves_width(m: MachineModel, c: ConfigModel)
    requires
        machine_wf(m),
        tape_wf(c.tape),
        uniform_width(c.tape.cells, m.tracks),
        step_spec(m, c) is Some,
    ensures
        uniform_width((step_spec(m, c)->Some_0).tape.cells, m.tracks),
{
    let sym = c.tape.cells[c.tape.head];
    lemma_first_match_member(m.transitions, c.state, sym);
    let t = first_match(m.transitions, c.state, sym)->Some_0;
    let j = choose|j: int| 0 <= j < m.transitions.len() && m.transitions[j] == t;
    assert(transition_wf(m.transitions[j], m.tracks));
    assert(t.rhs_symbol.len() == m.tracks);
    assert(blank_seq(m.tracks).len() == m.tracks);
    let written = c.tape.cells.update(c.tape.head, t.rhs_symbol);
    assert forall|i: int| 0 <= i < written.len() implies (#[trigger] written[i]).len()
        == m.tracks by {
        if i != c.tape.head {
            assert(written[i] == c.tape.cells[i]);
        }
    }
    let c2 = step_spec(m, c)->Some_0;
    assert forall|i: int| 0 <= i < c2.tape.cells.len() implies (#[trigger] c2.tape.cells[i]).len()
        == m.tracks by {
        match t.direction {
            Direction::Left => {
                if c.tape.head == 0 {
                    if i > 0 {
                        assert(c2.tape.cells[i] == written[i - 1]);
                    }
                }
            }
            Direction::Right => {
                if c.tape.head + 1 == written.len() {
                    if i < written.len() {
                        assert(c2.tape.cells[i] == written[i]);
                    }
                }
            }
        }
    }
}

/// Over a whole run of a well-formed machine, every tape cell stays exactly
/// `tracks` characters wide: the invariant the width checks at validation
/// time establish is preserved by execution.
pub proof fn lemma_run_preserves_width(m: MachineModel, c0: ConfigModel, n: nat)
    requires
        machine_wf(m),
        tape_wf(c0.tape),
        uniform_width(c0.tape.cells, m.tracks),
    ensures
        run_steps(m, c0, n) matches Some(cn) ==> uniform_width(cn.tape.cells, m.tracks),
    decreases n,
{
    if n > 0 {
        lemma_run_preserves_width(m, c0, (n - 1) as nat);
        lemma_run_tape_growth(m, c0, (n - 1) as nat);
        if run_steps(m, c0, n) is Some {
            let prior = run_steps(m, c0, (n - 1) as nat)->Some_0;
            lemma_step_preserves_width(m, prior);
        }
    }
}

} // verus!
