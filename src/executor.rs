//! Running a machine on a tape: the single step, and a run under a cap on the
//! number of transitions applied. The tape keeps the length it was built
//! with: a move off either end is a fault, never a new cell.
use vstd::prelude::*;
use crate::machine::{Direction, MachineModel, TransitionModel, TuringMachine};
use crate::tape::{configuration_line, format_tape, initial_tape, initialize_tape};

verus! {

/// The word written after the last configuration of an accepting run.
pub const ACCEPT_TOKEN: &'static str = "aceita";

/// The word written after the last configuration of a rejecting run.
pub const REJECT_TOKEN: &'static str = "rejeita";

/// A move of the head off the fixed tape.
#[derive(Clone, Copy, Debug, PartialEq, Eq, Structural)]
pub enum RuntimeFault {
    /// The head stands past the last cell and a symbol must be read there.
    HeadPastEnd,
    /// A transition moves left while the head is on the first cell.
    MoveLeftOfStart,
}

/// What one step did.
#[derive(Clone, Copy, Debug, PartialEq, Eq, Structural)]
pub enum StepOutcome {
    /// A transition was applied and the new state does not accept.
    Continue,
    /// A transition was applied and the new state accepts.
    Accept,
    /// No transition matches the state and the symbol under the head.
    Reject,
    /// The step cannot be taken on the fixed tape.
    Fault(RuntimeFault),
}

/// A tape, the head's index into it and the current state.
#[derive(Clone, Debug)]
pub struct Configuration {
    pub tape: Vec<char>,
    pub head: usize,
    pub state: String,
}

pub struct ConfigModel {
    pub tape: Seq<char>,
    pub head: int,
    pub state: Seq<char>,
}

impl View for Configuration {
    type V = ConfigModel;

    open spec fn view(&self) -> ConfigModel {
        ConfigModel { tape: self.tape@, head: self.head as int, state: self.state@ }
    }
}

/// The configuration a run starts in: the head on the leading blank.
pub open spec fn initial_config(m: MachineModel, word: Seq<char>) -> ConfigModel {
    ConfigModel { tape: initial_tape(word), head: 0, state: m.initial_state }
}

pub open spec fn line_of(c: ConfigModel) -> Seq<char> {
    configuration_line(c.tape, c.head, c.state)
}

/// The index of the first transition at or after `from` that leaves `state`
/// on `symbol`, or `ts.len()` where there is none.
pub open spec fn first_match(
    ts: Seq<TransitionModel>,
    state: Seq<char>,
    symbol: char,
    from: int,
) -> int
    decreases ts.len() - from,
{
    if from >= ts.len() {
        ts.len() as int
    } else if ts[from].from_state == state && ts[from].read_symbol == symbol {
        from
    } else {
        first_match(ts, state, symbol, from + 1)
    }
}

/// One step from `c`: read the symbol under the head, take the first
/// matching transition, write, change state and move. The configuration is
/// left as it is where the step rejects or faults.
pub open spec fn step_model(m: MachineModel, c: ConfigModel) -> (StepOutcome, ConfigModel) {
    if c.head < 0 || c.head >= c.tape.len() {
        (StepOutcome::Fault(RuntimeFault::HeadPastEnd), c)
    } else {
        let j = first_match(m.transitions, c.state, c.tape[c.head], 0);
        if j >= m.transitions.len() {
            (StepOutcome::Reject, c)
        } else {
            let t = m.transitions[j];
            if t.direction == Direction::Left && c.head == 0 {
                (StepOutcome::Fault(RuntimeFault::MoveLeftOfStart), c)
            } else {
                let next = ConfigModel {
                    tape: c.tape.update(c.head, t.write_symbol),
                    head: if t.direction == Direction::Right {
                        c.head + 1
                    } else {
                        c.head - 1
                    },
                    state: t.to_state,
                };
                (
                    if m.accept_states.contains(t.to_state) {
                        StepOutcome::Accept
                    } else {
                        StepOutcome::Continue
                    },
                    next,
                )
            }
        }
    }
}

fn find_transition(tm: &TuringMachine, state: &String, symbol: char) -> (r: usize)
    ensures
        r == first_match(tm@.transitions, state@, symbol, 0),
        r <= tm.transitions@.len(),
{
    let mut i: usize = 0;
    while i < tm.transitions.len()
        invariant
            i <= tm.transitions@.len(),
            first_match(tm@.transitions, state@, symbol, 0) == first_match(
                tm@.transitions,
                state@,
                symbol,
                i as int,
            ),
        decreases tm.transitions@.len() - i,
    {
        let t = &tm.transitions[i];
        if t.from_state == *state && t.read_symbol == symbol {
            return i;
        }
        i += 1;
    }
    i
}

fn is_accepting(tm: &TuringMachine, state: &String) -> (r: bool)
    ensures
        r == tm@.accept_states.contains(state@),
{
    let mut i: usize = 0;
    while i < tm.accept_states.len()
        invariant
            i <= tm.accept_states@.len(),
            forall|k: int| 0 <= k < i ==> tm@.accept_states[k] != state@,
        decreases tm.accept_states@.len() - i,
    {
        if tm.accept_states[i] == *state {
            assert(tm@.accept_states[i as int] == state@);
            return true;
        }
        i += 1;
    }
    false
}

/// Takes one step; see [`step_model`].
pub fn step(tm: &TuringMachine, config: &mut Configuration) -> (r: StepOutcome)
    ensures
        r == step_model(tm@, old(config)@).0,
        final(config)@ == step_model(tm@, old(config)@).1,
{
    if config.head >= config.tape.len() {
        return StepOutcome::Fault(RuntimeFault::HeadPastEnd);
    }
    let symbol = config.tape[config.head];
    let j = find_transition(tm, &config.state, symbol);
    if j >= tm.transitions.len() {
        return StepOutcome::Reject;
    }
    let t = &tm.transitions[j];
    assert(tm@.transitions[j as int] == t@);
    if t.direction == Direction::Left && config.head == 0 {
        return StepOutcome::Fault(RuntimeFault::MoveLeftOfStart);
    }
    config.tape.set(config.head, t.write_symbol);
    config.state = t.to_state.clone();
    match t.direction {
        Direction::Right => {
            config.head = config.head + 1;
        },
        Direction::Left => {
            config.head = config.head - 1;
        },
    }
    if is_accepting(tm, &config.state) {
        StepOutcome::Accept
    } else {
        StepOutcome::Continue
    }
}

/// How a run ended.
#[derive(Clone, Copy, Debug, PartialEq, Eq, Structural)]
pub enum Verdict {
    /// A transition entered an accept state.
    Accepted,
    /// No transition matched.
    Rejected,
    /// The head left the fixed tape.
    Faulted(RuntimeFault),
    /// The cap on transitions was reached while the machine still had one to
    /// apply.
    StepLimit,
}

pub struct RunModel {
    pub lines: Seq<Seq<char>>,
    pub verdict: Verdict,
    pub steps: nat,
}

/// The configuration lines, verdict and number of transitions of a run from
/// `c` that may apply at most `fuel` transitions. The lines are those after
/// each applied transition.
pub open spec fn run_from(m: MachineModel, c: ConfigModel, fuel: nat) -> RunModel
    decreases fuel,
{
    let (o, next) = step_model(m, c);
    match o {
        StepOutcome::Reject => RunModel { lines: Seq::empty(), verdict: Verdict::Rejected, steps: 0 },
        StepOutcome::Fault(f) => RunModel {
            lines: Seq::empty(),
            verdict: Verdict::Faulted(f),
            steps: 0,
        },
        StepOutcome::Accept => if fuel == 0 {
            RunModel { lines: Seq::empty(), verdict: Verdict::StepLimit, steps: 0 }
        } else {
            RunModel { lines: seq![line_of(next)], verdict: Verdict::Accepted, steps: 1 }
        },
        StepOutcome::Continue => if fuel == 0 {
            RunModel { lines: Seq::empty(), verdict: Verdict::StepLimit, steps: 0 }
        } else {
            let rest = run_from(m, next, (fuel - 1) as nat);
            RunModel {
                lines: seq![line_of(next)] + rest.lines,
                verdict: rest.verdict,
                steps: rest.steps + 1,
            }
        },
    }
}

/// A run of `m` on `word` applying at most `max_steps` transitions: the
/// line of the initial configuration, then one line per transition applied.
pub open spec fn run_model(m: MachineModel, word: Seq<char>, max_steps: nat) -> RunModel {
    let c = initial_config(m, word);
    let r = run_from(m, c, max_steps);
    RunModel { lines: seq![line_of(c)] + r.lines, verdict: r.verdict, steps: r.steps }
}

/// The configuration lines of a run, how it ended, and how many transitions
/// it applied.
#[derive(Clone, Debug)]
pub struct RunOutput {
    pub configurations: Vec<String>,
    pub verdict: Verdict,
    pub steps: u64,
}

impl View for RunOutput {
    type V = RunModel;

    open spec fn view(&self) -> RunModel {
        RunModel {
            lines: self.configurations.deep_view(),
            verdict: self.verdict,
            steps: self.steps as nat,
        }
    }
}

/// The lines written for a run: its configuration lines, then the verdict
/// token where the machine accepted or rejected.
pub open spec fn output_lines(r: RunModel) -> Seq<Seq<char>> {
    match r.verdict {
        Verdict::Accepted => r.lines.push(ACCEPT_TOKEN@),
        Verdict::Rejected => r.lines.push(REJECT_TOKEN@),
        _ => r.lines,
    }
}

impl RunOutput {
    /// The lines to write for this run; see [`output_lines`].
    pub fn into_lines(self) -> (r: Vec<String>)
        ensures
            r.deep_view() == output_lines(self@),
    {
        let ghost before = self.configurations.deep_view();
        let mut lines = self.configurations;
        match self.verdict {
            Verdict::Accepted => {
                lines.push(ACCEPT_TOKEN.to_owned());
                assert(lines.deep_view() =~= before.push(ACCEPT_TOKEN@));
            },
            Verdict::Rejected => {
                lines.push(REJECT_TOKEN.to_owned());
                assert(lines.deep_view() =~= before.push(REJECT_TOKEN@));
            },
            _ => {},
        }
        lines
    }
}

/// Runs `tm` on `input_word`, applying at most `max_steps` transitions; see
/// [`run_model`].
pub fn run_turing_machine(tm: &TuringMachine, input_word: &str, max_steps: u64) -> (r: RunOutput)
    ensures
        r@ == run_model(tm@, input_word@, max_steps as nat),
{
    let ghost m = tm@;
    let ghost total = run_model(m, input_word@, max_steps as nat);
    let mut config = Configuration {
        tape: initialize_tape(input_word),
        head: 0,
        state: tm.initial_state.clone(),
    };
    let mut lines: Vec<String> = Vec::new();
    lines.push(format_tape(&config.tape, config.head, &config.state));
    let mut steps: u64 = 0;
    let mut left: u64 = max_steps;
    assert(lines.deep_view() =~= seq![line_of(initial_config(m, input_word@))]);
    loop
        invariant
            m == tm@,
            total == run_model(m, input_word@, max_steps as nat),
            steps + left == max_steps,
            lines.deep_view() + run_from(m, config@, left as nat).lines == total.lines,
            run_from(m, config@, left as nat).verdict == total.verdict,
            steps + run_from(m, config@, left as nat).steps == total.steps,
        decreases left,
    {
        let ghost before = config@;
        let ghost rest = run_from(m, before, left as nat);
        let outcome = step(tm, &mut config);
        match outcome {
            StepOutcome::Reject => {
                assert(lines.deep_view() =~= total.lines);
                return RunOutput { configurations: lines, verdict: Verdict::Rejected, steps };
            },
            StepOutcome::Fault(f) => {
                assert(lines.deep_view() =~= total.lines);
                return RunOutput { configurations: lines, verdict: Verdict::Faulted(f), steps };
            },
            _ => {},
        }
        if left == 0 {
            assert(lines.deep_view() =~= total.lines);
            return RunOutput { configurations: lines, verdict: Verdict::StepLimit, steps };
        }
        let ghost prev_lines = lines.deep_view();
        lines.push(format_tape(&config.tape, config.head, &config.state));
        assert(lines.deep_view() =~= prev_lines.push(line_of(config@)));
        steps = steps + 1;
        left = left - 1;
        if outcome == StepOutcome::Accept {
            assert(lines.deep_view() =~= total.lines);
            return RunOutput { configurations: lines, verdict: Verdict::Accepted, steps };
        }
        assert(rest.lines =~= seq![line_of(config@)] + run_from(m, config@, left as nat).lines);
        assert(lines.deep_view() + run_from(m, config@, left as nat).lines =~= prev_lines
            + rest.lines);
    }
}

} // verus!
