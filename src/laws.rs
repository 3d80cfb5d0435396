//! Properties of runs, proved over the models of the parser and executor.
use vstd::prelude::*;
use crate::executor::{
    first_match, initial_config, line_of, output_lines, run_from, run_model, step_model,
    ConfigModel,
    RunModel, RuntimeFault, StepOutcome, Verdict, ACCEPT_TOKEN, REJECT_TOKEN,
};
use crate::machine::{Direction, MachineModel};
use crate::parser::parse_lines;
use crate::tape::{cell_text, configuration_line, render, BLANK};

verus! {

pub open spec fn is_verdict_token(s: Seq<char>) -> bool {
    s == ACCEPT_TOKEN@ || s == REJECT_TOKEN@
}

/// A configuration whose head is on the tape or just past its end.
pub open spec fn head_in_range(c: ConfigModel) -> bool {
    c.tape.len() >= 1 && 0 <= c.head <= c.tape.len()
}

proof fn lemma_step_keeps_range(m: MachineModel, c: ConfigModel)
    requires
        head_in_range(c),
    ensures
        head_in_range(step_model(m, c).1),
{
}

proof fn lemma_render_marked(tape: Seq<char>, head: int, state: Seq<char>, n: int)
    requires
        tape.len() >= 1,
        0 <= head <= tape.len(),
        n <= tape.len(),
        n > head || (head == tape.len() && n == tape.len()),
    ensures
        render(tape, head, state, n).contains('{'),
    decreases n,
{
    let prev = render(tape, head, state, n - 1);
    let cell = cell_text(tape, head, state, n - 1);
    assert(render(tape, head, state, n) == prev + cell);
    if n - 1 == head {
        assert((prev + cell)[prev.len() as int] == '{');
    } else if head == tape.len() && n - 1 == tape.len() - 1 {
        assert((prev + cell)[prev.len() as int + 1] == '{');
    } else {
        lemma_render_marked(tape, head, state, n - 1);
        let k = choose|k: int| 0 <= k < prev.len() && prev[k] == '{';
        assert((prev + cell)[k] == '{');
    }
}

proof fn lemma_line_not_token(c: ConfigModel)
    requires
        head_in_range(c),
    ensures
        !is_verdict_token(line_of(c)),
{
    lemma_render_marked(c.tape, c.head, c.state, c.tape.len() as int);
    reveal_strlit("aceita");
    reveal_strlit("rejeita");
    let l = line_of(c);
    let k = choose|k: int| 0 <= k < l.len() && l[k] == '{';
    if l == ACCEPT_TOKEN@ {
        assert(ACCEPT_TOKEN@[k] != '{');
    }
    if l == REJECT_TOKEN@ {
        assert(REJECT_TOKEN@[k] != '{');
    }
}

proof fn lemma_run_from_shape(m: MachineModel, c: ConfigModel, fuel: nat)
    requires
        head_in_range(c),
    ensures
        run_from(m, c, fuel).lines.len() == run_from(m, c, fuel).steps,
        run_from(m, c, fuel).verdict == Verdict::Accepted ==> run_from(m, c, fuel).steps >= 1,
        forall|i: int|
            0 <= i < run_from(m, c, fuel).lines.len() ==> !is_verdict_token(
                #[trigger] run_from(m, c, fuel).lines[i],
            ),
    decreases fuel,
{
    let (o, next) = step_model(m, c);
    lemma_step_keeps_range(m, c);
    if fuel > 0 && (o == StepOutcome::Accept || o == StepOutcome::Continue) {
        lemma_line_not_token(next);
        if o == StepOutcome::Continue {
            lemma_run_from_shape(m, next, (fuel - 1) as nat);
            let rest = run_from(m, next, (fuel - 1) as nat);
            let all = run_from(m, c, fuel).lines;
            assert forall|i: int| 0 <= i < all.len() implies !is_verdict_token(
                #[trigger] all[i],
            ) by {
                if i > 0 {
                    assert(all[i] == rest.lines[i - 1]);
                }
            }
        }
    }
}

/// A run that accepts or rejects writes one configuration line per
/// transition applied plus the initial one, then exactly one verdict line:
/// the last line is a verdict token and no configuration line is one.
pub proof fn lemma_halting_output(m: MachineModel, word: Seq<char>, max_steps: nat)
    requires
        run_model(m, word, max_steps).verdict == Verdict::Accepted || run_model(
            m,
            word,
            max_steps,
        ).verdict == Verdict::Rejected,
    ensures
        ({
            let r = run_model(m, word, max_steps);
            let out = output_lines(r);
            &&& r.lines.len() == r.steps + 1
            &&& out.len() == r.lines.len() + 1
            &&& is_verdict_token(out.last())
            &&& forall|i: int| 0 <= i < out.len() - 1 ==> !is_verdict_token(#[trigger] out[i])
        }),
{
    let c = initial_config(m, word);
    let r = run_model(m, word, max_steps);
    let out = output_lines(r);
    assert(c.tape.len() >= 2);
    lemma_run_from_shape(m, c, max_steps);
    lemma_line_not_token(c);
    let rest = run_from(m, c, max_steps);
    assert forall|i: int| 0 <= i < out.len() - 1 implies !is_verdict_token(#[trigger] out[i]) by {
        assert(out[i] == r.lines[i]);
        if i > 0 {
            assert(r.lines[i] == rest.lines[i - 1]);
        }
    }
}

/// The same description and the same input word give the same machine and
/// the same run, line for line.
pub proof fn lemma_deterministic(
    lines1: Seq<Seq<char>>,
    lines2: Seq<Seq<char>>,
    word1: Seq<char>,
    word2: Seq<char>,
    max_steps: nat,
)
    requires
        lines1 == lines2,
        word1 == word2,
    ensures
        parse_lines(lines1) == parse_lines(lines2),
        parse_lines(lines1) is Ok ==> output_lines(
            run_model(parse_lines(lines1)->Ok_0, word1, max_steps),
        ) == output_lines(run_model(parse_lines(lines2)->Ok_0, word2, max_steps)),
{
}

/// Where no transition leaves the initial state on a blank, the run rejects
/// at its first lookup: the initial configuration line is its only one.
pub proof fn lemma_immediate_reject(m: MachineModel, word: Seq<char>, max_steps: nat)
    requires
        first_match(m.transitions, m.initial_state, BLANK, 0) >= m.transitions.len(),
    ensures
        run_model(m, word, max_steps) == (RunModel {
            lines: seq![line_of(initial_config(m, word))],
            verdict: Verdict::Rejected,
            steps: 0,
        }),
{
    let c = initial_config(m, word);
    assert(c.tape[0] == BLANK);
    assert(seq![line_of(c)] + Seq::<Seq<char>>::empty() =~= seq![line_of(c)]);
}

/// A run accepts only after applying a transition, even where the initial
/// state is an accept state.
pub proof fn lemma_accept_needs_a_step(m: MachineModel, word: Seq<char>, max_steps: nat)
    requires
        run_model(m, word, max_steps).verdict == Verdict::Accepted,
    ensures
        run_model(m, word, max_steps).steps >= 1,
        run_model(m, word, max_steps).lines.len() >= 2,
{
    let c = initial_config(m, word);
    lemma_run_from_shape(m, c, max_steps);
}

/// A transition that moves left from the first cell is a fault: the step
/// changes nothing, and a run that meets it ends there.
pub proof fn lemma_left_of_start_faults(m: MachineModel, c: ConfigModel, fuel: nat)
    requires
        c.head == 0,
        c.tape.len() >= 1,
        first_match(m.transitions, c.state, c.tape[0], 0) < m.transitions.len(),
        m.transitions[first_match(m.transitions, c.state, c.tape[0], 0)].direction
            == Direction::Left,
    ensures
        step_model(m, c) == (StepOutcome::Fault(RuntimeFault::MoveLeftOfStart), c),
        run_from(m, c, fuel) == (RunModel {
            lines: Seq::empty(),
            verdict: Verdict::Faulted(RuntimeFault::MoveLeftOfStart),
            steps: 0,
        }),
{
}

} // verus!
