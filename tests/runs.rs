use turing_machine::executor::{
    run_turing_machine, step, Configuration, RunOutput, RuntimeFault, StepOutcome, Verdict,
    ACCEPT_TOKEN, REJECT_TOKEN,
};
use turing_machine::machine::TuringMachine;
use turing_machine::parser::build_turing_machine;

fn lines(v: &[&str]) -> Vec<String> {
    v.iter().map(|s| s.to_string()).collect()
}

fn machine(transitions: &[&str], initial: &str, accept: &str) -> TuringMachine {
    let mut v = vec!["MT", "{q0,q1},", "{a},", "{a,b,B},"];
    v.extend_from_slice(transitions);
    v.push(initial);
    v.push(accept);
    build_turing_machine(&lines(&v)).expect("well-formed description")
}

fn example_machine() -> TuringMachine {
    machine(&["(q0,B)->(q1,B,D),", "(q0,a)->(q1,b,D),"], "q0,", "{q1}")
}

fn output(r: RunOutput) -> Vec<String> {
    r.into_lines()
}

#[test]
fn end_to_end_accepts_after_one_step() {
    let tm = example_machine();
    let r = run_turing_machine(&tm, "a", 100);
    assert_eq!(r.verdict, Verdict::Accepted);
    assert_eq!(r.steps, 1);
    assert_eq!(output(r), lines(&["{q0}BaB", "B{q1}aB", "aceita"]));
}

#[test]
fn blank_under_head_rejects_whatever_the_input() {
    let tm = machine(&["(q0,a)->(q1,b,D),"], "q0,", "{q1}");
    let r = run_turing_machine(&tm, "c", 100);
    assert_eq!(r.verdict, Verdict::Rejected);
    assert_eq!(r.steps, 0);
    assert_eq!(output(r), lines(&["{q0}BcB", "rejeita"]));
    let r = run_turing_machine(&tm, "a", 100);
    assert_eq!(output(r), lines(&["{q0}BaB", "rejeita"]));
}

#[test]
fn rejection_with_no_matching_initial_transition_for_any_cap() {
    let tm = machine(&["(q1,B)->(q1,B,D),"], "q0,", "{q1}");
    for cap in [0u64, 1, 5] {
        let r = run_turing_machine(&tm, "ab", cap);
        assert_eq!(r.verdict, Verdict::Rejected);
        assert_eq!(output(r), lines(&["{q0}BabB", "rejeita"]));
    }
}

#[test]
fn initial_accept_state_still_needs_a_step() {
    let tm = machine(&["(q0,B)->(q0,B,D),"], "q0,", "{q0,q1}");
    let r = run_turing_machine(&tm, "", 10);
    assert_eq!(r.verdict, Verdict::Accepted);
    assert_eq!(r.steps, 1);
    assert_eq!(output(r), lines(&["{q0}BB", "B{q0}B", "aceita"]));
}

#[test]
fn moving_left_from_first_cell_faults() {
    let tm = machine(&["(q0,B)->(q1,B,E),"], "q0,", "{q1}");
    let r = run_turing_machine(&tm, "a", 10);
    assert_eq!(r.verdict, Verdict::Faulted(RuntimeFault::MoveLeftOfStart));
    assert_eq!(r.steps, 0);
    assert_eq!(output(r), lines(&["{q0}BaB"]));
}

#[test]
fn running_past_the_end_faults_after_trailing_marker() {
    let tm = machine(&["(q0,B)->(q0,B,D),", "(q0,a)->(q0,a,D),"], "q0,", "{q1}");
    let r = run_turing_machine(&tm, "a", 10);
    assert_eq!(r.verdict, Verdict::Faulted(RuntimeFault::HeadPastEnd));
    assert_eq!(r.steps, 3);
    assert_eq!(output(r), lines(&["{q0}BaB", "B{q0}aB", "Ba{q0}B", "BaB{q0}"]));
}

#[test]
fn step_cap_stops_a_running_machine() {
    let tm = machine(&["(q0,B)->(q0,B,D),", "(q0,a)->(q0,a,D),"], "q0,", "{q1}");
    let r = run_turing_machine(&tm, "a", 1);
    assert_eq!(r.verdict, Verdict::StepLimit);
    assert_eq!(r.steps, 1);
    assert_eq!(output(r), lines(&["{q0}BaB", "B{q0}aB"]));
    let r = run_turing_machine(&tm, "a", 0);
    assert_eq!(r.verdict, Verdict::StepLimit);
    assert_eq!(output(r), lines(&["{q0}BaB"]));
}

#[test]
fn left_moves_and_rewrites_are_rendered() {
    let tm = machine(
        &["(q0,B)->(q0,B,D),", "(q0,a)->(q0,b,D),", "(q0,b)->(q1,a,E),"],
        "q0,",
        "{q1}",
    );
    let r = run_turing_machine(&tm, "ab", 10);
    assert_eq!(r.verdict, Verdict::Accepted);
    assert_eq!(output(r), lines(&["{q0}BabB", "B{q0}abB", "Bb{q0}bB", "B{q1}baB", "aceita"]));
}

#[test]
fn first_matching_transition_wins() {
    let tm = machine(&["(q0,B)->(q1,x,D),", "(q0,B)->(q0,y,D),"], "q0,", "{q1}");
    let r = run_turing_machine(&tm, "", 10);
    assert_eq!(output(r), lines(&["{q0}BB", "x{q1}B", "aceita"]));
}

#[test]
fn configuration_lines_count_steps_plus_one() {
    let tm = machine(
        &["(q0,B)->(q0,B,D),", "(q0,a)->(q0,a,D),", "(q0,b)->(q1,b,D),"],
        "q0,",
        "{q1}",
    );
    let r = run_turing_machine(&tm, "aaab", 100);
    assert_eq!(r.verdict, Verdict::Accepted);
    assert_eq!(r.configurations.len() as u64, r.steps + 1);
    let out = output(r);
    assert_eq!(out.last().unwrap(), ACCEPT_TOKEN);
    assert_eq!(out.iter().filter(|l| *l == ACCEPT_TOKEN || *l == REJECT_TOKEN).count(), 1);
}

#[test]
fn same_description_and_input_give_same_output() {
    let a = output(run_turing_machine(&example_machine(), "aab", 50));
    let b = output(run_turing_machine(&example_machine(), "aab", 50));
    assert_eq!(a, b);
}

#[test]
fn single_step_updates_configuration() {
    let tm = example_machine();
    let mut c = Configuration { tape: vec!['B', 'a', 'B'], head: 1, state: "q0".to_string() };
    assert_eq!(step(&tm, &mut c), StepOutcome::Accept);
    assert_eq!(c.tape, vec!['B', 'b', 'B']);
    assert_eq!(c.head, 2);
    assert_eq!(c.state, "q1");
    let mut c = Configuration { tape: vec!['B', 'c', 'B'], head: 1, state: "q0".to_string() };
    assert_eq!(step(&tm, &mut c), StepOutcome::Reject);
    assert_eq!(c.head, 1);
    let mut c = Configuration { tape: vec!['B'], head: 1, state: "q0".to_string() };
    assert_eq!(step(&tm, &mut c), StepOutcome::Fault(RuntimeFault::HeadPastEnd));
}

#[test]
fn step_continues_when_new_state_does_not_accept() {
    let tm = machine(&["(q0,B)->(q0,B,D),"], "q0,", "{q1}");
    let mut c = Configuration { tape: vec!['B', 'B'], head: 0, state: "q0".to_string() };
    assert_eq!(step(&tm, &mut c), StepOutcome::Continue);
    assert_eq!(c.head, 1);
}
