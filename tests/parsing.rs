use turing_machine::machine::Direction;
use turing_machine::parser::{
    build_turing_machine, read_list_from_line, read_transition_from_line, ParseError,
    ParseErrorKind,
};
use turing_machine::tape::{format_tape, initialize_tape};

fn strings(v: &[&str]) -> Vec<String> {
    v.iter().map(|s| s.to_string()).collect()
}

#[test]
fn list_trims_punctuation_and_drops_empty_tokens() {
    assert_eq!(read_list_from_line("{q0,q1,q2},"), strings(&["q0", "q1", "q2"]));
    assert_eq!(read_list_from_line("{a,,b}"), strings(&["a", "b"]));
    assert_eq!(read_list_from_line(",,,"), strings(&[]));
    assert_eq!(read_list_from_line(""), strings(&[]));
    assert_eq!(read_list_from_line("(x y,z)"), strings(&["x y", "z"]));
}

#[test]
fn transition_record_is_read() {
    let t = read_transition_from_line("(q0,a)->(q1,b,D),").unwrap();
    assert_eq!(t.from_state, "q0");
    assert_eq!(t.read_symbol, 'a');
    assert_eq!(t.to_state, "q1");
    assert_eq!(t.write_symbol, 'b');
    assert_eq!(t.direction, Direction::Right);
    let t = read_transition_from_line("(q2,B)->(q3,x,E)").unwrap();
    assert_eq!(t.direction, Direction::Left);
}

#[test]
fn transition_symbols_take_first_character() {
    let t = read_transition_from_line("(q0,ab)->(q1,cd,Ex)").unwrap();
    assert_eq!(t.read_symbol, 'a');
    assert_eq!(t.write_symbol, 'c');
    assert_eq!(t.direction, Direction::Left);
}

#[test]
fn transition_right_part_ends_at_next_arrow() {
    let t = read_transition_from_line("(q0,a)->(q1,b,D)->(q9,z,E)").unwrap();
    assert_eq!(t.to_state, "q1");
    assert_eq!(t.direction, Direction::Right);
}

#[test]
fn transition_errors() {
    let e = |s: &str| read_transition_from_line(s).err().unwrap();
    assert_eq!(e("(q0,a)(q1,b,D)"), ParseErrorKind::MissingArrow);
    assert_eq!(e("(q0)->(q1,b,D)"), ParseErrorKind::SourceTokenCount);
    assert_eq!(e("(q0,a,b)->(q1,b,D)"), ParseErrorKind::SourceTokenCount);
    assert_eq!(e("(q0,a)->(q1,b)"), ParseErrorKind::TargetTokenCount);
    assert_eq!(e("(q0,a)->(q1,b,D,E)"), ParseErrorKind::TargetTokenCount);
    assert_eq!(e("(q0,a)->(q1,b,X)"), ParseErrorKind::InvalidDirection);
}

#[test]
fn description_lines_take_their_roles() {
    let d = strings(&[
        "(header)",
        "  {q0,q1,q2},  ",
        "{a,b},",
        "{a,b,B},",
        "(q0,B)->(q1,B,D),",
        "\t(q1,a)->(q2,b,E),",
        "q0,",
        "{q2,q1}",
    ]);
    let tm = build_turing_machine(&d).unwrap();
    assert_eq!(tm.states, strings(&["q0", "q1", "q2"]));
    assert_eq!(tm.input_alphabet, strings(&["a", "b"]));
    assert_eq!(tm.tape_alphabet, strings(&["a", "b", "B"]));
    assert_eq!(tm.transitions.len(), 2);
    assert_eq!(tm.transitions[1].from_state, "q1");
    assert_eq!(tm.transitions[1].direction, Direction::Left);
    assert_eq!(tm.initial_state, "q0");
    assert_eq!(tm.accept_states, strings(&["q2", "q1"]));
}

#[test]
fn early_lines_are_never_transitions_or_accept_sets() {
    let d = strings(&["(q0,B)->(q1,B,D)", "(x,y)", "{a}", "{B}", "q1"]);
    let tm = build_turing_machine(&d).unwrap();
    assert_eq!(tm.transitions.len(), 0);
    assert_eq!(tm.states, strings(&["x", "y"]));
    assert_eq!(tm.accept_states, strings(&[]));
    assert_eq!(tm.initial_state, "q1");
}

#[test]
fn malformed_transition_reports_its_line() {
    let d = strings(&["h", "{q0}", "{a}", "{a,B}", "(q0,a)->(q0,a,D)", "(q0,B)->(q0,B)", "q0"]);
    assert_eq!(
        build_turing_machine(&d).err(),
        Some(ParseError { line: 6, kind: ParseErrorKind::TargetTokenCount })
    );
}

#[test]
fn empty_description_gives_empty_machine() {
    let tm = build_turing_machine(&strings(&[])).unwrap();
    assert!(tm.states.is_empty());
    assert!(tm.transitions.is_empty());
    assert_eq!(tm.initial_state, "");
}

#[test]
fn tape_pads_word_with_blanks() {
    assert_eq!(initialize_tape("ab"), vec!['B', 'a', 'b', 'B']);
    assert_eq!(initialize_tape(""), vec!['B', 'B']);
}

#[test]
fn format_marks_head_cell() {
    let tape = vec!['B', 'a', 'b', 'B'];
    assert_eq!(format_tape(&tape, 0, &"q0".to_string()), "{q0}BabB");
    assert_eq!(format_tape(&tape, 2, &"q12".to_string()), "Ba{q12}bB");
}

#[test]
fn format_marks_head_past_end_after_last_cell() {
    let tape = vec!['B', 'a', 'B'];
    assert_eq!(format_tape(&tape, 3, &"q1".to_string()), "BaB{q1}");
    assert_eq!(format_tape(&tape, 7, &"q1".to_string()), "BaB");
}
