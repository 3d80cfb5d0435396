//! The tape built from an input word, and the one-line rendering of a
//! configuration.
use vstd::prelude::*;
use crate::text::{chars_of, string_of};

verus! {

/// The blank symbol that pads both ends of the initial tape.
pub const BLANK: char = 'B';

/// The tape for `word`: the word between two blanks.
pub open spec fn initial_tape(word: Seq<char>) -> Seq<char> {
    seq![BLANK] + word + seq![BLANK]
}

/// Builds the tape `[BLANK] + word + [BLANK]`.
pub fn initialize_tape(input_word: &str) -> (r: Vec<char>)
    ensures
        r@ == initial_tape(input_word@),
{
    let w = chars_of(input_word);
    let mut tape: Vec<char> = Vec::new();
    tape.push(BLANK);
    let mut i: usize = 0;
    while i < w.len()
        invariant
            i <= w@.len(),
            tape@ == seq![BLANK] + w@.subrange(0, i as int),
        decreases w@.len() - i,
    {
        tape.push(w[i]);
        assert(w@.subrange(0, i + 1) =~= w@.subrange(0, i as int).push(w@[i as int]));
        i += 1;
    }
    tape.push(BLANK);
    assert(w@.subrange(0, i as int) =~= w@);
    assert(tape@ =~= initial_tape(input_word@));
    tape
}

/// The text of cell `i`: the state in braces before the symbol under the
/// head, or after the last symbol when the head stands one past the end.
pub open spec fn cell_text(tape: Seq<char>, head: int, state: Seq<char>, i: int) -> Seq<char> {
    if i == head {
        seq!['{'] + state + seq!['}', tape[i]]
    } else if head == tape.len() && i == tape.len() - 1 {
        seq![tape[i], '{'] + state + seq!['}']
    } else {
        seq![tape[i]]
    }
}

/// The texts of the first `n` cells, concatenated.
pub open spec fn render(tape: Seq<char>, head: int, state: Seq<char>, n: int) -> Seq<char>
    decreases n,
{
    if n <= 0 {
        Seq::empty()
    } else {
        render(tape, head, state, n - 1) + cell_text(tape, head, state, n - 1)
    }
}

/// The line that shows a configuration.
pub open spec fn configuration_line(tape: Seq<char>, head: int, state: Seq<char>) -> Seq<char> {
    render(tape, head, state, tape.len() as int)
}

fn push_all(out: &mut Vec<char>, s: &Vec<char>)
    ensures
        final(out)@ == old(out)@ + s@,
{
    let mut i: usize = 0;
    while i < s.len()
        invariant
            i <= s@.len(),
            out@ == old(out)@ + s@.subrange(0, i as int),
        decreases s@.len() - i,
    {
        out.push(s[i]);
        assert(s@.subrange(0, i + 1) =~= s@.subrange(0, i as int).push(s@[i as int]));
        i += 1;
    }
    assert(s@.subrange(0, i as int) =~= s@);
}

/// Renders the tape with the state marked at the head; see
/// [`configuration_line`].
pub fn format_tape(tape: &Vec<char>, head_position: usize, current_state: &String) -> (r: String)
    ensures
        r@ == configuration_line(tape@, head_position as int, current_state@),
{
    let state = chars_of(current_state.as_str());
    let mut out: Vec<char> = Vec::new();
    let mut i: usize = 0;
    while i < tape.len()
        invariant
            i <= tape@.len(),
            state@ == current_state@,
            out@ == render(tape@, head_position as int, state@, i as int),
        decreases tape@.len() - i,
    {
        let ghost before = out@;
        if i == head_position {
            out.push('{');
            push_all(&mut out, &state);
            out.push('}');
            out.push(tape[i]);
            assert(out@ =~= before + cell_text(tape@, head_position as int, state@, i as int));
        } else if head_position == tape.len() && i == tape.len() - 1 {
            out.push(tape[i]);
            out.push('{');
            push_all(&mut out, &state);
            out.push('}');
            assert(out@ =~= before + cell_text(tape@, head_position as int, state@, i as int));
        } else {
            out.push(tape[i]);
            assert(out@ =~= before + cell_text(tape@, head_position as int, state@, i as int));
        }
        i += 1;
    }
    string_of(&out, 0, out.len())
}

} // verus!
