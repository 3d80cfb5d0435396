//! The description grammar: comma-separated lists, transition records and the
//! positional line roles that together give a machine.
use vstd::prelude::*;
use crate::machine::{
    empty_model, transitions_view, Direction, MachineModel, Transition, TransitionModel,
    TuringMachine,
};
use crate::text::{chars_of, string_of, trim, trim_bounds, CharClass};

verus! {

/// What is wrong with a line of a description.
#[derive(Clone, Copy, Debug, PartialEq, Eq, Structural)]
pub enum ParseErrorKind {
    /// A transition record without the arrow `->`.
    MissingArrow,
    /// The part before the arrow does not hold exactly two tokens.
    SourceTokenCount,
    /// The part after the arrow does not hold exactly three tokens.
    TargetTokenCount,
    /// The direction token starts with neither `D` (right) nor `E` (left).
    InvalidDirection,
}

/// A malformed line, with its 1-based number in the description.
#[derive(Clone, Copy, Debug, PartialEq, Eq, Structural)]
pub struct ParseError {
    pub line: usize,
    pub kind: ParseErrorKind,
}

/// The pieces of `s` between commas: one more than the commas in `s`.
pub open spec fn fields(s: Seq<char>) -> Seq<Seq<char>>
    decreases s.len(),
{
    if s.len() == 0 {
        seq![Seq::empty()]
    } else {
        let f = fields(s.drop_last());
        if s.last() == ',' {
            f.push(Seq::empty())
        } else {
            f.update(f.len() - 1, f.last().push(s.last()))
        }
    }
}

/// The non-empty elements of `f`, in order.
pub open spec fn non_empty(f: Seq<Seq<char>>) -> Seq<Seq<char>>
    decreases f.len(),
{
    if f.len() == 0 {
        Seq::empty()
    } else if f.last().len() > 0 {
        non_empty(f.drop_last()).push(f.last())
    } else {
        non_empty(f.drop_last())
    }
}

/// The list rule: punctuation trimmed from both ends, split on commas, empty
/// tokens dropped.
pub open spec fn list_of(s: Seq<char>) -> Seq<Seq<char>> {
    non_empty(fields(trim(s, CharClass::Punctuation)))
}

pub proof fn lemma_non_empty_tokens(f: Seq<Seq<char>>)
    ensures
        forall|i: int| 0 <= i < non_empty(f).len() ==> #[trigger] non_empty(f)[i].len() > 0,
    decreases f.len(),
{
    if f.len() > 0 {
        lemma_non_empty_tokens(f.drop_last());
        let p = non_empty(f.drop_last());
        assert forall|i: int| 0 <= i < non_empty(f).len() implies #[trigger] non_empty(f)[i].len()
            > 0 by {
            if i < p.len() {
                assert(non_empty(f)[i] == p[i]);
            }
        }
    }
}

proof fn lemma_fields_step(s: Seq<char>, i: int)
    requires
        0 <= i < s.len(),
    ensures
        fields(s.subrange(0, i + 1)) == ({
            let f = fields(s.subrange(0, i));
            if s[i] == ',' {
                f.push(Seq::empty())
            } else {
                f.update(f.len() - 1, f.last().push(s[i]))
            }
        }),
{
    assert(s.subrange(0, i + 1).drop_last() =~= s.subrange(0, i));
}

/// The tokens of `v[lo..hi]`, split on commas with empty ones dropped.
fn split_tokens(v: &Vec<char>, lo: usize, hi: usize) -> (r: Vec<String>)
    requires
        lo <= hi <= v@.len(),
    ensures
        r.deep_view() == non_empty(fields(v@.subrange(lo as int, hi as int))),
{
    let ghost w = v@.subrange(lo as int, hi as int);
    let mut r: Vec<String> = Vec::new();
    let mut start: usize = lo;
    let mut i: usize = lo;
    assert(w.subrange(0, 0) =~= Seq::<char>::empty());
    while i < hi
        invariant
            lo <= start <= i <= hi <= v@.len(),
            w == v@.subrange(lo as int, hi as int),
            fields(w.subrange(0, i - lo)).len() >= 1,
            r.deep_view() == non_empty(fields(w.subrange(0, i - lo)).drop_last()),
            fields(w.subrange(0, i - lo)).last() == v@.subrange(start as int, i as int),
        decreases hi - i,
    {
        let ghost f = fields(w.subrange(0, i - lo));
        proof {
            lemma_fields_step(w, i - lo);
        }
        if v[i] == ',' {
            if start < i {
                let tok = string_of(v, start, i);
                r.push(tok);
                assert(f.push(Seq::empty()).drop_last() =~= f);
                assert(f =~= f.drop_last().push(f.last()));
                assert(r.deep_view() =~= non_empty(f));
            } else {
                assert(f.push(Seq::empty()).drop_last() =~= f);
                assert(f =~= f.drop_last().push(f.last()));
            }
            start = i + 1;
        } else {
            assert(f.update(f.len() - 1, f.last().push(v@[i as int])).drop_last() =~= f.drop_last());
            assert(v@.subrange(start as int, i + 1) =~= v@.subrange(start as int, i as int).push(v@[i as int]));
        }
        i += 1;
    }
    let ghost f = fields(w.subrange(0, i - lo));
    assert(w.subrange(0, i - lo) =~= w);
    assert(f =~= f.drop_last().push(f.last()));
    if start < i {
        let tok = string_of(v, start, i);
        r.push(tok);
        assert(r.deep_view() =~= non_empty(f));
    }
    r
}

/// The list rule on `v[lo..hi]`.
fn list_in(v: &Vec<char>, lo: usize, hi: usize) -> (r: Vec<String>)
    requires
        lo <= hi <= v@.len(),
    ensures
        r.deep_view() == list_of(v@.subrange(lo as int, hi as int)),
{
    let (a, b) = trim_bounds(v, lo, hi, CharClass::Punctuation);
    split_tokens(v, a, b)
}

/// Reads a comma-separated list: trims ASCII punctuation from both ends,
/// splits on `,` and keeps the non-empty tokens verbatim.
pub fn read_list_from_line(line: &str) -> (r: Vec<String>)
    ensures
        r.deep_view() == list_of(line@),
{
    let v = chars_of(line);
    assert(v@.subrange(0, v@.len() as int) =~= v@);
    list_in(&v, 0, v.len())
}

/// The index of the first arrow `->` in `s` at or after `from`, or `s.len()`
/// where there is none.
pub open spec fn first_arrow(s: Seq<char>, from: int) -> int
    decreases s.len() - from,
{
    if from + 1 >= s.len() {
        s.len() as int
    } else if s[from] == '-' && s[from + 1] == '>' {
        from
    } else {
        first_arrow(s, from + 1)
    }
}

/// `D` moves right and `E` moves left.
pub open spec fn direction_of(c: char) -> Option<Direction> {
    if c == 'D' {
        Some(Direction::Right)
    } else if c == 'E' {
        Some(Direction::Left)
    } else {
        None
    }
}

/// A transition record `(from,read)->(to,write,direction)`: the part before
/// the first arrow and the part between it and the next arrow (or the end)
/// are read with the list rule; symbols and direction are the first
/// characters of their tokens.
pub open spec fn transition_of(s: Seq<char>) -> Result<TransitionModel, ParseErrorKind> {
    let a = first_arrow(s, 0);
    if a >= s.len() {
        Err(ParseErrorKind::MissingArrow)
    } else {
        let left = list_of(s.subrange(0, a));
        let right = list_of(s.subrange(a + 2, first_arrow(s, a + 2)));
        if left.len() != 2 {
            Err(ParseErrorKind::SourceTokenCount)
        } else if right.len() != 3 {
            Err(ParseErrorKind::TargetTokenCount)
        } else {
            match direction_of(right[2][0]) {
                None => Err(ParseErrorKind::InvalidDirection),
                Some(d) => Ok(
                    TransitionModel {
                        from_state: left[0],
                        read_symbol: left[1][0],
                        to_state: right[0],
                        write_symbol: right[1][0],
                        direction: d,
                    },
                ),
            }
        }
    }
}

pub open spec fn transition_result(r: Result<Transition, ParseErrorKind>) -> Result<
    TransitionModel,
    ParseErrorKind,
> {
    match r {
        Ok(t) => Ok(t@),
        Err(e) => Err(e),
    }
}

fn find_arrow(v: &Vec<char>, from: usize) -> (r: usize)
    requires
        from <= v@.len(),
    ensures
        r == first_arrow(v@, from as int),
        from <= r <= v@.len(),
        r < v@.len() ==> r + 1 < v@.len(),
{
    let mut i: usize = from;
    while i < v.len() && v.len() - i > 1
        invariant
            from <= i <= v@.len(),
            first_arrow(v@, from as int) == first_arrow(v@, i as int),
        decreases v@.len() - i,
    {
        if v[i] == '-' && v[i + 1] == '>' {
            return i;
        }
        i += 1;
    }
    v.len()
}

fn first_char(s: &String) -> (c: char)
    requires
        s@.len() > 0,
    ensures
        c == s@[0],
{
    s.as_str().get_char(0)
}

/// Reads a transition record; see [`transition_of`].
pub fn read_transition_from_line(line: &str) -> (r: Result<Transition, ParseErrorKind>)
    ensures
        transition_result(r) == transition_of(line@),
{
    let v = chars_of(line);
    let a = find_arrow(&v, 0);
    if a >= v.len() {
        return Err(ParseErrorKind::MissingArrow);
    }
    let b = find_arrow(&v, a + 2);
    let left = list_in(&v, 0, a);
    let right = list_in(&v, a + 2, b);
    if left.len() != 2 {
        return Err(ParseErrorKind::SourceTokenCount);
    }
    if right.len() != 3 {
        return Err(ParseErrorKind::TargetTokenCount);
    }
    proof {
        lemma_non_empty_tokens(fields(trim(v@.subrange(0, a as int), CharClass::Punctuation)));
        lemma_non_empty_tokens(
            fields(trim(v@.subrange(a + 2, b as int), CharClass::Punctuation)),
        );
        assert(left.deep_view()[1] == left@[1]@);
        assert(right.deep_view()[1] == right@[1]@);
        assert(right.deep_view()[2] == right@[2]@);
        assert(left.deep_view()[0] == left@[0]@);
        assert(right.deep_view()[0] == right@[0]@);
    }
    let c = first_char(&right[2]);
    let direction = if c == 'D' {
        Direction::Right
    } else if c == 'E' {
        Direction::Left
    } else {
        return Err(ParseErrorKind::InvalidDirection);
    };
    Ok(
        Transition {
            from_state: left[0].clone(),
            read_symbol: first_char(&left[1]),
            to_state: right[0].clone(),
            write_symbol: first_char(&right[1]),
            direction,
        },
    )
}

pub open spec fn starts_with(s: Seq<char>, c: char) -> bool {
    s.len() > 0 && s[0] == c
}

/// What line number `k` (1-based), trimmed of white space, adds to `m`.
/// Lines two to four are the state list and the two alphabets; a later line
/// opening with `(` is a transition; a line opening with `q` declares the
/// initial state (commas trimmed); a line after the fourth opening with `{`
/// is the list of accept states.
pub open spec fn apply_line(m: MachineModel, k: int, raw: Seq<char>) -> Result<
    MachineModel,
    ParseErrorKind,
> {
    let t = trim(raw, CharClass::WhiteSpace);
    let listed = if k == 2 {
        Ok(MachineModel { states: list_of(t), ..m })
    } else if k == 3 {
        Ok(MachineModel { input_alphabet: list_of(t), ..m })
    } else if k == 4 {
        Ok(MachineModel { tape_alphabet: list_of(t), ..m })
    } else if k != 1 && starts_with(t, '(') {
        match transition_of(t) {
            Ok(tr) => Ok(MachineModel { transitions: m.transitions.push(tr), ..m }),
            Err(e) => Err(e),
        }
    } else {
        Ok(m)
    };
    match listed {
        Err(e) => Err(e),
        Ok(m1) => Ok(
            if starts_with(t, 'q') {
                MachineModel { initial_state: trim(t, CharClass::Comma), ..m1 }
            } else if starts_with(t, '{') && k > 4 {
                MachineModel { accept_states: list_of(t), ..m1 }
            } else {
                m1
            },
        ),
    }
}

/// The machine that a description gives, or the first malformed line.
pub open spec fn parse_lines(lines: Seq<Seq<char>>) -> Result<MachineModel, ParseError>
    decreases lines.len(),
{
    if lines.len() == 0 {
        Ok(empty_model())
    } else {
        match parse_lines(lines.drop_last()) {
            Err(e) => Err(e),
            Ok(m) => match apply_line(m, lines.len() as int, lines.last()) {
                Ok(m1) => Ok(m1),
                Err(kind) => Err(ParseError { line: lines.len() as usize, kind }),
            },
        }
    }
}

/// A malformed line ends the reading: no later line changes the error.
proof fn lemma_error_persists(lines: Seq<Seq<char>>, n: int)
    requires
        0 <= n <= lines.len(),
        parse_lines(lines.subrange(0, n)) is Err,
    ensures
        parse_lines(lines) == parse_lines(lines.subrange(0, n)),
    decreases lines.len(),
{
    if n == lines.len() {
        assert(lines.subrange(0, n) =~= lines);
    } else {
        assert(lines.drop_last().subrange(0, n) =~= lines.subrange(0, n));
        lemma_error_persists(lines.drop_last(), n);
    }
}

pub open spec fn machine_result(r: Result<TuringMachine, ParseError>) -> Result<
    MachineModel,
    ParseError,
> {
    match r {
        Ok(m) => Ok(m@),
        Err(e) => Err(e),
    }
}

/// Builds a machine from the lines of its description; see [`parse_lines`].
pub fn build_turing_machine(lines: &Vec<String>) -> (r: Result<TuringMachine, ParseError>)
    ensures
        machine_result(r) == parse_lines(lines.deep_view()),
{
    let mut m = TuringMachine {
        states: Vec::new(),
        input_alphabet: Vec::new(),
        tape_alphabet: Vec::new(),
        transitions: Vec::new(),
        initial_state: String::new(),
        accept_states: Vec::new(),
    };
    assert(m@.states =~= Seq::<Seq<char>>::empty());
    assert(m@.input_alphabet =~= Seq::<Seq<char>>::empty());
    assert(m@.tape_alphabet =~= Seq::<Seq<char>>::empty());
    assert(m@.accept_states =~= Seq::<Seq<char>>::empty());
    assert(m@.transitions =~= Seq::<TransitionModel>::empty());
    assert(lines.deep_view().subrange(0, 0) =~= Seq::<Seq<char>>::empty());
    let mut i: usize = 0;
    while i < lines.len()
        invariant
            i <= lines@.len(),
            parse_lines(lines.deep_view().subrange(0, i as int)) == Ok::<
                MachineModel,
                ParseError,
            >(m@),
        decreases lines@.len() - i,
    {
        let ghost prev = m@;
        let ghost all = lines.deep_view();
        let ghost raw = lines@[i as int]@;
        assert(all.subrange(0, i + 1).drop_last() =~= all.subrange(0, i as int));
        assert(all.subrange(0, i + 1).last() == raw);
        let cs = chars_of(lines[i].as_str());
        assert(cs@.subrange(0, cs@.len() as int) =~= cs@);
        let (lo, hi) = trim_bounds(&cs, 0, cs.len(), CharClass::WhiteSpace);
        let t = string_of(&cs, lo, hi);
        let k = i + 1;
        if k == 2 {
            m.states = read_list_from_line(t.as_str());
        } else if k == 3 {
            m.input_alphabet = read_list_from_line(t.as_str());
        } else if k == 4 {
            m.tape_alphabet = read_list_from_line(t.as_str());
        } else if k != 1 && lo < hi && cs[lo] == '(' {
            match read_transition_from_line(t.as_str()) {
                Ok(tr) => {
                    m.transitions.push(tr);
                    assert(transitions_view(m.transitions@) =~= prev.transitions.push(tr@));
                },
                Err(kind) => {
                    proof {
                        lemma_error_persists(all, i + 1);
                    }
                    return Err(ParseError { line: k, kind });
                },
            }
        }
        if lo < hi && cs[lo] == 'q' {
            let (a, b) = trim_bounds(&cs, lo, hi, CharClass::Comma);
            m.initial_state = string_of(&cs, a, b);
        } else if lo < hi && cs[lo] == '{' && k > 4 {
            m.accept_states = read_list_from_line(t.as_str());
        }
        assert(m@ == apply_line(prev, k as int, raw)->Ok_0);
        i += 1;
    }
    assert(lines.deep_view().subrange(0, i as int) =~= lines.deep_view());
    Ok(m)
}

} // verus!
