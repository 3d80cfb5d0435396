//! The structured description of a machine: transitions, state lists and
//! alphabets, with their mathematical views.
use vstd::prelude::*;

verus! {

/// Where the head moves after a transition is applied.
#[derive(Clone, Copy, Debug, PartialEq, Eq, Structural)]
pub enum Direction {
    Right,
    Left,
}

/// A rule `(from_state, read_symbol) -> (to_state, write_symbol, direction)`.
#[derive(Clone, Debug)]
pub struct Transition {
    pub from_state: String,
    pub read_symbol: char,
    pub to_state: String,
    pub write_symbol: char,
    pub direction: Direction,
}

pub struct TransitionModel {
    pub from_state: Seq<char>,
    pub read_symbol: char,
    pub to_state: Seq<char>,
    pub write_symbol: char,
    pub direction: Direction,
}

impl View for Transition {
    type V = TransitionModel;

    open spec fn view(&self) -> TransitionModel {
        TransitionModel {
            from_state: self.from_state@,
            read_symbol: self.read_symbol,
            to_state: self.to_state@,
            write_symbol: self.write_symbol,
            direction: self.direction,
        }
    }
}

/// A machine description. The alphabets are descriptive only; transitions
/// are looked up in declaration order.
#[derive(Clone, Debug)]
pub struct TuringMachine {
    pub states: Vec<String>,
    pub input_alphabet: Vec<String>,
    pub tape_alphabet: Vec<String>,
    pub transitions: Vec<Transition>,
    pub initial_state: String,
    pub accept_states: Vec<String>,
}

pub struct MachineModel {
    pub states: Seq<Seq<char>>,
    pub input_alphabet: Seq<Seq<char>>,
    pub tape_alphabet: Seq<Seq<char>>,
    pub transitions: Seq<TransitionModel>,
    pub initial_state: Seq<char>,
    pub accept_states: Seq<Seq<char>>,
}

pub open spec fn transitions_view(ts: Seq<Transition>) -> Seq<TransitionModel> {
    ts.map_values(|t: Transition| t@)
}

impl View for TuringMachine {
    type V = MachineModel;

    open spec fn view(&self) -> MachineModel {
        MachineModel {
            states: self.states.deep_view(),
            input_alphabet: self.input_alphabet.deep_view(),
            tape_alphabet: self.tape_alphabet.deep_view(),
            transitions: transitions_view(self.transitions@),
            initial_state: self.initial_state@,
            accept_states: self.accept_states.deep_view(),
        }
    }
}

/// The machine with nothing declared: what a description starts from.
pub open spec fn empty_model() -> MachineModel {
    MachineModel {
        states: Seq::empty(),
        input_alphabet: Seq::empty(),
        tape_alphabet: Seq::empty(),
        transitions: Seq::empty(),
        initial_state: Seq::empty(),
        accept_states: Seq::empty(),
    }
}

} // verus!
