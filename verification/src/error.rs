//! The ways in which a run can fail.

use vstd::prelude::*;

verus! {

/// The reason why execution stopped without success. The first fault ends the
/// run; nothing is retried or skipped.
#[derive(Clone, Debug, PartialEq, Eq)]
pub enum InterpreterError {
    /// The program ended while loops were still open. Holds the positions of
    /// their `[` instructions, the one opened first at the front.
    UnmatchedBeginLoop(Vec<usize>),
    /// A `]` was executed while no loop was open. Holds the position of that
    /// `]` instruction.
    UnmatchedEndLoop(usize),
    /// A `<` was executed with the data pointer on the first cell.
    MemPointerBelowBounds,
    /// A `>` was executed with the data pointer on the last cell.
    MemPointerAboveBounds,
    /// A `,` was executed with no input left.
    NoInput,
}

/// The mathematical counterpart of [`InterpreterError`].
pub enum Fault {
    UnmatchedBeginLoop(Seq<nat>),
    UnmatchedEndLoop(nat),
    MemPointerBelowBounds,
    MemPointerAboveBounds,
    NoInput,
}

/// A list of instruction positions as natural numbers.
pub open spec fn positions(indices: Seq<usize>) -> Seq<nat> {
    indices.map_values(|index: usize| index as nat)
}

impl View for InterpreterError {
    type V = Fault;

    open spec fn view(&self) -> Fault {
        match *self {
            InterpreterError::UnmatchedBeginLoop(open_loops) => Fault::UnmatchedBeginLoop(
                positions(open_loops@),
            ),
            InterpreterError::UnmatchedEndLoop(position) => Fault::UnmatchedEndLoop(
                position as nat,
            ),
            InterpreterError::MemPointerBelowBounds => Fault::MemPointerBelowBounds,
            InterpreterError::MemPointerAboveBounds => Fault::MemPointerAboveBounds,
            InterpreterError::NoInput => Fault::NoInput,
        }
    }
}

} // verus!
