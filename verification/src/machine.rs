//! The mathematical model of the interpreter: a machine state, the effect of
//! one instruction on it, and the outcome of a run of a given number of
//! instructions.

use crate::error::Fault;
use crate::instruction::Instruction;
use vstd::prelude::*;

verus! {

/// The number of cells on the tape.
pub const MEMSIZE: usize = 30000;

/// The loops that are open after the first `upto` instructions of a
/// program, read from left to right: the positions of the `[` that no later
/// `]` among them has closed, the outermost first. There is no such list
/// where one of those `]` stands with no loop open.
pub open spec fn open_loops(instructions: Seq<Instruction>, upto: nat) -> Option<Seq<nat>>
    decreases upto,
{
    if upto == 0 {
        Some(Seq::empty())
    } else {
        let position = (upto - 1) as nat;
        match open_loops(instructions, position) {
            None => None,
            Some(before) => match instructions[position as int] {
                Instruction::LoopBegin => Some(before.push(position)),
                Instruction::LoopEnd => if before.len() == 0 {
                    None
                } else {
                    Some(before.drop_last())
                },
                _ => Some(before),
            },
        }
    }
}

/// A program under execution: its instructions, and where the run stands
/// in them.
#[verifier::ext_equal]
pub struct Program {
    /// The decoded instructions. They never change during a run.
    pub instructions: Seq<Instruction>,
    /// The instruction pointer: the position of the next instruction.
    pub pointer: nat,
    /// The positions of the `[` instructions whose loops are open, the
    /// innermost last.
    pub jump_stack: Seq<nat>,
}

impl Program {
    /// A program before its first instruction: the instruction pointer at 0
    /// and no loop open.
    pub open spec fn fresh(instructions: Seq<Instruction>) -> Program {
        Program { instructions, pointer: 0, jump_stack: Seq::empty() }
    }

    /// The instruction pointer is within the program or just past its end,
    /// and the jump stack holds exactly the loops that are open among the
    /// instructions before the instruction pointer.
    pub open spec fn wf(self) -> bool {
        &&& self.pointer <= self.instructions.len()
        &&& open_loops(self.instructions, self.pointer) == Some(self.jump_stack)
    }
}

/// The whole state of an execution.
#[verifier::ext_equal]
pub struct Machine {
    /// The decoded program. It never changes during a run.
    pub program: Seq<Instruction>,
    /// The instruction pointer: the position of the next instruction.
    pub pointer: nat,
    /// The positions of the `[` instructions whose loops are open, the
    /// innermost last.
    pub jump_stack: Seq<nat>,
    /// The tape.
    pub memory: Seq<u8>,
    /// The data pointer: the position of the current cell.
    pub mem_pointer: nat,
    /// The input that has not been read yet.
    pub input: Seq<u8>,
    /// The output written so far.
    pub output: Seq<u8>,
}

impl Machine {
    /// The state in which the execution of a program begins: a tape of
    /// zeros, the data pointer at 0, no input and no output.
    pub open spec fn start(program: Program) -> Machine {
        Machine {
            program: program.instructions,
            pointer: program.pointer,
            jump_stack: program.jump_stack,
            memory: Seq::new(MEMSIZE as nat, |i: int| 0u8),
            mem_pointer: 0,
            input: Seq::empty(),
            output: Seq::empty(),
        }
    }

    /// The program and the place of the run in it.
    pub open spec fn cursor(self) -> Program {
        Program {
            instructions: self.program,
            pointer: self.pointer,
            jump_stack: self.jump_stack,
        }
    }

    /// What holds of every state that a run can reach: the program part is
    /// well formed, the tape has its full length, and the data pointer is on
    /// the tape.
    pub open spec fn wf(self) -> bool {
        &&& self.cursor().wf()
        &&& self.memory.len() == MEMSIZE
        &&& self.mem_pointer < MEMSIZE
    }

    /// The instruction pointer has run past the last instruction.
    pub open spec fn halted(self) -> bool {
        self.pointer >= self.program.len()
    }

    /// The value of the current cell.
    pub open spec fn cell(self) -> u8 {
        self.memory[self.mem_pointer as int]
    }

    /// The effect of the instruction at the instruction pointer: the next
    /// state, or the fault that the instruction causes.
    ///
    /// A move of the data pointer fails at the edge of the tape. A change of
    /// the current cell wraps around. A loop begin opens a loop at its own
    /// position. A loop end fails if no loop is open. With a non-zero cell
    /// it repeats the innermost loop: the loop stays open and the
    /// instruction pointer goes to the instruction after that loop's begin.
    /// With a zero cell it closes the innermost loop. A read fails if no
    /// input is left. After every instruction that succeeds, but such a
    /// jump, the instruction pointer has moved on by one.
    pub open spec fn step(self) -> Result<Machine, Fault>
        recommends
            self.wf(),
            !self.halted(),
    {
        let next = (self.pointer + 1) as nat;
        match self.program[self.pointer as int] {
            Instruction::IncPoint => if self.mem_pointer + 1 < MEMSIZE {
                Ok(Machine { mem_pointer: (self.mem_pointer + 1) as nat, pointer: next, ..self })
            } else {
                Err(Fault::MemPointerAboveBounds)
            },
            Instruction::DecPoint => if self.mem_pointer > 0 {
                Ok(Machine { mem_pointer: (self.mem_pointer - 1) as nat, pointer: next, ..self })
            } else {
                Err(Fault::MemPointerBelowBounds)
            },
            Instruction::IncValue => Ok(
                Machine {
                    memory: self.memory.update(
                        self.mem_pointer as int,
                        self.cell().wrapping_add(1),
                    ),
                    pointer: next,
                    ..self
                },
            ),
            Instruction::DecValue => Ok(
                Machine {
                    memory: self.memory.update(
                        self.mem_pointer as int,
                        self.cell().wrapping_sub(1),
                    ),
                    pointer: next,
                    ..self
                },
            ),
            Instruction::LoopBegin => Ok(
                Machine { jump_stack: self.jump_stack.push(self.pointer), pointer: next, ..self },
            ),
            Instruction::LoopEnd => if self.jump_stack.len() == 0 {
                Err(Fault::UnmatchedEndLoop(self.pointer))
            } else if self.cell() != 0 {
                Ok(Machine { pointer: (self.jump_stack.last() + 1) as nat, ..self })
            } else {
                Ok(Machine { jump_stack: self.jump_stack.drop_last(), pointer: next, ..self })
            },
            Instruction::GetChar => if self.input.len() == 0 {
                Err(Fault::NoInput)
            } else {
                Ok(
                    Machine {
                        memory: self.memory.update(self.mem_pointer as int, self.input[0]),
                        input: self.input.drop_first(),
                        pointer: next,
                        ..self
                    },
                )
            },
            Instruction::PutChar => Ok(
                Machine { output: self.output.push(self.cell()), pointer: next, ..self },
            ),
            Instruction::Comment => Ok(Machine { pointer: next, ..self }),
        }
    }

    /// The state after a run of at most `steps` instructions: the run stops
    /// before that where the program has halted or an instruction faults.
    pub open spec fn run(self, steps: nat) -> Machine
        decreases steps,
    {
        if self.halted() || steps == 0 {
            self
        } else {
            match self.step() {
                Ok(next) => next.run((steps - 1) as nat),
                Err(_) => self,
            }
        }
    }

    /// How a run of at most `steps` instructions ends: with the verdict at
    /// the end of the program, with the fault of the first instruction that
    /// fails, or, where `steps` instructions have succeeded and the program
    /// has not halted, with nothing.
    pub open spec fn outcome(self, steps: nat) -> Option<Result<(), Fault>>
        decreases steps,
    {
        if self.halted() {
            Some(self.verdict())
        } else if steps == 0 {
            None
        } else {
            match self.step() {
                Ok(next) => next.outcome((steps - 1) as nat),
                Err(fault) => Some(Err(fault)),
            }
        }
    }

    /// The verdict on a run whose instruction pointer has reached the end of
    /// the program: success if no loop is open, else the open loops.
    pub open spec fn verdict(self) -> Result<(), Fault> {
        if self.jump_stack.len() == 0 {
            Ok(())
        } else {
            Err(Fault::UnmatchedBeginLoop(self.jump_stack))
        }
    }
}

/// The open loops are positions of `[` instructions among those read, in
/// rising order.
pub proof fn lemma_open_loops_sorted(instructions: Seq<Instruction>, upto: nat)
    requires
        upto <= instructions.len(),
        open_loops(instructions, upto) is Some,
    ensures
        forall|i: int|
            0 <= i < open_loops(instructions, upto)->0.len() ==> {
                &&& (#[trigger] open_loops(instructions, upto)->0[i]) < upto
                &&& instructions[open_loops(instructions, upto)->0[i] as int]
                    == Instruction::LoopBegin
            },
        forall|i: int, j: int|
            0 <= i < j < open_loops(instructions, upto)->0.len() ==> (#[trigger] open_loops(
                instructions,
                upto,
            )->0[i]) < (#[trigger] open_loops(instructions, upto)->0[j]),
    decreases upto,
{
    if upto > 0 {
        lemma_open_loops_sorted(instructions, (upto - 1) as nat);
    }
}

/// A loop that is open has been open since its `[`: the loops open just
/// after that `[` are the loop itself and those listed before it.
pub proof fn lemma_open_loops_since(instructions: Seq<Instruction>, upto: nat, index: int)
    requires
        open_loops(instructions, upto) is Some,
        0 <= index < open_loops(instructions, upto)->0.len(),
    ensures
        open_loops(instructions, open_loops(instructions, upto)->0[index] + 1) == Some(
            open_loops(instructions, upto)->0.take(index + 1),
        ),
    decreases upto,
{
    let open = open_loops(instructions, upto)->0;
    if upto > 0 {
        let position = (upto - 1) as nat;
        let before = open_loops(instructions, position)->0;
        if instructions[position as int] == Instruction::LoopBegin && index == open.len() - 1 {
            assert(open.take(index + 1) =~= open);
        } else {
            lemma_open_loops_since(instructions, position, index);
            assert(open.take(index + 1) =~= before.take(index + 1));
        }
    }
}

/// An instruction that succeeds leaves the machine well formed, with the
/// same program.
pub proof fn lemma_step_wf(m: Machine)
    requires
        m.wf(),
        !m.halted(),
        m.step() is Ok,
    ensures
        m.step()->Ok_0.wf(),
        m.step()->Ok_0.program == m.program,
{
    if m.program[m.pointer as int] == Instruction::LoopEnd && m.cell() != 0 {
        let top = m.jump_stack.len() - 1;
        lemma_open_loops_sorted(m.program, m.pointer);
        lemma_open_loops_since(m.program, m.pointer, top);
        assert(m.jump_stack.take(top + 1) =~= m.jump_stack);
    }
}

/// A run goes on from the state that its first instruction leads to, with
/// one step less.
pub proof fn lemma_run_unfold(m: Machine, steps: nat)
    requires
        !m.halted(),
        steps > 0,
        m.step() is Ok,
    ensures
        m.run(steps) == m.step()->Ok_0.run((steps - 1) as nat),
        m.outcome(steps) == m.step()->Ok_0.outcome((steps - 1) as nat),
{
}

/// A run from a state that has halted stays there and gives the verdict,
/// whatever the number of steps.
pub proof fn lemma_run_halted(m: Machine, steps: nat)
    requires
        m.halted(),
    ensures
        m.run(steps) == m,
        m.outcome(steps) == Some(m.verdict()),
{
}

/// A run from a state whose next instruction faults stays there and gives
/// that fault, if it has a step to try the instruction.
pub proof fn lemma_run_faulted(m: Machine, steps: nat)
    requires
        !m.halted(),
        steps > 0,
        m.step() is Err,
    ensures
        m.run(steps) == m,
        m.outcome(steps) == Some(Err::<(), Fault>(m.step()->Err_0)),
{
}

/// A run leaves the machine well formed, with the same program.
pub proof fn lemma_run_wf(m: Machine, steps: nat)
    requires
        m.wf(),
    ensures
        m.run(steps).wf(),
        m.run(steps).program == m.program,
    decreases steps,
{
    if !m.halted() && steps > 0 && m.step() is Ok {
        lemma_step_wf(m);
        lemma_run_wf(m.step()->Ok_0, (steps - 1) as nat);
    }
}

/// A run that has ended within `steps` instructions ends in the same state
/// and in the same way with any larger number of steps.
pub proof fn lemma_run_stable(m: Machine, steps: nat, more: nat)
    requires
        m.outcome(steps) is Some,
        more >= steps,
    ensures
        m.run(more) == m.run(steps),
        m.outcome(more) == m.outcome(steps),
    decreases steps,
{
    if !m.halted() && steps > 0 && m.step() is Ok {
        lemma_run_stable(m.step()->Ok_0, (steps - 1) as nat, (more - 1) as nat);
    }
}

/// How a run ends is read off the state in which it stops: the verdict if
/// the program has halted there, else the fault of the next instruction.
pub proof fn lemma_outcome_of_run(m: Machine, steps: nat)
    requires
        m.outcome(steps) is Some,
    ensures
        m.run(steps).halted() ==> m.outcome(steps) == Some(m.run(steps).verdict()),
        !m.run(steps).halted() ==> m.run(steps).step() is Err && m.outcome(steps) == Some(
            Err::<(), Fault>(m.run(steps).step()->Err_0),
        ),
    decreases steps,
{
    if !m.halted() && steps > 0 && m.step() is Ok {
        lemma_outcome_of_run(m.step()->Ok_0, (steps - 1) as nat);
    }
}

/// A run can be made in two parts: the second part goes on from where the
/// first one stopped.
pub proof fn lemma_run_split(m: Machine, first: nat, second: nat)
    ensures
        m.run(first + second) == m.run(first).run(second),
        m.outcome(first) is None ==> m.outcome(first + second) == m.run(first).outcome(second),
    decreases first,
{
    if m.halted() {
    } else if first == 0 {
    } else {
        match m.step() {
            Ok(next) => {
                lemma_run_split(next, (first - 1) as nat, second);
            },
            Err(_) => {
                if second > 0 {
                }
            },
        }
    }
}

} // verus!
