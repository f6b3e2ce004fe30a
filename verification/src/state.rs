//! The execution engine: the program with its cursor, the tape, and the
//! functions that execute one instruction or a whole program.

use crate::error::{positions, Fault, InterpreterError};
use crate::instruction::{decode_all, encode_all, Instruction};
use crate::machine::{lemma_open_loops_sorted, lemma_step_wf, Machine, Program, MEMSIZE};
use std::collections::VecDeque;
use vstd::prelude::*;

verus! {

/// A decoded program together with the instruction pointer and the stack of
/// open loops.
pub struct Instructions {
    instructions: Vec<Instruction>,
    pointer: usize,
    jump_stack: Vec<usize>,
}

impl View for Instructions {
    type V = Program;

    closed spec fn view(&self) -> Program {
        Program {
            instructions: self.instructions@,
            pointer: self.pointer as nat,
            jump_stack: positions(self.jump_stack@),
        }
    }
}

impl Instructions {
    /// A program before its first instruction.
    pub fn new(instructions: Vec<Instruction>) -> (program: Self)
        ensures
            program@ == Program::fresh(instructions@),
            program@.wf(),
    {
        let program = Instructions { instructions, pointer: 0, jump_stack: Vec::new() };
        assert(program@ =~= Program::fresh(instructions@));
        program
    }

    /// Writes the program back as source text, one byte for each
    /// instruction.
    pub fn to_source(&self) -> (source: Vec<u8>)
        ensures
            source@ == encode_all(self@.instructions),
    {
        let mut source: Vec<u8> = Vec::new();
        let mut index: usize = 0;
        while index < self.instructions.len()
            invariant
                index <= self.instructions.len(),
                source@ == encode_all(self.instructions@.take(index as int)),
            decreases self.instructions.len() - index,
        {
            source.push(self.instructions[index].to_byte());
            assert(self.instructions@.take(index + 1) =~= self.instructions@.take(
                index as int,
            ).push(self.instructions[index as int]));
            index += 1;
        }
        assert(self.instructions@.take(index as int) =~= self.instructions@);
        source
    }

    /// The decoded instructions, in the order of the source text.
    pub fn instructions(&self) -> (instructions: &Vec<Instruction>)
        ensures
            instructions@ == self@.instructions,
    {
        &self.instructions
    }
}

/// Decodes a source text: every byte becomes one instruction, and the
/// program stands before its first instruction.
pub fn get_instructions(input: &[u8]) -> (program: Instructions)
    ensures
        program@ == Program::fresh(decode_all(input@)),
        program@.wf(),
{
    let mut instructions: Vec<Instruction> = Vec::new();
    let mut index: usize = 0;
    while index < input.len()
        invariant
            index <= input.len(),
            instructions@ == decode_all(input@.take(index as int)),
        decreases input.len() - index,
    {
        instructions.push(Instruction::new(input[index]));
        assert(input@.take(index + 1) =~= input@.take(index as int).push(input[index as int]));
        index += 1;
    }
    assert(input@.take(index as int) =~= input@);
    Instructions::new(instructions)
}

/// An execution in progress: the program and its cursor, the tape, the data
/// pointer, the input waiting to be read and the output written so far.
pub struct State {
    instructions: Instructions,
    memory: [u8; MEMSIZE],
    mem_pointer: usize,
    input: VecDeque<u8>,
    output: Vec<u8>,
}

impl View for State {
    type V = Machine;

    closed spec fn view(&self) -> Machine {
        Machine {
            program: self.instructions@.instructions,
            pointer: self.instructions@.pointer,
            jump_stack: self.instructions@.jump_stack,
            memory: self.memory@,
            mem_pointer: self.mem_pointer as nat,
            input: self.input@,
            output: self.output@,
        }
    }
}

impl State {
    /// Puts a program in front of a tape of zeros, with the data pointer on
    /// the first cell, no input and no output.
    pub fn initialize(instructions: Instructions) -> (state: Self)
        requires
            instructions@.wf(),
        ensures
            state@ == Machine::start(instructions@),
            state@.wf(),
    {
        let state = State {
            instructions,
            memory: [0; MEMSIZE],
            mem_pointer: 0,
            input: VecDeque::new(),
            output: Vec::new(),
        };
        assert(state@ =~= Machine::start(instructions@));
        state
    }

    /// Executes the instruction at the instruction pointer.
    ///
    /// On success the state is the one that the instruction leads to. On a
    /// fault nothing has changed.
    pub fn update_state(&mut self) -> (result: Result<(), InterpreterError>)
        requires
            old(self)@.wf(),
            !old(self)@.halted(),
        ensures
            match result {
                Ok(()) => old(self)@.step() == Ok::<Machine, Fault>(final(self)@),
                Err(error) => old(self)@.step() == Err::<Machine, Fault>(error@) && final(self)@
                    == old(self)@,
            },
            final(self)@.wf(),
    {
        proof {
            lemma_open_loops_sorted(old(self)@.program, old(self)@.pointer);
        }
        match self.instructions.instructions[self.instructions.pointer] {
            Instruction::IncPoint => {
                if self.mem_pointer < MEMSIZE - 1 {
                    self.mem_pointer += 1;
                } else {
                    return Err(InterpreterError::MemPointerAboveBounds);
                }
            },
            Instruction::DecPoint => {
                if self.mem_pointer > 0 {
                    self.mem_pointer -= 1;
                } else {
                    return Err(InterpreterError::MemPointerBelowBounds);
                }
            },
            Instruction::IncValue => {
                self.memory[self.mem_pointer] = self.memory[self.mem_pointer].wrapping_add(1);
            },
            Instruction::DecValue => {
                self.memory[self.mem_pointer] = self.memory[self.mem_pointer].wrapping_sub(1);
            },
            Instruction::LoopBegin => {
                self.instructions.jump_stack.push(self.instructions.pointer);
                assert(positions(self.instructions.jump_stack@) =~= positions(
                    old(self).instructions.jump_stack@,
                ).push(self.instructions.pointer as nat));
            },
            Instruction::LoopEnd => {
                match self.instructions.jump_stack.pop() {
                    Some(pointer) => {
                        assert(positions(self.instructions.jump_stack@) =~= positions(
                            old(self).instructions.jump_stack@,
                        ).drop_last());
                        assert(pointer < self.instructions.pointer);
                        if self.memory[self.mem_pointer] != 0 {
                            self.instructions.jump_stack.push(pointer);
                            assert(self.instructions.jump_stack@ =~= old(
                                self,
                            ).instructions.jump_stack@);
                            self.instructions.pointer = pointer;
                        }
                    },
                    None => {
                        return Err(
                            InterpreterError::UnmatchedEndLoop(self.instructions.pointer),
                        );
                    },
                }
            },
            Instruction::GetChar => {
                match self.input.pop_front() {
                    Some(value) => {
                        self.memory[self.mem_pointer] = value;
                    },
                    None => {
                        return Err(InterpreterError::NoInput);
                    },
                }
            },
            Instruction::PutChar => {
                self.output.push(self.memory[self.mem_pointer]);
            },
            Instruction::Comment => {},
        }
        assert(self.instructions.pointer < self.instructions.instructions.len());
        self.instructions.pointer += 1;
        proof {
            assert(self@ =~= old(self)@.step()->Ok_0);
            lemma_step_wf(old(self)@);
        }
        Ok(())
    }

    /// Executes up to `max_steps` instructions: fewer if the instruction
    /// pointer runs past the end of the program, or an instruction faults,
    /// before that.
    ///
    /// The first fault ends the run and is returned; the state is then the
    /// one before the failing instruction. A run that reaches the end of the
    /// program succeeds if no loop is open, and otherwise fails with the
    /// positions of the open loops, the outermost first. A run that has
    /// executed `max_steps` instructions without reaching the end returns
    /// `None`; another call goes on from there.
    pub fn run_program(&mut self, max_steps: usize) -> (result: Option<
        Result<(), InterpreterError>,
    >)
        requires
            old(self)@.wf(),
        ensures
            final(self)@ == old(self)@.run(max_steps as nat),
            match result {
                None => old(self)@.outcome(max_steps as nat) == None::<Result<(), Fault>>,
                Some(Ok(())) => old(self)@.outcome(max_steps as nat) == Some(Ok::<(), Fault>(())),
                Some(Err(error)) => old(self)@.outcome(max_steps as nat) == Some(
                    Err::<(), Fault>(error@),
                ),
            },
            final(self)@.wf(),
    {
        let mut steps_left = max_steps;
        while steps_left > 0 && self.instructions.pointer < self.instructions.instructions.len()
            invariant
                self@.wf(),
                self@.run(steps_left as nat) == old(self)@.run(max_steps as nat),
                self@.outcome(steps_left as nat) == old(self)@.outcome(max_steps as nat),
            decreases steps_left,
        {
            steps_left -= 1;
            match self.update_state() {
                Ok(()) => {},
                Err(error) => {
                    return Some(Err(error));
                },
            }
        }
        if self.instructions.pointer < self.instructions.instructions.len() {
            None
        } else if self.instructions.jump_stack.is_empty() {
            Some(Ok(()))
        } else {
            let open_loops = self.instructions.jump_stack.clone();
            assert(open_loops@ =~= self.instructions.jump_stack@);
            Some(Err(InterpreterError::UnmatchedBeginLoop(open_loops)))
        }
    }

    /// Appends one byte to the input that waits to be read.
    pub fn push_input(&mut self, byte: u8)
        ensures
            final(self)@ == (Machine { input: old(self)@.input.push(byte), ..old(self)@ }),
    {
        self.input.push_back(byte);
    }

    /// Hands out the output written since the last call, and forgets it.
    pub fn take_output(&mut self) -> (output: Vec<u8>)
        ensures
            output@ == old(self)@.output,
            final(self)@ == (Machine { output: Seq::empty(), ..old(self)@ }),
    {
        let mut output: Vec<u8> = Vec::new();
        std::mem::swap(&mut output, &mut self.output);
        output
    }

    /// Whether an instruction is left to execute: the instruction pointer
    /// has not run past the end of the program.
    pub fn is_running(&self) -> (running: bool)
        ensures
            running == !self@.halted(),
    {
        self.instructions.pointer < self.instructions.instructions.len()
    }

    /// The tape.
    pub fn memory(&self) -> (memory: &[u8; MEMSIZE])
        ensures
            memory@ == self@.memory,
    {
        &self.memory
    }

    /// The data pointer.
    pub fn mem_pointer(&self) -> (mem_pointer: usize)
        ensures
            mem_pointer == self@.mem_pointer,
    {
        self.mem_pointer
    }

    /// The instruction pointer.
    pub fn pointer(&self) -> (pointer: usize)
        ensures
            pointer == self@.pointer,
    {
        self.instructions.pointer
    }

    /// The positions of the `[` instructions whose loops are open, the
    /// innermost last.
    pub fn jump_stack(&self) -> (jump_stack: &Vec<usize>)
        ensures
            positions(jump_stack@) == self@.jump_stack,
    {
        &self.instructions.jump_stack
    }

    /// The output written and not yet taken.
    pub fn output(&self) -> (output: &Vec<u8>)
        ensures
            output@ == self@.output,
    {
        &self.output
    }
}

} // verus!
