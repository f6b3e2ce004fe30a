//! Laws of the interpreter, proved of the model that the executable
//! functions follow.

use crate::error::Fault;
use crate::instruction::{decode, decode_all, encode, encode_all, Instruction};
use crate::machine::{
    lemma_outcome_of_run,
    lemma_run_faulted,
    lemma_run_halted,
    lemma_run_unfold,
    lemma_run_wf,
    lemma_step_wf,
    open_loops,
    Machine,
    Program,
    MEMSIZE,
};
use vstd::prelude::*;

verus! {

/// Whether a source byte is one of the eight characters `> < + - [ ] , .`.
pub open spec fn is_instruction_byte(byte: u8) -> bool {
    byte == 62 || byte == 60 || byte == 43 || byte == 45 || byte == 91 || byte == 93 || byte
        == 44 || byte == 46
}

/// A byte that is none of the eight instruction characters decodes to a
/// comment, and only such a byte does.
pub proof fn lemma_decode_comment(byte: u8)
    ensures
        decode(byte) == Instruction::Comment <==> !is_instruction_byte(byte),
{
}

/// Decoding the encoding of an instruction gives the instruction back.
pub proof fn lemma_decode_encode(instruction: Instruction)
    ensures
        decode(encode(instruction)) == instruction,
{
}

/// Decoding the source text of a program gives the program back.
pub proof fn lemma_decode_encode_all(program: Seq<Instruction>)
    ensures
        decode_all(encode_all(program)) == program,
{
    assert(decode_all(encode_all(program)) =~= program);
}

/// Decoding, encoding and decoding again gives what the first decoding gave:
/// all that the encoding loses is which byte a comment was.
pub proof fn lemma_decode_is_stable(source: Seq<u8>)
    ensures
        decode_all(encode_all(decode_all(source))) == decode_all(source),
{
    lemma_decode_encode_all(decode_all(source));
}

/// A run through comments moves the instruction pointer to the end of the
/// program and changes nothing else.
pub proof fn lemma_run_comments(m: Machine, steps: nat)
    requires
        m.wf(),
        forall|i: int| m.pointer <= i < m.program.len() ==> m.program[i] == Instruction::Comment,
        steps >= m.program.len() - m.pointer,
    ensures
        m.run(steps) == (Machine { pointer: m.program.len(), ..m }),
        m.outcome(steps) == Some(m.verdict()),
    decreases m.program.len() - m.pointer,
{
    if m.halted() {
        lemma_run_halted(m, steps);
    } else {
        lemma_step_wf(m);
        lemma_run_unfold(m, steps);
        lemma_run_comments(m.step()->Ok_0, (steps - 1) as nat);
    }
}

/// A program made of bytes that are none of the eight instruction characters
/// runs to success in as many steps as it has bytes, and leaves the tape
/// all zero and the data pointer at 0.
pub proof fn lemma_inert_source(source: Seq<u8>, steps: nat)
    requires
        forall|i: int| 0 <= i < source.len() ==> !is_instruction_byte(#[trigger] source[i]),
        steps >= source.len(),
    ensures
        forall|i: int|
            0 <= i < source.len() ==> (#[trigger] decode_all(source)[i]) == Instruction::Comment,
        Machine::start(Program::fresh(decode_all(source))).outcome(steps) == Some(
            Ok::<(), Fault>(()),
        ),
        Machine::start(Program::fresh(decode_all(source))).run(steps) == (Machine {
            pointer: source.len(),
            ..Machine::start(Program::fresh(decode_all(source)))
        }),
{
    let program = decode_all(source);
    assert forall|i: int| 0 <= i < source.len() implies (#[trigger] program[i])
        == Instruction::Comment by {
        lemma_decode_comment(source[i]);
    }
    lemma_run_comments(Machine::start(Program::fresh(program)), steps);
}

/// A run through `count` increments adds `count` to the current cell,
/// modulo 256, and then goes on as from there with the steps that are left.
pub proof fn lemma_run_increments(m: Machine, count: nat, steps: nat)
    requires
        m.wf(),
        m.pointer + count <= m.program.len(),
        forall|i: int|
            m.pointer <= i < m.pointer + count ==> m.program[i] == Instruction::IncValue,
        steps >= count,
    ensures
        ({
            let after = Machine {
                pointer: m.pointer + count,
                memory: m.memory.update(m.mem_pointer as int, ((m.cell() + count) % 256) as u8),
                ..m
            };
            &&& after.wf()
            &&& m.run(steps) == after.run((steps - count) as nat)
            &&& m.outcome(steps) == after.outcome((steps - count) as nat)
        }),
    decreases count,
{
    let after = Machine {
        pointer: m.pointer + count,
        memory: m.memory.update(m.mem_pointer as int, ((m.cell() + count) % 256) as u8),
        ..m
    };
    if count == 0 {
        assert(after =~= m);
    } else {
        let next = m.step()->Ok_0;
        lemma_step_wf(m);
        lemma_run_unfold(m, steps);
        lemma_run_increments(next, (count - 1) as nat, (steps - 1) as nat);
        let after_next = Machine {
            pointer: next.pointer + (count - 1) as nat,
            memory: next.memory.update(
                next.mem_pointer as int,
                ((next.cell() + (count - 1) as nat) % 256) as u8,
            ),
            ..next
        };
        assert(after_next =~= after);
    }
}

/// A program of `count` increments runs to success in `count` steps and
/// leaves `count` modulo 256 in the first cell: 256 increments bring the
/// cell back to 0.
pub proof fn lemma_increments_wrap(count: nat, steps: nat)
    requires
        steps >= count,
    ensures
        ({
            let program = Seq::new(count, |i: int| Instruction::IncValue);
            let m = Machine::start(Program::fresh(program));
            &&& m.outcome(steps) == Some(Ok::<(), Fault>(()))
            &&& m.run(steps) == (Machine {
                pointer: count,
                memory: m.memory.update(0, (count % 256) as u8),
                ..m
            })
            &&& count == 256 ==> m.run(steps).memory[0] == 0
        }),
{
    let program = Seq::new(count, |i: int| Instruction::IncValue);
    let m = Machine::start(Program::fresh(program));
    lemma_run_increments(m, count, steps);
    let after = Machine {
        pointer: m.pointer + count,
        memory: m.memory.update(m.mem_pointer as int, ((m.cell() + count) % 256) as u8),
        ..m
    };
    lemma_run_halted(after, (steps - count) as nat);
}

/// A run through `count` moves to the right that stay on the tape moves
/// the data pointer by `count` cells, and then goes on as from there with
/// the steps that are left.
pub proof fn lemma_run_moves_right(m: Machine, count: nat, steps: nat)
    requires
        m.wf(),
        m.pointer + count <= m.program.len(),
        forall|i: int|
            m.pointer <= i < m.pointer + count ==> m.program[i] == Instruction::IncPoint,
        m.mem_pointer + count < MEMSIZE,
        steps >= count,
    ensures
        ({
            let after = Machine {
                pointer: m.pointer + count,
                mem_pointer: m.mem_pointer + count,
                ..m
            };
            &&& after.wf()
            &&& m.run(steps) == after.run((steps - count) as nat)
            &&& m.outcome(steps) == after.outcome((steps - count) as nat)
        }),
    decreases count,
{
    if count > 0 {
        lemma_step_wf(m);
        lemma_run_unfold(m, steps);
        lemma_run_moves_right(m.step()->Ok_0, (count - 1) as nat, (steps - 1) as nat);
    }
}

/// A program of `count` moves to the right succeeds with the data pointer
/// on cell `count` if that cell exists. If it does not, the run fails above
/// the tape at the first move that would leave it, with the data pointer on
/// the last cell.
pub proof fn lemma_right_edge(count: nat, steps: nat)
    requires
        steps >= count || steps >= MEMSIZE,
    ensures
        ({
            let program = Seq::new(count, |i: int| Instruction::IncPoint);
            let m = Machine::start(Program::fresh(program));
            if count < MEMSIZE {
                &&& m.outcome(steps) == Some(Ok::<(), Fault>(()))
                &&& m.run(steps) == (Machine { pointer: count, mem_pointer: count, ..m })
            } else {
                &&& m.outcome(steps) == Some(Err::<(), Fault>(Fault::MemPointerAboveBounds))
                &&& m.run(steps) == (Machine {
                    pointer: (MEMSIZE - 1) as nat,
                    mem_pointer: (MEMSIZE - 1) as nat,
                    ..m
                })
            }
        }),
{
    let program = Seq::new(count, |i: int| Instruction::IncPoint);
    let m = Machine::start(Program::fresh(program));
    let moves = if count < MEMSIZE {
        count
    } else {
        (MEMSIZE - 1) as nat
    };
    lemma_run_moves_right(m, moves, steps);
    let after = Machine { pointer: m.pointer + moves, mem_pointer: m.mem_pointer + moves, ..m };
    if count < MEMSIZE {
        lemma_run_halted(after, (steps - moves) as nat);
    } else {
        lemma_run_faulted(after, (steps - moves) as nat);
    }
}

/// A move to the left from the first cell fails below the tape, and the run
/// ends there.
pub proof fn lemma_left_edge(m: Machine, steps: nat)
    requires
        m.wf(),
        !m.halted(),
        m.program[m.pointer as int] == Instruction::DecPoint,
        m.mem_pointer == 0,
        steps > 0,
    ensures
        m.step() == Err::<Machine, Fault>(Fault::MemPointerBelowBounds),
        m.run(steps) == m,
        m.outcome(steps) == Some(Err::<(), Fault>(Fault::MemPointerBelowBounds)),
{
    lemma_run_faulted(m, steps);
}

/// A read with no input left fails, and the run ends there.
pub proof fn lemma_input_exhausted(m: Machine, steps: nat)
    requires
        m.wf(),
        !m.halted(),
        m.program[m.pointer as int] == Instruction::GetChar,
        m.input.len() == 0,
        steps > 0,
    ensures
        m.step() == Err::<Machine, Fault>(Fault::NoInput),
        m.run(steps) == m,
        m.outcome(steps) == Some(Err::<(), Fault>(Fault::NoInput)),
{
    lemma_run_faulted(m, steps);
}

/// A run that succeeds has reached the end of the program with no loop
/// open, and the loops of the program are matched: every `]` closes a loop,
/// and every loop is closed.
pub proof fn lemma_success_is_matched(m: Machine, steps: nat)
    requires
        m.wf(),
        m.outcome(steps) == Some(Ok::<(), Fault>(())),
    ensures
        m.run(steps).pointer == m.program.len(),
        m.run(steps).jump_stack.len() == 0,
        open_loops(m.program, m.program.len()) == Some(Seq::<nat>::empty()),
{
    lemma_run_wf(m, steps);
    lemma_outcome_of_run(m, steps);
    assert(m.run(steps).jump_stack =~= Seq::<nat>::empty());
}

/// A run that fails for open loops has reached the end of the program, and
/// reports exactly the loops that the program leaves open, the outermost
/// first.
pub proof fn lemma_unmatched_begin_is_exact(m: Machine, steps: nat, open: Seq<nat>)
    requires
        m.wf(),
        m.outcome(steps) == Some(Err::<(), Fault>(Fault::UnmatchedBeginLoop(open))),
    ensures
        m.run(steps).pointer == m.program.len(),
        open.len() > 0,
        open_loops(m.program, m.program.len()) == Some(open),
{
    lemma_run_wf(m, steps);
    lemma_outcome_of_run(m, steps);
}

/// A run that fails at a loop end has stopped at a `]` before which no loop
/// is open.
pub proof fn lemma_unmatched_end_is_exact(m: Machine, steps: nat, position: nat)
    requires
        m.wf(),
        m.outcome(steps) == Some(Err::<(), Fault>(Fault::UnmatchedEndLoop(position))),
    ensures
        m.run(steps).pointer == position,
        position < m.program.len(),
        m.program[position as int] == Instruction::LoopEnd,
        open_loops(m.program, position) == Some(Seq::<nat>::empty()),
        open_loops(m.program, position + 1) is None,
{
    lemma_run_wf(m, steps);
    lemma_outcome_of_run(m, steps);
    assert(m.run(steps).jump_stack =~= Seq::<nat>::empty());
}

/// In the body of a loop `[-]`, with the current cell at `c` above zero, the
/// body runs `c` times: after `2 * c` steps the cell is at zero, the loop is
/// closed and the instruction pointer is past the loop end.
pub proof fn lemma_run_countdown(m: Machine, steps: nat)
    requires
        m.wf(),
        m.pointer + 1 < m.program.len(),
        m.program[m.pointer as int] == Instruction::DecValue,
        m.program[m.pointer as int + 1] == Instruction::LoopEnd,
        m.jump_stack.len() > 0,
        m.jump_stack.last() + 1 == m.pointer,
        m.cell() > 0,
        steps >= 2 * m.cell(),
    ensures
        ({
            let after = Machine {
                pointer: m.pointer + 2,
                jump_stack: m.jump_stack.drop_last(),
                memory: m.memory.update(m.mem_pointer as int, 0),
                ..m
            };
            &&& after.wf()
            &&& m.run(steps) == after.run((steps - 2 * m.cell()) as nat)
            &&& m.outcome(steps) == after.outcome((steps - 2 * m.cell()) as nat)
        }),
    decreases m.cell(),
{
    let after = Machine {
        pointer: m.pointer + 2,
        jump_stack: m.jump_stack.drop_last(),
        memory: m.memory.update(m.mem_pointer as int, 0),
        ..m
    };
    let at_end = m.step()->Ok_0;
    lemma_step_wf(m);
    lemma_run_unfold(m, steps);
    let next = at_end.step()->Ok_0;
    lemma_step_wf(at_end);
    lemma_run_unfold(at_end, (steps - 1) as nat);
    if m.cell() == 1 {
        assert(next =~= after);
    } else {
        lemma_run_countdown(next, (steps - 2) as nat);
        let after_next = Machine {
            pointer: next.pointer + 2,
            jump_stack: next.jump_stack.drop_last(),
            memory: next.memory.update(next.mem_pointer as int, 0),
            ..next
        };
        assert(after_next =~= after);
    }
}

/// The program that sets the first cell to `value` by increments and then
/// runs the loop `[-]`.
pub open spec fn clearing_program(value: nat) -> Seq<Instruction> {
    Seq::new(value, |i: int| Instruction::IncValue) + seq![
        Instruction::LoopBegin,
        Instruction::DecValue,
        Instruction::LoopEnd,
    ]
}

/// With the first cell set to a value from 1 to 255, the loop `[-]` runs
/// its body that many times, brings the cell to 0 and the run succeeds: the
/// tape is all zero again, no loop is open, and the instruction pointer is
/// at the end of the program.
pub proof fn lemma_clearing_loop(value: nat, steps: nat)
    requires
        1 <= value <= 255,
        steps >= 3 * value + 1,
    ensures
        Machine::start(Program::fresh(clearing_program(value))).outcome(steps) == Some(
            Ok::<(), Fault>(()),
        ),
        Machine::start(Program::fresh(clearing_program(value))).run(steps) == (Machine {
            pointer: value + 3,
            ..Machine::start(Program::fresh(clearing_program(value)))
        }),
{
    let m = Machine::start(Program::fresh(clearing_program(value)));
    lemma_run_increments(m, value, steps);
    let at_begin = Machine {
        pointer: m.pointer + value,
        memory: m.memory.update(m.mem_pointer as int, ((m.cell() + value) % 256) as u8),
        ..m
    };
    let in_body = at_begin.step()->Ok_0;
    lemma_step_wf(at_begin);
    lemma_run_unfold(at_begin, (steps - value) as nat);
    lemma_run_countdown(in_body, (steps - value - 1) as nat);
    let past = Machine {
        pointer: in_body.pointer + 2,
        jump_stack: in_body.jump_stack.drop_last(),
        memory: in_body.memory.update(in_body.mem_pointer as int, 0),
        ..in_body
    };
    lemma_run_halted(past, (steps - value - 1 - 2 * value) as nat);
    assert(past =~= (Machine { pointer: value + 3, ..m }));
}

} // verus!
