//! The instruction set and its source encoding.

use vstd::prelude::*;

verus! {

/// One instruction of the language. Every source byte stands for exactly one.
#[derive(Clone, Copy, Debug, PartialEq, Eq, Structural)]
pub enum Instruction {
    /// `>`: move the data pointer one cell to the right.
    IncPoint,
    /// `<`: move the data pointer one cell to the left.
    DecPoint,
    /// `+`: add one to the current cell, wrapping from 255 to 0.
    IncValue,
    /// `-`: subtract one from the current cell, wrapping from 0 to 255.
    DecValue,
    /// `[`: open a loop.
    LoopBegin,
    /// `]`: close the innermost open loop.
    LoopEnd,
    /// `,`: read one byte of input into the current cell.
    GetChar,
    /// `.`: write the current cell as one byte of output.
    PutChar,
    /// Any other byte: no effect.
    Comment,
}

/// The instruction that a source byte stands for: the ASCII codes of
/// `> < + - [ ] , .` stand for the eight instructions that act, every other
/// byte for a comment.
pub open spec fn decode(byte: u8) -> Instruction {
    if byte == 62 {
        Instruction::IncPoint
    } else if byte == 60 {
        Instruction::DecPoint
    } else if byte == 43 {
        Instruction::IncValue
    } else if byte == 45 {
        Instruction::DecValue
    } else if byte == 91 {
        Instruction::LoopBegin
    } else if byte == 93 {
        Instruction::LoopEnd
    } else if byte == 44 {
        Instruction::GetChar
    } else if byte == 46 {
        Instruction::PutChar
    } else {
        Instruction::Comment
    }
}

/// The byte that is written for an instruction in source text. A comment is
/// written as a space.
pub open spec fn encode(instruction: Instruction) -> u8 {
    match instruction {
        Instruction::IncPoint => 62,
        Instruction::DecPoint => 60,
        Instruction::IncValue => 43,
        Instruction::DecValue => 45,
        Instruction::LoopBegin => 91,
        Instruction::LoopEnd => 93,
        Instruction::GetChar => 44,
        Instruction::PutChar => 46,
        Instruction::Comment => 32,
    }
}

/// The program that a source text stands for: each byte decoded by itself,
/// in the order of the text.
pub open spec fn decode_all(source: Seq<u8>) -> Seq<Instruction> {
    source.map_values(|byte: u8| decode(byte))
}

/// The source text of a program: each instruction encoded by itself, in the
/// order of the program.
pub open spec fn encode_all(program: Seq<Instruction>) -> Seq<u8> {
    program.map_values(|instruction: Instruction| encode(instruction))
}

impl Instruction {
    /// Decodes one source byte. The eight ASCII characters `> < + - [ ] , .`
    /// give their instructions; every other byte is a comment.
    pub fn new(instruction: u8) -> (decoded: Self)
        ensures
            decoded == decode(instruction),
    {
        match instruction {
            62 => Self::IncPoint,
            60 => Self::DecPoint,
            43 => Self::IncValue,
            45 => Self::DecValue,
            91 => Self::LoopBegin,
            93 => Self::LoopEnd,
            44 => Self::GetChar,
            46 => Self::PutChar,
            _ => Self::Comment,
        }
    }

    /// Encodes the instruction as one source byte.
    pub fn to_byte(self) -> (byte: u8)
        ensures
            byte == encode(self),
    {
        match self {
            Self::IncPoint => 62,
            Self::DecPoint => 60,
            Self::IncValue => 43,
            Self::DecValue => 45,
            Self::LoopBegin => 91,
            Self::LoopEnd => 93,
            Self::GetChar => 44,
            Self::PutChar => 46,
            Self::Comment => 32,
        }
    }
}

} // verus!
