//! The eight instructions of the language and their one-character spellings.

use vstd::prelude::*;

verus! {

/// One instruction of the tape machine.
#[derive(Clone, Copy, PartialEq, Eq, Structural, Debug)]
pub enum Op {
    Left,
    Right,
    Incr,
    Decr,
    Out,
    In,
    Open,
    Close,
}

/// Whether `c` spells an instruction: one of `<`, `>`, `+`, `-`, `.`, `,`,
/// `[`, `]`.
pub open spec fn is_op_char(c: char) -> bool {
    c == '<' || c == '>' || c == '+' || c == '-' || c == '.' || c == ',' || c == '[' || c == ']'
}

/// The instruction spelled by `c`; meaningful only when `is_op_char(c)`.
pub open spec fn op_of_char(c: char) -> Op {
    if c == '<' {
        Op::Left
    } else if c == '>' {
        Op::Right
    } else if c == '+' {
        Op::Incr
    } else if c == '-' {
        Op::Decr
    } else if c == '.' {
        Op::Out
    } else if c == ',' {
        Op::In
    } else if c == '[' {
        Op::Open
    } else {
        Op::Close
    }
}

/// The character that spells `op`.
pub open spec fn char_of_op(op: Op) -> char {
    match op {
        Op::Left => '<',
        Op::Right => '>',
        Op::Incr => '+',
        Op::Decr => '-',
        Op::Out => '.',
        Op::In => ',',
        Op::Open => '[',
        Op::Close => ']',
    }
}

impl Op {
    /// Decode one source character. The caller must already have filtered
    /// the source down to the eight accepted characters; anything else is a
    /// contract violation, not a recoverable error.
    pub fn from_char(c: char) -> (op: Op)
        requires
            is_op_char(c),
        ensures
            op == op_of_char(c),
    {
        match c {
            '<' => Op::Left,
            '>' => Op::Right,
            '+' => Op::Incr,
            '-' => Op::Decr,
            '.' => Op::Out,
            ',' => Op::In,
            '[' => Op::Open,
            _ => Op::Close,
        }
    }

    /// The source character for this instruction.
    pub fn to_char(self) -> (c: char)
        ensures
            c == char_of_op(self),
            is_op_char(c),
            op_of_char(c) == self,
    {
        match self {
            Op::Left => '<',
            Op::Right => '>',
            Op::Incr => '+',
            Op::Decr => '-',
            Op::Out => '.',
            Op::In => ',',
            Op::Open => '[',
            Op::Close => ']',
        }
    }
}

} // verus!
