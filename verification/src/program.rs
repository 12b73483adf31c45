//! The program: an immutable instruction sequence plus the current
//! instruction position.

use vstd::prelude::*;

use crate::op::is_op_char;
use crate::op::op_of_char;
use crate::op::Op;

verus! {

/// An instruction sequence with the current execution position. The
/// instructions never change after construction; only the position moves.
pub struct OpList {
    pos: usize,
    ops: Vec<Op>,
}

impl OpList {
    /// The instructions, in program order.
    pub closed spec fn ops_seq(&self) -> Seq<Op> {
        self.ops@
    }

    /// The current instruction position.
    pub closed spec fn pos(&self) -> int {
        self.pos as int
    }

    /// Well-formed: the position is at an instruction or one past the end.
    pub open spec fn wf(&self) -> bool {
        0 <= self.pos() <= self.ops_seq().len()
    }

    /// Decode a filtered source string, one instruction per character. The
    /// caller must already have removed every character that is not one of
    /// the eight instruction spellings.
    pub fn new(operations: &str) -> (ol: OpList)
        requires
            forall|i: int| 0 <= i < operations@.len() ==> is_op_char(operations@[i]),
        ensures
            ol.wf(),
            ol.pos() == 0,
            ol.ops_seq().len() == operations@.len(),
            forall|i: int|
                0 <= i < operations@.len() ==> ol.ops_seq()[i] == op_of_char(operations@[i]),
    {
        let n = operations.unicode_len();
        let mut ops: Vec<Op> = Vec::new();
        let mut i: usize = 0;
        while i < n
            invariant
                i <= n,
                n == operations@.len(),
                forall|k: int| 0 <= k < operations@.len() ==> is_op_char(operations@[k]),
                ops@.len() == i,
                forall|k: int| 0 <= k < i ==> ops@[k] == op_of_char(operations@[k]),
            decreases n - i,
        {
            let c = operations.get_char(i);
            ops.push(Op::from_char(c));
            i = i + 1;
        }
        OpList { pos: 0, ops }
    }

    /// Number of instructions.
    pub fn len(&self) -> (n: usize)
        ensures
            n == self.ops_seq().len(),
    {
        self.ops.len()
    }

    /// The current position as an index.
    pub fn position(&self) -> (p: usize)
        ensures
            p == self.pos(),
    {
        self.pos
    }

    /// Move the position to `p`.
    pub fn set_position(&mut self, p: usize)
        requires
            p <= old(self).ops_seq().len(),
        ensures
            final(self).wf(),
            final(self).ops_seq() == old(self).ops_seq(),
            final(self).pos() == p,
    {
        self.pos = p;
    }

    /// The instruction at the current position.
    pub fn get(&self) -> (op: Op)
        requires
            0 <= self.pos() < self.ops_seq().len(),
        ensures
            op == self.ops_seq()[self.pos()],
    {
        self.ops[self.pos]
    }

    /// The instruction at position `i`.
    pub fn get_at(&self, i: usize) -> (op: Op)
        requires
            i < self.ops_seq().len(),
        ensures
            op == self.ops_seq()[i as int],
    {
        self.ops[i]
    }

    /// The window of instruction positions a host should render around the
    /// current position: at most `DISPLAYED_RANGE` positions on either side,
    /// clipped to the program, together with whether each side was clipped.
    /// The program must be non-empty and the position at an instruction.
    pub fn view_range(&self) -> (r: (usize, usize, bool, bool))
        requires
            0 <= self.pos() < self.ops_seq().len(),
        ensures
            r.0 == if self.pos() > DISPLAYED_RANGE {
                self.pos() - DISPLAYED_RANGE
            } else {
                0
            },
            r.1 == if self.pos() + DISPLAYED_RANGE < self.ops_seq().len() {
                self.pos() + DISPLAYED_RANGE
            } else {
                self.ops_seq().len() - 1
            },
            r.2 == (self.pos() > DISPLAYED_RANGE),
            r.3 == (self.pos() + DISPLAYED_RANGE < self.ops_seq().len()),
    {
        let len = self.ops.len();
        let cut_start = self.pos > DISPLAYED_RANGE;
        let start = if cut_start {
            self.pos - DISPLAYED_RANGE
        } else {
            0
        };
        let cut_end = len - self.pos > DISPLAYED_RANGE;
        let end = if len - self.pos > DISPLAYED_RANGE + 1 {
            self.pos + DISPLAYED_RANGE
        } else {
            len - 1
        };
        (start, end, cut_start, cut_end)
    }
}

/// How many instructions on either side of the current one belong in a
/// rendered preview of the program.
pub const DISPLAYED_RANGE: usize = 10;

} // verus!
