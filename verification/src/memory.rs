//! The memory tape: a growable sequence of byte cells and one pointer.
//!
//! The tape starts as one block of zeroed cells. Moving right past the end
//! appends another zeroed block, so rightward moves never fail; moving left
//! at cell 0 is a fatal pointer underflow. Cell arithmetic wraps modulo 256.

use vstd::prelude::*;

verus! {

/// Number of cells in the initial tape and in each growth block.
pub const DEFAULT_MEMORY_CAPACITY: usize = 65536;

/// A fatal run-time error: execution cannot continue once one occurs.
#[derive(Clone, Copy, PartialEq, Eq, Structural, Debug)]
pub enum FatalError {
    /// A leftward move was requested while the pointer was at cell 0.
    PointerUnderflow,
}

/// A sequence of `n` zeroed cells.
pub open spec fn zeros(n: nat) -> Seq<u8> {
    Seq::new(n, |i: int| 0u8)
}

/// `v + 1` with 8-bit wraparound.
pub open spec fn inc_cell(v: u8) -> u8 {
    (((v as int) + 1) % 256) as u8
}

/// `v - 1` with 8-bit wraparound.
pub open spec fn dec_cell(v: u8) -> u8 {
    (((v as int) + 255) % 256) as u8
}

/// Cells per row of a rendered tape preview.
pub const CHUNK_SIZE: usize = 16;

/// Rows in a rendered tape preview.
pub const CHUNKS_DISPLAYED: usize = 4;

/// The value after `n` increments of `v`, each wrapping modulo 256.
pub open spec fn iter_inc(v: u8, n: nat) -> u8
    decreases n,
{
    if n == 0 {
        v
    } else {
        inc_cell(iter_inc(v, (n - 1) as nat))
    }
}

/// The value after `n` decrements of `v`, each wrapping modulo 256.
pub open spec fn iter_dec(v: u8, n: nat) -> u8
    decreases n,
{
    if n == 0 {
        v
    } else {
        dec_cell(iter_dec(v, (n - 1) as nat))
    }
}

/// Any number of increments on a freshly-zeroed cell leaves exactly the
/// count modulo 256: 256 increments return the cell to 0.
pub proof fn lemma_iter_inc_mod(n: nat)
    ensures
        iter_inc(0, n) == n % 256,
    decreases n,
{
    if n > 0 {
        lemma_iter_inc_mod((n - 1) as nat);
    }
}

/// Any number of decrements on a freshly-zeroed cell leaves the complement
/// of the count modulo 256: one decrement of 0 gives 255.
pub proof fn lemma_iter_dec_mod(n: nat)
    ensures
        iter_dec(0, n) == (256 - (n % 256)) % 256,
    decreases n,
{
    if n > 0 {
        lemma_iter_dec_mod((n - 1) as nat);
    }
}

/// The memory tape: byte cells addressed by a single pointer.
pub struct Memory {
    ptr: usize,
    data: Vec<u8>,
}

impl Memory {
    /// The pointer: index of the current cell.
    pub closed spec fn pointer(&self) -> int {
        self.ptr as int
    }

    /// The cells, in tape order.
    pub closed spec fn cells(&self) -> Seq<u8> {
        self.data@
    }

    /// Well-formed: the pointer addresses a cell.
    pub open spec fn wf(&self) -> bool {
        0 <= self.pointer() < self.cells().len()
    }

    /// A fresh tape: pointer at cell 0, one block of zeroed cells.
    pub fn new() -> (m: Memory)
        ensures
            m.wf(),
            m.pointer() == 0,
            m.cells() == zeros(DEFAULT_MEMORY_CAPACITY as nat),
    {
        let mut data: Vec<u8> = Vec::new();
        let mut i: usize = 0;
        while i < DEFAULT_MEMORY_CAPACITY
            invariant
                i <= DEFAULT_MEMORY_CAPACITY,
                data@.len() == i,
                forall|j: int| 0 <= j < i ==> data@[j] == 0u8,
            decreases DEFAULT_MEMORY_CAPACITY - i,
        {
            data.push(0u8);
            i = i + 1;
        }
        proof {
            assert(data@ =~= zeros(DEFAULT_MEMORY_CAPACITY as nat));
        }
        Memory { ptr: 0, data }
    }

    /// The value of the current cell.
    pub fn read(&self) -> (b: u8)
        requires
            self.wf(),
        ensures
            b == self.cells()[self.pointer()],
    {
        self.data[self.ptr]
    }

    /// Store `v` in the current cell.
    pub fn set(&mut self, v: u8)
        requires
            old(self).wf(),
        ensures
            final(self).wf(),
            final(self).pointer() == old(self).pointer(),
            final(self).cells() == old(self).cells().update(old(self).pointer(), v),
    {
        self.data.set(self.ptr, v);
    }

    /// Move the pointer one cell to the left. At cell 0 this is a pointer
    /// underflow: the tape is unchanged and the error is reported; the
    /// pointer never wraps.
    pub fn left(&mut self) -> (r: Result<(), FatalError>)
        requires
            old(self).wf(),
        ensures
            final(self).wf(),
            final(self).cells() == old(self).cells(),
            old(self).pointer() == 0 ==> r == Result::<(), FatalError>::Err(
                FatalError::PointerUnderflow,
            ) && final(self).pointer() == 0,
            old(self).pointer() > 0 ==> r == Result::<(), FatalError>::Ok(())
                && final(self).pointer() == old(self).pointer() - 1,
    {
        if self.ptr == 0 {
            Err(FatalError::PointerUnderflow)
        } else {
            self.ptr = self.ptr - 1;
            Ok(())
        }
    }

    /// Move the pointer one cell to the right. Never fails: when the move
    /// would leave the last cell, one growth block of zeroed cells is
    /// appended first, so the new current cell reads 0.
    pub fn right(&mut self)
        requires
            old(self).wf(),
        ensures
            final(self).wf(),
            final(self).pointer() == old(self).pointer() + 1,
            old(self).pointer() + 1 < old(self).cells().len() ==> final(self).cells()
                == old(self).cells(),
            old(self).pointer() + 1 == old(self).cells().len() ==> final(self).cells()
                == old(self).cells() + zeros(DEFAULT_MEMORY_CAPACITY as nat)
                && final(self).cells()[final(self).pointer()] == 0u8,
    {
        if self.ptr == self.data.len() - 1 {
            let mut i: usize = 0;
            while i < DEFAULT_MEMORY_CAPACITY
                invariant
                    i <= DEFAULT_MEMORY_CAPACITY,
                    self.data@.len() == old(self).cells().len() + i,
                    self.data@.subrange(0, old(self).cells().len() as int) == old(self).cells(),
                    forall|j: int|
                        old(self).cells().len() <= j < self.data@.len() ==> self.data@[j] == 0u8,
                    self.ptr == old(self).ptr,
                decreases DEFAULT_MEMORY_CAPACITY - i,
            {
                self.data.push(0u8);
                proof {
                    assert(self.data@.subrange(0, old(self).cells().len() as int)
                        =~= old(self).cells());
                }
                i = i + 1;
            }
            proof {
                assert(self.data@ =~= old(self).cells() + zeros(
                    DEFAULT_MEMORY_CAPACITY as nat,
                ));
            }
        }
        self.ptr = self.ptr + 1;
    }

    /// Increment the current cell, wrapping 255 back to 0.
    pub fn incr(&mut self)
        requires
            old(self).wf(),
        ensures
            final(self).wf(),
            final(self).pointer() == old(self).pointer(),
            final(self).cells() == old(self).cells().update(
                old(self).pointer(),
                inc_cell(old(self).cells()[old(self).pointer()]),
            ),
    {
        let v = self.read();
        self.set(v.wrapping_add(1));
    }

    /// Decrement the current cell, wrapping 0 back to 255.
    pub fn decr(&mut self)
        requires
            old(self).wf(),
        ensures
            final(self).wf(),
            final(self).pointer() == old(self).pointer(),
            final(self).cells() == old(self).cells().update(
                old(self).pointer(),
                dec_cell(old(self).cells()[old(self).pointer()]),
            ),
    {
        let v = self.read();
        self.set(v.wrapping_sub(1));
    }

    /// The current pointer as an index.
    pub fn pointer_index(&self) -> (p: usize)
        ensures
            p as int == self.pointer(),
    {
        self.ptr
    }

    /// Number of cells on the tape.
    pub fn len(&self) -> (n: usize)
        ensures
            n as int == self.cells().len(),
    {
        self.data.len()
    }

    /// The value of the cell at index `i`.
    pub fn get_cell(&self, i: usize) -> (b: u8)
        requires
            i < self.cells().len(),
        ensures
            b == self.cells()[i as int],
    {
        self.data[i]
    }

    /// The half-open range of cell indices a host should render around the
    /// pointer: the pointer's chunk, up to two chunks before it, padded to
    /// `CHUNKS_DISPLAYED` chunks and clipped to the tape.
    pub fn window(&self) -> (r: (usize, usize))
        requires
            self.wf(),
        ensures
            ({
                let cp = self.pointer() - self.pointer() % (CHUNK_SIZE as int);
                &&& r.0 == if cp >= 2 * CHUNK_SIZE {
                    cp - 2 * CHUNK_SIZE
                } else {
                    0
                }
                &&& r.1 == if self.cells().len() - r.0 >= CHUNKS_DISPLAYED * CHUNK_SIZE {
                    r.0 + CHUNKS_DISPLAYED * CHUNK_SIZE
                } else {
                    self.cells().len() as int
                }
                &&& r.0 <= self.pointer() < r.1 <= self.cells().len()
            }),
    {
        let cp = self.ptr - self.ptr % CHUNK_SIZE;
        let start = if cp >= 2 * CHUNK_SIZE {
            cp - 2 * CHUNK_SIZE
        } else {
            0
        };
        let end = if self.data.len() - start >= CHUNKS_DISPLAYED * CHUNK_SIZE {
            start + CHUNKS_DISPLAYED * CHUNK_SIZE
        } else {
            self.data.len()
        };
        (start, end)
    }
}

} // verus!
