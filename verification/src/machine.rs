//! The mathematical model of execution: a machine state and the meaning of
//! one step, stated purely over sequences. The engine is proved to follow
//! this model step for step.

use vstd::prelude::*;

use crate::brackets::close_of;
use crate::brackets::open_of;
use crate::memory::dec_cell;
use crate::memory::inc_cell;
use crate::memory::iter_dec;
use crate::memory::iter_inc;
use crate::memory::zeros;
use crate::memory::DEFAULT_MEMORY_CAPACITY;
use crate::op::Op;

verus! {

/// A full execution state: the program, the current instruction position,
/// the tape, and the remaining input and accumulated output byte streams.
#[verifier::ext_equal]
pub ghost struct MachineState {
    pub prog: Seq<Op>,
    pub pos: int,
    pub ptr: int,
    pub cells: Seq<u8>,
    pub input: Seq<u8>,
    pub output: Seq<u8>,
}

/// The state a run starts from: position 0, pointer at cell 0, one zeroed
/// tape block, no output yet.
pub open spec fn init_state(prog: Seq<Op>, input: Seq<u8>) -> MachineState {
    MachineState {
        prog,
        pos: 0,
        ptr: 0,
        cells: zeros(DEFAULT_MEMORY_CAPACITY as nat),
        input,
        output: Seq::empty(),
    }
}

/// The position is at an instruction: execution has not completed.
pub open spec fn running(m: MachineState) -> bool {
    0 <= m.pos < m.prog.len()
}

/// The next instruction is a leftward move with the pointer at cell 0: the
/// one fatal condition, a pointer underflow.
pub open spec fn fatal_here(m: MachineState) -> bool {
    running(m) && m.prog[m.pos] == Op::Left && m.ptr == 0
}

/// The machine can take a step: it is neither completed nor about to fail.
pub open spec fn live(m: MachineState) -> bool {
    running(m) && !fatal_here(m)
}

/// The state after executing the instruction at the current position;
/// meaningful only when `live(m)`. Each dispatch ends with the uniform
/// advance by one, so a bracket jump lands on the partner bracket and the
/// advance then steps just past it.
pub open spec fn step1(m: MachineState) -> MachineState {
    match m.prog[m.pos] {
        Op::Left => MachineState { pos: m.pos + 1, ptr: m.ptr - 1, ..m },
        Op::Right => if m.ptr + 1 == m.cells.len() {
            MachineState {
                pos: m.pos + 1,
                ptr: m.ptr + 1,
                cells: m.cells + zeros(DEFAULT_MEMORY_CAPACITY as nat),
                ..m
            }
        } else {
            MachineState { pos: m.pos + 1, ptr: m.ptr + 1, ..m }
        },
        Op::Incr => MachineState {
            pos: m.pos + 1,
            cells: m.cells.update(m.ptr, inc_cell(m.cells[m.ptr])),
            ..m
        },
        Op::Decr => MachineState {
            pos: m.pos + 1,
            cells: m.cells.update(m.ptr, dec_cell(m.cells[m.ptr])),
            ..m
        },
        Op::Out => MachineState { pos: m.pos + 1, output: m.output.push(m.cells[m.ptr]), ..m },
        Op::In => if m.input.len() > 0 {
            MachineState {
                pos: m.pos + 1,
                cells: m.cells.update(m.ptr, m.input[0]),
                input: m.input.drop_first(),
                ..m
            }
        } else {
            MachineState { pos: m.pos + 1, ..m }
        },
        Op::Open => if m.cells[m.ptr] == 0 {
            MachineState { pos: close_of(m.prog, m.pos) + 1, ..m }
        } else {
            MachineState { pos: m.pos + 1, ..m }
        },
        Op::Close => if m.cells[m.ptr] != 0 {
            MachineState { pos: open_of(m.prog, m.pos) + 1, ..m }
        } else {
            MachineState { pos: m.pos + 1, ..m }
        },
    }
}

/// The state after `n` steps, stopping early once the machine is no longer
/// live: a completed or about-to-fail state absorbs further steps.
pub open spec fn run_n(m: MachineState, n: nat) -> MachineState
    decreases n,
{
    if n == 0 {
        m
    } else if live(m) {
        run_n(step1(m), (n - 1) as nat)
    } else {
        m
    }
}

/// A program of nothing but increments, run for `k` of its `len` steps,
/// has executed the first `k` instructions in order: cell 0 holds `k`
/// increments of 0 — `k` modulo 256 — and nothing else has changed.
pub proof fn lemma_incr_run(len: nat, k: nat)
    requires
        k <= len,
    ensures
        ({
            let m = run_n(init_state(Seq::new(len, |i: int| Op::Incr), Seq::empty()), k);
            &&& m.pos == k
            &&& m.ptr == 0
            &&& m.cells == zeros(DEFAULT_MEMORY_CAPACITY as nat).update(
                0,
                iter_inc(0, k),
            )
            &&& m.output =~= Seq::<u8>::empty()
            &&& m.prog == Seq::new(len, |i: int| Op::Incr)
            &&& m.input =~= Seq::<u8>::empty()
        }),
    decreases k,
{
    let prog = Seq::new(len, |i: int| Op::Incr);
    let m0 = init_state(prog, Seq::empty());
    if k == 0 {
        assert(m0.cells =~= zeros(DEFAULT_MEMORY_CAPACITY as nat).update(
            0,
            iter_inc(0, 0),
        ));
    } else {
        lemma_incr_run(len, (k - 1) as nat);
        let m = run_n(m0, (k - 1) as nat);
        assert(live(m));
        lemma_run_n_snoc(m0, (k - 1) as nat);
        assert(step1(m).cells =~= zeros(DEFAULT_MEMORY_CAPACITY as nat).update(
            0,
            iter_inc(0, k),
        ));
    }
}

/// The decrement twin: `k` steps of an all-decrement program leave cell 0
/// at `k` decrements of 0, the complement of `k` modulo 256.
pub proof fn lemma_decr_run(len: nat, k: nat)
    requires
        k <= len,
    ensures
        ({
            let m = run_n(init_state(Seq::new(len, |i: int| Op::Decr), Seq::empty()), k);
            &&& m.pos == k
            &&& m.ptr == 0
            &&& m.cells == zeros(DEFAULT_MEMORY_CAPACITY as nat).update(
                0,
                iter_dec(0, k),
            )
            &&& m.output =~= Seq::<u8>::empty()
            &&& m.prog == Seq::new(len, |i: int| Op::Decr)
            &&& m.input =~= Seq::<u8>::empty()
        }),
    decreases k,
{
    let prog = Seq::new(len, |i: int| Op::Decr);
    let m0 = init_state(prog, Seq::empty());
    if k == 0 {
        assert(m0.cells =~= zeros(DEFAULT_MEMORY_CAPACITY as nat).update(
            0,
            iter_dec(0, 0),
        ));
    } else {
        lemma_decr_run(len, (k - 1) as nat);
        let m = run_n(m0, (k - 1) as nat);
        assert(live(m));
        lemma_run_n_snoc(m0, (k - 1) as nat);
        assert(step1(m).cells =~= zeros(DEFAULT_MEMORY_CAPACITY as nat).update(
            0,
            iter_dec(0, k),
        ));
    }
}

/// While the machine stays live, one more step of `run_n` is one `step1`.
pub proof fn lemma_run_n_snoc(m: MachineState, n: nat)
    requires
        live(run_n(m, n)),
    ensures
        run_n(m, n + 1) == step1(run_n(m, n)),
    decreases n,
{
    if n == 0 {
        assert(run_n(m, 1) == run_n(step1(m), 0));
    } else {
        assert(live(m)) by {
            if !live(m) {
                assert(run_n(m, n) == m);
            }
        }
        lemma_run_n_snoc(step1(m), (n - 1) as nat);
        assert(run_n(m, n + 1) == run_n(step1(m), n));
        assert(run_n(m, n) == run_n(step1(m), (n - 1) as nat));
    }
}

} // verus!
