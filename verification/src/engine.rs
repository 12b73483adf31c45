//! The execution engine: fetch-decode-execute over a program, a tape and a
//! bracket index, with an optional step budget. Each executed step is
//! proved to be one `step1` of the machine model, and a whole run is the
//! iterated model `run_n`.

use vstd::prelude::*;

use crate::brackets::BracketIndex;
use crate::machine::fatal_here;
use crate::machine::init_state;
use crate::machine::lemma_run_n_snoc;
use crate::machine::live;
use crate::machine::run_n;
use crate::machine::running;
use crate::machine::step1;
use crate::machine::MachineState;
use crate::memory::FatalError;
use crate::memory::Memory;
use crate::op::Op;
use crate::program::OpList;

verus! {

/// Why a run stopped. Exhausting the step budget is a normal halt, not an
/// error; a fatal error means the program's semantics were violated.
#[derive(Clone, Copy, PartialEq, Eq, Structural, Debug)]
pub enum HaltReason {
    /// The position advanced past the last instruction.
    Completed,
    /// The configured step budget was used up before completion.
    StepLimitReached,
    /// Execution cannot continue.
    Fatal(FatalError),
}

/// The number of steps the engine will take at most: the configured budget,
/// or the largest count the step counter can hold.
pub open spec fn effective_limit(max_steps: Option<u64>) -> int {
    match max_steps {
        Some(k) => k as int,
        None => u64::MAX as int,
    }
}

/// The execution engine. It owns the program (whose position is the
/// instruction pointer), the bracket index built for it, the tape, the
/// remaining input, the accumulated output, and the step counter.
pub struct Engine {
    program: OpList,
    index: BracketIndex,
    mem: Memory,
    input: Vec<u8>,
    in_pos: usize,
    output: Vec<u8>,
    steps: u64,
    max_steps: Option<u64>,
}

impl Engine {
    /// The machine state this engine is in.
    pub closed spec fn state(&self) -> MachineState {
        MachineState {
            prog: self.program.ops_seq(),
            pos: self.program.pos(),
            ptr: self.mem.pointer(),
            cells: self.mem.cells(),
            input: self.input@.skip(self.in_pos as int),
            output: self.output@,
        }
    }

    /// Steps executed so far.
    pub closed spec fn steps_taken(&self) -> int {
        self.steps as int
    }

    /// The step budget this engine was configured with.
    pub closed spec fn limit(&self) -> int {
        effective_limit(self.max_steps)
    }

    /// Well-formed: the parts agree with one another and the bracket index
    /// belongs to this program.
    pub closed spec fn wf(&self) -> bool {
        &&& self.program.wf()
        &&& self.index.wf()
        &&& self.index.ops() == self.program.ops_seq()
        &&& self.mem.wf()
        &&& self.in_pos <= self.input@.len()
        &&& self.steps_taken() <= self.limit()
    }

    /// An engine ready to run `program` from its start, with a fresh tape,
    /// `input` as the byte source, and an optional step budget.
    pub fn new(program: OpList, index: BracketIndex, input: Vec<u8>, max_steps: Option<u64>) -> (e:
        Engine)
        requires
            program.wf(),
            program.pos() == 0,
            index.wf(),
            index.ops() == program.ops_seq(),
        ensures
            e.wf(),
            e.state() == init_state(program.ops_seq(), input@),
            e.steps_taken() == 0,
            e.limit() == effective_limit(max_steps),
    {
        let e = Engine {
            program,
            index,
            mem: Memory::new(),
            input,
            in_pos: 0,
            output: Vec::new(),
            steps: 0,
            max_steps,
        };
        proof {
            assert(e.input@.skip(0) =~= e.input@);
            assert(e.state() =~= init_state(e.program.ops_seq(), e.input@));
        }
        e
    }

    /// Whether the engine can take another step: the position is at an
    /// instruction and the step budget is not yet used up.
    pub fn live(&self) -> (b: bool)
        requires
            self.wf(),
        ensures
            b == (running(self.state()) && self.steps_taken() < self.limit()),
    {
        let n = self.program.len();
        if self.program.position() >= n {
            return false;
        }
        match self.max_steps {
            Some(k) => self.steps < k,
            None => self.steps < u64::MAX,
        }
    }

    /// Execute the instruction at the current position: one fetch-decode-
    /// execute cycle, ending with the uniform advance by one. On a pointer
    /// underflow nothing changes and the error is reported; otherwise the
    /// new state is exactly one `step1` of the machine model.
    pub fn step(&mut self) -> (r: Result<(), FatalError>)
        requires
            old(self).wf(),
            running(old(self).state()),
            old(self).steps_taken() < old(self).limit(),
        ensures
            final(self).wf(),
            final(self).limit() == old(self).limit(),
            fatal_here(old(self).state()) ==> r == Result::<(), FatalError>::Err(
                FatalError::PointerUnderflow,
            ) && final(self).state() == old(self).state()
                && final(self).steps_taken() == old(self).steps_taken(),
            !fatal_here(old(self).state()) ==> r == Result::<(), FatalError>::Ok(())
                && final(self).state() == step1(old(self).state())
                && final(self).steps_taken() == old(self).steps_taken() + 1,
    {
        let n = self.program.len();
        let pos = self.program.position();
        let op = self.program.get();
        match op {
            Op::Left => {
                match self.mem.left() {
                    Err(e) => {
                        proof {
                            assert(self.state() =~= old(self).state());
                        }
                        return Err(e);
                    },
                    Ok(()) => {},
                }
            },
            Op::Right => {
                self.mem.right();
            },
            Op::Incr => {
                self.mem.incr();
            },
            Op::Decr => {
                self.mem.decr();
            },
            Op::Out => {
                let b = self.mem.read();
                self.output.push(b);
            },
            Op::In => {
                if self.in_pos < self.input.len() {
                    let b = self.input[self.in_pos];
                    self.mem.set(b);
                    self.in_pos = self.in_pos + 1;
                    proof {
                        assert(self.input@.skip(self.in_pos as int) =~= old(self).input@.skip(
                            old(self).in_pos as int,
                        ).drop_first());
                    }
                }
            },
            Op::Open => {
                if self.mem.read() == 0 {
                    let t = self.index.matching_close(pos);
                    self.program.set_position(t);
                }
            },
            Op::Close => {
                if self.mem.read() != 0 {
                    let t = self.index.matching_open(pos);
                    self.program.set_position(t);
                }
            },
        }
        let p2 = self.program.position();
        self.program.set_position(p2 + 1);
        self.steps = self.steps + 1;
        proof {
            assert(self.state() =~= step1(old(self).state()));
        }
        Ok(())
    }

    /// Run until the program completes, the step budget is used up, or a
    /// fatal error occurs. The final state is the machine model iterated
    /// for exactly the number of steps taken, every intermediate state was
    /// live, and the halt reason says which stopping condition was reached:
    /// completion past the last instruction, the budget with the machine
    /// still running, or a pointer underflow about to happen.
    pub fn run(&mut self) -> (h: HaltReason)
        requires
            old(self).wf(),
        ensures
            final(self).wf(),
            final(self).limit() == old(self).limit(),
            final(self).steps_taken() >= old(self).steps_taken(),
            final(self).state() == run_n(
                old(self).state(),
                (final(self).steps_taken() - old(self).steps_taken()) as nat,
            ),
            forall|j: nat|
                j < final(self).steps_taken() - old(self).steps_taken() ==> live(
                    #[trigger] run_n(old(self).state(), j),
                ),
            h == HaltReason::Completed ==> !running(final(self).state()),
            h == HaltReason::StepLimitReached ==> final(self).steps_taken() == final(self).limit()
                && running(final(self).state()),
            h == HaltReason::Fatal(FatalError::PointerUnderflow) ==> fatal_here(
                final(self).state(),
            ) && final(self).steps_taken() < final(self).limit(),
    {
        let ghost s0 = self.state();
        let ghost n0 = self.steps_taken();
        let ghost l0 = self.limit();
        loop
            invariant
                s0 == old(self).state(),
                n0 == old(self).steps_taken(),
                l0 == old(self).limit(),
                self.wf(),
                self.limit() == l0,
                self.steps_taken() >= n0,
                self.state() == run_n(s0, (self.steps_taken() - n0) as nat),
                forall|j: nat| j < self.steps_taken() - n0 ==> live(#[trigger] run_n(s0, j)),
            decreases l0 - self.steps_taken(),
        {
            let n = self.program.len();
            if self.program.position() >= n {
                return HaltReason::Completed;
            }
            let limit_hit = match self.max_steps {
                Some(k) => self.steps >= k,
                None => self.steps >= u64::MAX,
            };
            if limit_hit {
                return HaltReason::StepLimitReached;
            }
            let ghost done = (self.steps_taken() - n0) as nat;
            match self.step() {
                Ok(()) => {
                    proof {
                        lemma_run_n_snoc(s0, done);
                    }
                },
                Err(e) => {
                    return HaltReason::Fatal(e);
                },
            }
        }
    }

    /// The output bytes accumulated so far.
    pub fn output_bytes(&self) -> (o: &Vec<u8>)
        ensures
            o@ == self.state().output,
    {
        &self.output
    }

    /// The number of steps executed so far.
    pub fn steps_done(&self) -> (s: u64)
        ensures
            s as int == self.steps_taken(),
    {
        self.steps
    }

    /// The program, with its current position: what a host renders between
    /// steps.
    pub fn program_ref(&self) -> (p: &OpList)
        ensures
            p.ops_seq() == self.state().prog,
            p.pos() == self.state().pos,
    {
        &self.program
    }

    /// The tape: what a host renders between steps.
    pub fn memory_ref(&self) -> (m: &Memory)
        ensures
            m.cells() == self.state().cells,
            m.pointer() == self.state().ptr,
    {
        &self.mem
    }
}

} // verus!
