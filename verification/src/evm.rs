//! The execution engine: machine state, single-step, and run-to-completion.

use vstd::prelude::*;

use crate::opcode::Opcode;

verus! {

/// The errors an execution can fail with.
#[derive(Clone, Copy, Debug, PartialEq, Eq, Structural)]
pub enum EvmError {
    /// The byte at the program counter is not in the instruction set, the
    /// program counter is past the end of the code, or an operand byte
    /// lies past the end of the code.
    InvalidOpcode,
    /// An operator required more operands than the stack holds.
    StackUnderflow,
    /// The textual bytecode is not a valid hexadecimal string.
    InvalidBytecode,
}

/// What a single step reports when it does not simply continue: either the
/// distinguished clean-halt signal, or a genuine fault.
#[derive(Clone, Copy, Debug, PartialEq, Eq, Structural)]
pub enum StepError {
    /// A `STOP` instruction was executed: clean termination, not a fault.
    Halted,
    /// A genuine execution fault.
    Fault(EvmError),
}

/// The mathematical model of the machine state. The two mode flags of
/// [`Evm`] are deliberately absent: they only control observability and
/// pacing, never the semantics of execution.
pub ghost struct VmState {
    pub stack: Seq<u32>,
    pub memory: Seq<u8>,
    pub pc: nat,
    pub code: Seq<u8>,
}

/// The machine state, owned exclusively by the engine.
pub struct Evm {
    /// The operand stack, last-in-first-out; the end of the vector is the top.
    pub stack: Vec<u32>,
    /// Byte memory; unused by the implemented instructions, kept for extension.
    pub memory: Vec<u8>,
    /// Offset into `code` of the instruction currently being decoded.
    pub pc: usize,
    /// The loaded bytecode, set once at construction.
    pub code: Vec<u8>,
    /// Whether to emit a human-readable trace (observability only).
    pub logs: bool,
    /// Whether to pause for confirmation before each step (pacing only).
    pub step_by_step: bool,
}

impl View for Evm {
    type V = VmState;

    open spec fn view(&self) -> VmState {
        VmState {
            stack: self.stack@,
            memory: self.memory@,
            pc: self.pc as nat,
            code: self.code@,
        }
    }
}

/// The decode rule at the whole-state level: the opcode at the program
/// counter, or nothing when the counter is past the end of the code or the
/// byte there is not in the instruction set.
pub open spec fn spec_decode(s: VmState) -> Option<Opcode> {
    if s.pc < s.code.len() {
        Opcode::spec_from(s.code[s.pc as int])
    } else {
        None
    }
}

/// What one fetch-decode-execute step does to a machine state: continue
/// in a successor state, halt cleanly, or fault.
pub ghost enum Transition {
    Step(VmState),
    Halted,
    Fault(EvmError),
}

/// How an executable step's result and final state must relate to a
/// transition of the model.
pub open spec fn transition_matches(
    t: Transition,
    pre: VmState,
    post: VmState,
    r: Result<(), StepError>,
) -> bool {
    match t {
        Transition::Step(s2) => r == Ok::<(), StepError>(()) && post == s2,
        Transition::Halted => r == Err::<(), StepError>(StepError::Halted) && post == pre,
        Transition::Fault(e) => r == Err::<(), StepError>(StepError::Fault(e)) && post == pre,
    }
}

/// The complete step relation: decode the opcode at the program counter,
/// then apply its execute rule; a state that decodes to nothing faults.
pub open spec fn spec_step(s: VmState) -> Transition {
    match spec_decode(s) {
        Some(op) => op.spec_execute(s),
        None => Transition::Fault(EvmError::InvalidOpcode),
    }
}

/// A state on which the step relation does not continue: it halts or faults.
pub open spec fn is_terminal(s: VmState) -> bool {
    !(spec_step(s) is Step)
}

/// The state after `n` steps from `s`; once the step relation stops
/// continuing, the state stays put.
pub open spec fn spec_run(s: VmState, n: nat) -> VmState
    decreases n,
{
    if n == 0 {
        s
    } else {
        match spec_step(s) {
            Transition::Step(s2) => spec_run(s2, (n - 1) as nat),
            _ => s,
        }
    }
}

/// What a run-to-completion must produce: a final state reachable from the
/// start by iterating the step relation, on which the step relation halts
/// (clean success) or faults with exactly the reported error.
pub open spec fn run_terminates_with(s0: VmState, sf: VmState, r: Result<(), EvmError>) -> bool {
    &&& exists|n: nat| #[trigger] spec_run(s0, n) == sf
    &&& match r {
        Ok(()) => spec_step(sf) is Halted,
        Err(e) => spec_step(sf) == Transition::Fault(e),
    }
}

/// A terminal state is reached and never left: running longer changes nothing.
pub proof fn lemma_terminal_absorbing(s: VmState, n: nat, m: nat)
    requires
        n <= m,
        is_terminal(spec_run(s, n)),
    ensures
        spec_run(s, m) == spec_run(s, n),
    decreases n,
{
    if n == 0 {
        assert(spec_run(s, m) == s);
    } else {
        match spec_step(s) {
            Transition::Step(s2) => {
                lemma_terminal_absorbing(s2, (n - 1) as nat, (m - 1) as nat);
            },
            _ => {},
        }
    }
}

/// Unfolding a run at its far end: one more step either continues from the
/// state reached so far or leaves it in place.
pub proof fn lemma_run_unfold_right(s: VmState, n: nat)
    ensures
        spec_run(s, n + 1) == (match spec_step(spec_run(s, n)) {
            Transition::Step(s2) => s2,
            _ => spec_run(s, n),
        }),
    decreases n,
{
    if n == 0 {
        assert(spec_run(s, 0) == s);
        match spec_step(s) {
            Transition::Step(s2) => {
                assert(spec_run(s, 1) == spec_run(s2, 0));
                assert(spec_run(s2, 0) == s2);
            },
            _ => {
                assert(spec_run(s, 1) == s);
            },
        }
    } else {
        match spec_step(s) {
            Transition::Step(s2) => {
                lemma_run_unfold_right(s2, (n - 1) as nat);
                assert(spec_run(s, n + 1) == spec_run(s2, n));
                assert(spec_run(s, n) == spec_run(s2, (n - 1) as nat));
            },
            _ => {
                assert(spec_run(s, n + 1) == s);
                assert(spec_run(s, n) == s);
            },
        }
    }
}

/// Determinism law: a fixed code sequence and start state admit exactly one
/// outcome. Any two terminated runs from the same start state end in the
/// same final state (hence identical final stack contents) with the same
/// success or failure result. The mode flags play no part: they are not in
/// the model state at all.
pub proof fn lemma_run_deterministic(
    s0: VmState,
    s1: VmState,
    r1: Result<(), EvmError>,
    s2: VmState,
    r2: Result<(), EvmError>,
)
    requires
        run_terminates_with(s0, s1, r1),
        run_terminates_with(s0, s2, r2),
    ensures
        s1 == s2,
        r1 == r2,
{
    let n1 = choose|n: nat| spec_run(s0, n) == s1;
    let n2 = choose|n: nat| spec_run(s0, n) == s2;
    assert(is_terminal(s1));
    assert(is_terminal(s2));
    if n1 <= n2 {
        lemma_terminal_absorbing(s0, n1, n2);
    } else {
        lemma_terminal_absorbing(s0, n2, n1);
    }
    match (r1, r2) {
        (Ok(u1), Ok(u2)) => {
            assert(u1 == u2);
            assert(r1 == Ok::<(), EvmError>(u1));
            assert(r2 == Ok::<(), EvmError>(u2));
        },
        (Ok(()), Err(e)) => {
            assert(spec_step(s1) is Halted);
            assert(spec_step(s2) is Fault);
            assert(false);
        },
        (Err(e), Ok(())) => {
            assert(spec_step(s2) is Halted);
            assert(spec_step(s1) is Fault);
            assert(false);
        },
        (Err(e1), Err(e2)) => {
            assert(Transition::Fault(e1) == Transition::Fault(e2));
        },
    }
}

impl Evm {
    /// Creates a new engine with the given bytecode and mode flags. Any byte
    /// sequence, including an empty or malformed one, is accepted here.
    pub fn new(code: Vec<u8>, logs: bool, step_by_step: bool) -> (evm: Evm)
        ensures
            evm@.stack == Seq::<u32>::empty(),
            evm@.memory == Seq::<u8>::empty(),
            evm@.pc == 0,
            evm@.code == code@,
            evm.logs == logs,
            evm.step_by_step == step_by_step,
    {
        Evm { stack: Vec::new(), memory: Vec::new(), pc: 0, code, logs, step_by_step }
    }

    /// Decode the instruction at the current program counter. Decoding is
    /// pure: it never mutates state.
    pub fn next_opcode(&self) -> (r: Result<Opcode, EvmError>)
        ensures
            match spec_decode(self@) {
                Some(op) => r == Ok::<Opcode, EvmError>(op),
                None => r == Err::<Opcode, EvmError>(EvmError::InvalidOpcode),
            },
    {
        if self.pc < self.code.len() {
            match Opcode::from(&self.code[self.pc]) {
                Some(op) => Ok(op),
                None => Err(EvmError::InvalidOpcode),
            }
        } else {
            Err(EvmError::InvalidOpcode)
        }
    }

    /// Add a value to the top of the stack. Never fails.
    pub fn stack_push(&mut self, value: u32)
        ensures
            final(self)@.stack == old(self)@.stack.push(value),
            final(self)@.memory == old(self)@.memory,
            final(self)@.pc == old(self)@.pc,
            final(self)@.code == old(self)@.code,
            final(self).logs == old(self).logs,
            final(self).step_by_step == old(self).step_by_step,
    {
        self.stack.push(value);
    }

    /// Remove and return the top of the stack; fails on an empty stack
    /// without mutating anything.
    pub fn stack_pop(&mut self) -> (r: Result<u32, EvmError>)
        ensures
            old(self)@.stack.len() == 0 ==> {
                &&& r == Err::<u32, EvmError>(EvmError::StackUnderflow)
                &&& final(self)@ == old(self)@
            },
            old(self)@.stack.len() > 0 ==> {
                &&& r == Ok::<u32, EvmError>(old(self)@.stack.last())
                &&& final(self)@.stack == old(self)@.stack.drop_last()
                &&& final(self)@.memory == old(self)@.memory
                &&& final(self)@.pc == old(self)@.pc
                &&& final(self)@.code == old(self)@.code
            },
            final(self).logs == old(self).logs,
            final(self).step_by_step == old(self).step_by_step,
    {
        match self.stack.pop() {
            Some(v) => Ok(v),
            None => Err(EvmError::StackUnderflow),
        }
    }

    /// One step of execution: decode the instruction at the program counter
    /// and apply its transformation. A `STOP` is reported as the
    /// distinguished `Halted` signal, never as a fault; on any failure the
    /// state is left exactly as it was.
    pub fn step(&mut self) -> (r: Result<(), StepError>)
        ensures
            transition_matches(spec_step(old(self)@), old(self)@, final(self)@, r),
            final(self).logs == old(self).logs,
            final(self).step_by_step == old(self).step_by_step,
    {
        let opcode = match self.next_opcode() {
            Ok(op) => op,
            Err(e) => {
                return Err(StepError::Fault(e));
            },
        };
        opcode.execute(self)
    }

    /// Run to completion: step repeatedly until a `STOP` halts the run
    /// (success) or the first fault stops it (reported unchanged, with the
    /// state left at the point of failure). No instruction moves the
    /// program counter backwards, so every run over finite code terminates;
    /// the counter's distance to the end of the code shrinks at each step.
    pub fn execute(&mut self) -> (r: Result<(), EvmError>)
        ensures
            run_terminates_with(old(self)@, final(self)@, r),
            final(self).logs == old(self).logs,
            final(self).step_by_step == old(self).step_by_step,
    {
        let ghost s0 = self@;
        let ghost mut n: nat = 0;
        loop
            invariant
                s0 == old(self)@,
                self@ == spec_run(s0, n),
                self.logs == old(self).logs,
                self.step_by_step == old(self).step_by_step,
            decreases self@.code.len() - self@.pc,
        {
            match self.step() {
                Ok(()) => {
                    proof {
                        lemma_run_unfold_right(s0, n);
                        n = n + 1;
                    }
                },
                Err(StepError::Halted) => {
                    proof {
                        assert(spec_run(old(self)@, n) == self@);
                        assert(exists|m: nat| #[trigger] spec_run(old(self)@, m) == self@);
                        assert(spec_step(self@) is Halted);
                    }
                    return Ok(());
                },
                Err(StepError::Fault(e)) => {
                    proof {
                        assert(spec_run(old(self)@, n) == self@);
                        assert(exists|m: nat| #[trigger] spec_run(old(self)@, m) == self@);
                        assert(spec_step(self@) == Transition::Fault(e));
                    }
                    return Err(e);
                },
            }
        }
    }
}

} // verus!
