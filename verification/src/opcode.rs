//! The instruction set: decode rules and execute rules for each opcode.

use vstd::prelude::*;
use vstd::string::*;

use crate::evm::{Evm, EvmError, StepError, Transition, VmState, transition_matches};

verus! {

/// Addition modulo 2^32: fixed-width machine arithmetic, where overflow
/// silently truncates and is never a fault.
pub open spec fn wrap_add(a: u32, b: u32) -> u32 {
    ((a + b) % 0x1_0000_0000) as u32
}

/// Multiplication modulo 2^32.
pub open spec fn wrap_mul(a: u32, b: u32) -> u32 {
    ((a * b) % 0x1_0000_0000) as u32
}

/// An enumeration of the supported opcodes.
#[derive(Clone, Copy, Debug, PartialEq, Eq, Structural)]
pub enum Opcode {
    STOP,
    ADD,
    MUL,
    PUSH1,
}

impl Opcode {
    /// The decode table: which byte stands for which instruction.
    /// Every byte outside the table decodes to nothing.
    pub open spec fn spec_from(value: u8) -> Option<Opcode> {
        if value == 0x00 {
            Some(Opcode::STOP)
        } else if value == 0x01 {
            Some(Opcode::ADD)
        } else if value == 0x02 {
            Some(Opcode::MUL)
        } else if value == 0x60 {
            Some(Opcode::PUSH1)
        } else {
            None
        }
    }

    /// Get the corresponding opcode of a byte.
    pub fn from(value: &u8) -> (r: Option<Opcode>)
        ensures
            r == Opcode::spec_from(*value),
    {
        match *value {
            0x00 => Some(Opcode::STOP),
            0x01 => Some(Opcode::ADD),
            0x02 => Some(Opcode::MUL),
            0x60 => Some(Opcode::PUSH1),
            _ => None,
        }
    }

    /// The execute rule of each instruction, as a transition of the model
    /// state. Each instruction advances the program counter itself: by one
    /// for the arithmetic operators, by two (opcode plus operand byte) for
    /// `PUSH1`; `STOP` halts in place.
    pub open spec fn spec_execute(self, s: VmState) -> Transition {
        match self {
            Opcode::STOP => Transition::Halted,
            Opcode::ADD => if s.stack.len() < 2 {
                Transition::Fault(EvmError::StackUnderflow)
            } else {
                Transition::Step(VmState {
                    stack: s.stack.drop_last().drop_last().push(
                        wrap_add(s.stack.last(), s.stack[s.stack.len() - 2]),
                    ),
                    memory: s.memory,
                    pc: s.pc + 1,
                    code: s.code,
                })
            },
            Opcode::MUL => if s.stack.len() < 2 {
                Transition::Fault(EvmError::StackUnderflow)
            } else {
                Transition::Step(VmState {
                    stack: s.stack.drop_last().drop_last().push(
                        wrap_mul(s.stack.last(), s.stack[s.stack.len() - 2]),
                    ),
                    memory: s.memory,
                    pc: s.pc + 1,
                    code: s.code,
                })
            },
            Opcode::PUSH1 => if s.pc + 2 <= s.code.len() {
                Transition::Step(VmState {
                    stack: s.stack.push(s.code[s.pc as int + 1] as u32),
                    memory: s.memory,
                    pc: s.pc + 2,
                    code: s.code,
                })
            } else {
                Transition::Fault(EvmError::InvalidOpcode)
            },
        }
    }

    /// Execute this opcode against the given machine state. The program
    /// counter must sit inside the code, as it does for an opcode freshly
    /// decoded from it; this also keeps the counter's advance within the
    /// machine's integer range.
    pub fn execute(&self, evm: &mut Evm) -> (r: Result<(), StepError>)
        requires
            old(evm)@.pc < old(evm)@.code.len(),
        ensures
            transition_matches(self.spec_execute(old(evm)@), old(evm)@, final(evm)@, r),
            final(evm).logs == old(evm).logs,
            final(evm).step_by_step == old(evm).step_by_step,
    {
        match self {
            Opcode::STOP => Err(StepError::Halted),
            Opcode::ADD => crate::opcode::add(evm),
            Opcode::MUL => crate::opcode::mul(evm),
            Opcode::PUSH1 => crate::opcode::push1(evm),
        }
    }
}

/// ADD execution: `[..., b, a] -> [..., a + b]`, wrapping modulo 2^32.
/// The first pop is the top of the stack; on a stack of fewer than two
/// elements it fails without mutating anything.
fn add(evm: &mut Evm) -> (r: Result<(), StepError>)
    requires
        old(evm)@.pc < old(evm)@.code.len(),
    ensures
        transition_matches(Opcode::ADD.spec_execute(old(evm)@), old(evm)@, final(evm)@, r),
        final(evm).logs == old(evm).logs,
        final(evm).step_by_step == old(evm).step_by_step,
{
    // Reading the length pins it into the machine's range, which bounds
    // the program counter's advance below.
    let _code_len: usize = evm.code.len();
    if evm.stack.len() < 2 {
        return Err(StepError::Fault(EvmError::StackUnderflow));
    }
    let a = evm.stack_pop().unwrap();
    let b = evm.stack_pop().unwrap();
    evm.stack_push(a.wrapping_add(b));
    evm.pc = evm.pc + 1;
    Ok(())
}

/// MUL execution: `[..., b, a] -> [..., a * b]`, wrapping modulo 2^32.
fn mul(evm: &mut Evm) -> (r: Result<(), StepError>)
    requires
        old(evm)@.pc < old(evm)@.code.len(),
    ensures
        transition_matches(Opcode::MUL.spec_execute(old(evm)@), old(evm)@, final(evm)@, r),
        final(evm).logs == old(evm).logs,
        final(evm).step_by_step == old(evm).step_by_step,
{
    // Reading the length pins it into the machine's range, which bounds
    // the program counter's advance below.
    let _code_len: usize = evm.code.len();
    if evm.stack.len() < 2 {
        return Err(StepError::Fault(EvmError::StackUnderflow));
    }
    let a = evm.stack_pop().unwrap();
    let b = evm.stack_pop().unwrap();
    evm.stack_push(a.wrapping_mul(b));
    evm.pc = evm.pc + 1;
    Ok(())
}

/// PUSH1 execution: `-> [..., byte]`. Pushes the single byte following the
/// opcode, zero-extended to 32 bits, and advances the program counter past
/// both bytes; fails when the operand byte lies past the end of the code.
fn push1(evm: &mut Evm) -> (r: Result<(), StepError>)
    requires
        old(evm)@.pc < old(evm)@.code.len(),
    ensures
        transition_matches(Opcode::PUSH1.spec_execute(old(evm)@), old(evm)@, final(evm)@, r),
        final(evm).logs == old(evm).logs,
        final(evm).step_by_step == old(evm).step_by_step,
{
    let len = evm.code.len();
    let start = evm.pc + 1;
    if start >= len {
        return Err(StepError::Fault(EvmError::InvalidOpcode));
    }
    let value = evm.code[start] as u32;
    evm.stack_push(value);
    evm.pc = start + 1;
    Ok(())
}

/// Decode-closure law: exactly the four bytes of the decode table stand
/// for an instruction; every one of the other 252 byte values fails to
/// decode, and so faults a step with an invalid opcode.
pub proof fn lemma_decode_closure(value: u8)
    ensures
        Opcode::spec_from(value) is Some <==> (value == 0x00 || value == 0x01 || value == 0x02
            || value == 0x60),
{
}

/// Wrapping-arithmetic law: with at least two operands on the stack, ADD
/// and MUL never fault, and the value they leave on top of the stack is
/// exactly the operands' sum or product modulo 2^32 — also when that sum
/// or product exceeds 2^32 - 1.
pub proof fn lemma_arith_wrapping(s: VmState)
    requires
        s.stack.len() >= 2,
    ensures
        (Opcode::ADD.spec_execute(s) matches Transition::Step(s2) && s2.stack.last() == (((
        s.stack.last() + s.stack[s.stack.len() - 2]) % 0x1_0000_0000) as u32)),
        (Opcode::MUL.spec_execute(s) matches Transition::Step(s2) && s2.stack.last() == (((
        s.stack.last() * s.stack[s.stack.len() - 2]) % 0x1_0000_0000) as u32)),
{
}

/// Underflow-boundary law: with fewer than two operands on the stack, ADD
/// and MUL fault with a stack underflow — and a faulting step leaves the
/// whole machine state, the stack included, untouched (that is what
/// `transition_matches` demands of a `Fault`).
pub proof fn lemma_arith_underflow(s: VmState)
    requires
        s.stack.len() < 2,
    ensures
        Opcode::ADD.spec_execute(s) == Transition::Fault(EvmError::StackUnderflow),
        Opcode::MUL.spec_execute(s) == Transition::Fault(EvmError::StackUnderflow),
{
}

/// Zero-extension law: a PUSH1 step pushes exactly the operand byte,
/// widened from 8 to 32 bits; the pushed value is the byte's own, below
/// 256, never a sign-extended or larger one.
pub proof fn lemma_push_width(s: VmState)
    requires
        Opcode::PUSH1.spec_execute(s) is Step,
    ensures
        (Opcode::PUSH1.spec_execute(s) matches Transition::Step(s2) && s2.stack == s.stack.push(
            s.code[s.pc as int + 1] as u32,
        )),
        (Opcode::PUSH1.spec_execute(s) matches Transition::Step(s2) && s2.stack.last() < 256),
{
}

/// Program-counter law: a PUSH1 step advances the counter by exactly two
/// (opcode plus operand byte), an ADD or MUL step by exactly one, so the
/// next decode happens there.
pub proof fn lemma_pc_advance(s: VmState)
    ensures
        (Opcode::PUSH1.spec_execute(s) matches Transition::Step(s2) ==> s2.pc == s.pc + 2),
        (Opcode::ADD.spec_execute(s) matches Transition::Step(s2) ==> s2.pc == s.pc + 1),
        (Opcode::MUL.spec_execute(s) matches Transition::Step(s2) ==> s2.pc == s.pc + 1),
{
}

/// A hexadecimal digit: `0`-`9`, `a`-`f` or `A`-`F`.
pub open spec fn is_hex_digit(c: char) -> bool {
    ||| 48 <= c as u32 && c as u32 <= 57  // '0' through '9'
    ||| 97 <= c as u32 && c as u32 <= 102  // 'a' through 'f'
    ||| 65 <= c as u32 && c as u32 <= 70  // 'A' through 'F'
}

/// The numeric value of a hexadecimal digit.
pub open spec fn hex_digit_value(c: char) -> u8 {
    if 48 <= c as u32 && c as u32 <= 57 {
        (c as u32 - 48) as u8
    } else if 97 <= c as u32 && c as u32 <= 102 {
        (c as u32 - 87) as u8
    } else {
        (c as u32 - 55) as u8
    }
}

/// A well-formed hexadecimal string: an even count of hexadecimal digits.
pub open spec fn is_hex_string(s: Seq<char>) -> bool {
    s.len() % 2 == 0 && (forall|i: int| 0 <= i < s.len() ==> is_hex_digit(#[trigger] s[i]))
}

/// The byte sequence a hexadecimal string stands for: each pair of digits
/// is one byte, high digit first.
pub open spec fn decoded_hex(s: Seq<char>) -> Seq<u8> {
    Seq::new(
        s.len() / 2,
        |i: int| (hex_digit_value(s[2 * i]) * 16 + hex_digit_value(s[2 * i + 1])) as u8,
    )
}

/// A single leading `0x` marker removed, when present.
pub open spec fn strip_hex_prefix(s: Seq<char>) -> Seq<char> {
    if s.len() >= 2 && s[0] == '0' && s[1] == 'x' {
        s.subrange(2, s.len() as int)
    } else {
        s
    }
}

#[verifier::external_type_specification]
#[verifier::external_body]
pub struct ExFromHexError(hex::FromHexError);

/// Relies on hex::decode: it succeeds exactly on an even number of
/// hexadecimal digits (either case) and turns each pair into one byte,
/// high digit first. The crate reads the string's UTF-8 bytes; a
/// character outside ASCII contributes only bytes that are never digits,
/// so success stated over characters and over bytes coincide.
#[verifier::external_body]
fn hex_decode(s: &str) -> (r: Result<Vec<u8>, hex::FromHexError>)
    ensures
        r is Ok <==> is_hex_string(s@),
        r matches Ok(v) ==> v@ == decoded_hex(s@),
{
    hex::decode(s)
}

/// Parse bytecode from its textual hexadecimal form.
///
/// Policy: exactly one leading `0x` marker (lower case) is removed when
/// present; nothing else is normalized. What remains must be an even
/// count of hexadecimal digits, upper or lower case; anything else —
/// whitespace included — fails cleanly with `InvalidBytecode`.
pub fn parse_bytecode(bytecode_str: &str) -> (r: Result<Vec<u8>, EvmError>)
    ensures
        r is Ok <==> is_hex_string(strip_hex_prefix(bytecode_str@)),
        r matches Ok(v) ==> v@ == decoded_hex(strip_hex_prefix(bytecode_str@)),
        r matches Err(e) ==> e == EvmError::InvalidBytecode,
{
    let n = bytecode_str.unicode_len();
    let stripped: &str = if n >= 2 && bytecode_str.get_char(0) == '0' && bytecode_str.get_char(1)
        == 'x' {
        bytecode_str.substring_char(2, n)
    } else {
        bytecode_str
    };
    match hex_decode(stripped) {
        Ok(v) => Ok(v),
        Err(_) => Err(EvmError::InvalidBytecode),
    }
}

} // verus!
