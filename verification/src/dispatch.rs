use crate::bitwise::Outcome;
use crate::bitwise::binary_step;
use crate::bitwise::byte_word;
use crate::bitwise::eq_word;
use crate::bitwise::gt_word;
use crate::bitwise::iszero_word;
use crate::bitwise::lt_word;
use crate::bitwise::outcome;
use crate::bitwise::sar_word;
use crate::bitwise::sgt_word;
use crate::bitwise::shift_step;
use crate::bitwise::shl_word;
use crate::bitwise::shr_word;
use crate::bitwise::slt_word;
use crate::bitwise::unary_step;
use crate::bitwise;
use crate::gas::GasMeter;
use crate::halt::HaltCondition;
use crate::stack::ValueStack;
use crate::version::ProtocolVersion;
use crate::word::Word;
use vstd::prelude::*;

verus! {

/// The instructions of this layer, each bound to its handler by
/// [`Instruction::execute`].
#[derive(Clone, Copy, Debug, PartialEq, Eq, Structural)]
pub enum Instruction {
    Lt,
    Gt,
    Slt,
    Sgt,
    Eq,
    IsZero,
    And,
    Or,
    Xor,
    Not,
    Byte,
    Shl,
    Shr,
    Sar,
}

impl Instruction {
    /// The byte that stands for the instruction in bytecode.
    pub open spec fn code(self) -> u8 {
        match self {
            Instruction::Lt => 0x10,
            Instruction::Gt => 0x11,
            Instruction::Slt => 0x12,
            Instruction::Sgt => 0x13,
            Instruction::Eq => 0x14,
            Instruction::IsZero => 0x15,
            Instruction::And => 0x16,
            Instruction::Or => 0x17,
            Instruction::Xor => 0x18,
            Instruction::Not => 0x19,
            Instruction::Byte => 0x1a,
            Instruction::Shl => 0x1b,
            Instruction::Shr => 0x1c,
            Instruction::Sar => 0x1d,
        }
    }

    /// What the instruction does to a stack and a gas count under a protocol
    /// version.
    pub open spec fn step(self, version: ProtocolVersion, stack: Seq<Word>, gas: nat) -> Outcome {
        match self {
            Instruction::Lt => binary_step(stack, gas, |op1: Word, op2: Word| lt_word(op1, op2)),
            Instruction::Gt => binary_step(stack, gas, |op1: Word, op2: Word| gt_word(op1, op2)),
            Instruction::Slt => binary_step(stack, gas, |op1: Word, op2: Word| slt_word(op1, op2)),
            Instruction::Sgt => binary_step(stack, gas, |op1: Word, op2: Word| sgt_word(op1, op2)),
            Instruction::Eq => binary_step(stack, gas, |op1: Word, op2: Word| eq_word(op1, op2)),
            Instruction::IsZero => unary_step(stack, gas, |op1: Word| iszero_word(op1)),
            Instruction::And => binary_step(stack, gas, |op1: Word, op2: Word| op1.and_spec(op2)),
            Instruction::Or => binary_step(stack, gas, |op1: Word, op2: Word| op1.or_spec(op2)),
            Instruction::Xor => binary_step(stack, gas, |op1: Word, op2: Word| op1.xor_spec(op2)),
            Instruction::Not => unary_step(stack, gas, |op1: Word| op1.not_spec()),
            Instruction::Byte => binary_step(
                stack,
                gas,
                |index: Word, value: Word| byte_word(index, value),
            ),
            Instruction::Shl => shift_step(
                version,
                stack,
                gas,
                |shift: Word, value: Word| shl_word(shift, value),
            ),
            Instruction::Shr => shift_step(
                version,
                stack,
                gas,
                |shift: Word, value: Word| shr_word(shift, value),
            ),
            Instruction::Sar => shift_step(
                version,
                stack,
                gas,
                |shift: Word, value: Word| sar_word(shift, value),
            ),
        }
    }

    /// The byte that stands for the instruction in bytecode.
    pub fn opcode(self) -> (code: u8)
        ensures
            code == self.code(),
    {
        match self {
            Instruction::Lt => 0x10,
            Instruction::Gt => 0x11,
            Instruction::Slt => 0x12,
            Instruction::Sgt => 0x13,
            Instruction::Eq => 0x14,
            Instruction::IsZero => 0x15,
            Instruction::And => 0x16,
            Instruction::Or => 0x17,
            Instruction::Xor => 0x18,
            Instruction::Not => 0x19,
            Instruction::Byte => 0x1a,
            Instruction::Shl => 0x1b,
            Instruction::Shr => 0x1c,
            Instruction::Sar => 0x1d,
        }
    }

    /// The instruction that `code` stands for, if it is one of this layer:
    /// the bytes from 0x10 to 0x1d are, and no others.
    pub fn from_opcode(code: u8) -> (r: Option<Instruction>)
        ensures
            0x10 <= code <= 0x1d ==> r.is_some() && r.unwrap().code() == code,
            !(0x10 <= code <= 0x1d) ==> r.is_none(),
    {
        match code {
            0x10 => Some(Instruction::Lt),
            0x11 => Some(Instruction::Gt),
            0x12 => Some(Instruction::Slt),
            0x13 => Some(Instruction::Sgt),
            0x14 => Some(Instruction::Eq),
            0x15 => Some(Instruction::IsZero),
            0x16 => Some(Instruction::And),
            0x17 => Some(Instruction::Or),
            0x18 => Some(Instruction::Xor),
            0x19 => Some(Instruction::Not),
            0x1a => Some(Instruction::Byte),
            0x1b => Some(Instruction::Shl),
            0x1c => Some(Instruction::Shr),
            0x1d => Some(Instruction::Sar),
            _ => None,
        }
    }

    /// Runs the handler of the instruction.
    pub fn execute(self, stack: &mut ValueStack, gas: &mut GasMeter, version: ProtocolVersion) -> (r:
        Result<(), HaltCondition>)
        ensures
            outcome(final(stack)@, final(gas)@, r) == self.step(version, old(stack)@, old(gas)@),
    {
        match self {
            Instruction::Lt => bitwise::lt(stack, gas, version),
            Instruction::Gt => bitwise::gt(stack, gas, version),
            Instruction::Slt => bitwise::slt(stack, gas, version),
            Instruction::Sgt => bitwise::sgt(stack, gas, version),
            Instruction::Eq => bitwise::eq(stack, gas, version),
            Instruction::IsZero => bitwise::iszero(stack, gas, version),
            Instruction::And => bitwise::bitand(stack, gas, version),
            Instruction::Or => bitwise::bitor(stack, gas, version),
            Instruction::Xor => bitwise::bitxor(stack, gas, version),
            Instruction::Not => bitwise::not(stack, gas, version),
            Instruction::Byte => bitwise::byte(stack, gas, version),
            Instruction::Shl => bitwise::shl(stack, gas, version),
            Instruction::Shr => bitwise::shr(stack, gas, version),
            Instruction::Sar => bitwise::sar(stack, gas, version),
        }
    }
}

/// No two instructions share a byte.
pub proof fn lemma_codes_distinct(a: Instruction, b: Instruction)
    requires
        a.code() == b.code(),
    ensures
        a == b,
{
}

} // verus!
