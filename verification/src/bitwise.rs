use crate::bits::sar_bits;
use crate::bits::shl_bits;
use crate::bits::shr_bits;
use crate::bridge::to_plain;
use crate::bridge::to_secret;
use crate::gas::GasMeter;
use crate::gas::VERYLOW;
use crate::halt::HaltCondition;
use crate::laws::lemma_sar_saturation;
use crate::laws::lemma_secret_and_is_plain;
use crate::laws::lemma_secret_flag_is_plain;
use crate::laws::lemma_secret_not_is_plain;
use crate::laws::lemma_secret_or_is_plain;
use crate::laws::lemma_secret_xor_is_plain;
use crate::laws::lemma_shift_saturation;
use crate::native;
use crate::signed::SignedOrder;
use crate::signed::signed_order;
use crate::signed::signed_value;
use crate::stack::ValueStack;
use crate::version::ProtocolVersion;
use crate::version::Upgrade;
use crate::version::shift_upgrade;
use crate::word::Word;
use crate::word_bits::lemma_bits_spell_value;
use crate::word_bits::lemma_from_own_bits;
use vstd::arithmetic::power2::pow2;
use vstd::prelude::*;

verus! {

/// What one instruction leaves behind: the stack, bottom first, the gas that
/// is left, and whether the execution goes on.
pub struct Outcome {
    pub stack: Seq<Word>,
    pub gas: nat,
    pub result: Result<(), HaltCondition>,
}

/// The outcome made of its three parts.
pub open spec fn outcome(stack: Seq<Word>, gas: nat, result: Result<(), HaltCondition>) -> Outcome {
    Outcome { stack, gas, result }
}

/// An instruction with one operand. It first takes its charge; without
/// enough gas it halts and changes nothing. Then it needs a word on the
/// stack, and halts with the stack untouched if there is none. Otherwise the
/// word that `op` gives for the top word takes the top word's place.
pub open spec fn unary_step(stack: Seq<Word>, gas: nat, op: spec_fn(Word) -> Word) -> Outcome {
    if gas < VERYLOW {
        outcome(stack, gas, Err(HaltCondition::OutOfGas))
    } else if stack.len() < 1 {
        outcome(stack, (gas - VERYLOW) as nat, Err(HaltCondition::StackUnderflow))
    } else {
        outcome(stack.drop_last().push(op(stack.last())), (gas - VERYLOW) as nat, Ok(()))
    }
}

/// An instruction with two operands. It first takes its charge; without
/// enough gas it halts and changes nothing. Then it needs two words on the
/// stack, and halts with the stack untouched if there are fewer. Otherwise
/// the two top words leave the stack and the word that `op` gives for them
/// is the new top; `op` takes the old top word first and the word below it
/// second.
pub open spec fn binary_step(stack: Seq<Word>, gas: nat, op: spec_fn(Word, Word) -> Word) -> Outcome {
    if gas < VERYLOW {
        outcome(stack, gas, Err(HaltCondition::OutOfGas))
    } else if stack.len() < 2 {
        outcome(stack, (gas - VERYLOW) as nat, Err(HaltCondition::StackUnderflow))
    } else {
        outcome(
            stack.drop_last().drop_last().push(op(stack[stack.len() - 1], stack[stack.len() - 2])),
            (gas - VERYLOW) as nat,
            Ok(()),
        )
    }
}

/// A shift instruction. Under a version without the upgrade that brought
/// the shifts it halts as undefined and takes no gas. Under any other
/// version it is an instruction with two operands.
pub open spec fn shift_step(
    version: ProtocolVersion,
    stack: Seq<Word>,
    gas: nat,
    op: spec_fn(Word, Word) -> Word,
) -> Outcome {
    if !version.enables(shift_upgrade()) {
        outcome(stack, gas, Err(HaltCondition::UndefinedInstruction))
    } else {
        binary_step(stack, gas, op)
    }
}

/// The result of `shl`: `value` moved `shift` places towards the most
/// significant bit, with zeros in the places that the move vacates. A shift
/// of 256 or more leaves no bit of `value`.
pub open spec fn shl_word(shift: Word, value: Word) -> Word {
    Word::from_bits(shl_bits(value.bits(), shift@))
}

/// The result of `shr`: `value` moved `shift` places towards the least
/// significant bit, with zeros in the places that the move vacates. A shift
/// of 256 or more leaves no bit of `value`.
pub open spec fn shr_word(shift: Word, value: Word) -> Word {
    Word::from_bits(shr_bits(value.bits(), shift@))
}

/// The result of `sar`: `value` moved `shift` places towards the least
/// significant bit, with copies of its bit 255 in the places that the move
/// vacates. A shift of 256 or more leaves only copies of that bit.
pub open spec fn sar_word(shift: Word, value: Word) -> Word {
    Word::from_bits(sar_bits(value.bits(), shift@))
}

/// The result of `lt`: 1 where the first word is below the second as an
/// unsigned number, else 0.
pub open spec fn lt_word(op1: Word, op2: Word) -> Word {
    Word::of_bool(op1@ < op2@)
}

/// The result of `gt`: 1 where the first word is above the second as an
/// unsigned number, else 0.
pub open spec fn gt_word(op1: Word, op2: Word) -> Word {
    Word::of_bool(op1@ > op2@)
}

/// The result of `eq`: 1 where the two words are the same value, else 0.
pub open spec fn eq_word(op1: Word, op2: Word) -> Word {
    Word::of_bool(op1@ == op2@)
}

/// The result of `slt`: 1 where the first word is below the second, both
/// read as two's-complement integers, else 0.
pub open spec fn slt_word(op1: Word, op2: Word) -> Word {
    Word::of_bool(signed_value(op1) < signed_value(op2))
}

/// The result of `sgt`: 1 where the first word is above the second, both
/// read as two's-complement integers, else 0.
pub open spec fn sgt_word(op1: Word, op2: Word) -> Word {
    Word::of_bool(signed_value(op1) > signed_value(op2))
}

/// The result of `iszero`: 1 for the word of value 0, else 0.
pub open spec fn iszero_word(op1: Word) -> Word {
    Word::of_bool(op1@ == 0)
}

/// The result of `byte`: the byte of `value` at place `index`, byte 0 being
/// the most significant of the 32, as a word; zero for a place of 32 or more.
pub open spec fn byte_word(index: Word, value: Word) -> Word {
    if index@ < 32 {
        Word::of_u64(((value@ / pow2((8 * (31 - index@)) as nat)) % 256) as u64)
    } else {
        Word::all_zeros()
    }
}

/// Logical shift left. Takes the shift amount from the top of the stack and
/// the value from below it. The shift is done in circuit form for an amount
/// below 256; for a larger one the result is zero without it.
pub fn shl(stack: &mut ValueStack, gas: &mut GasMeter, version: ProtocolVersion) -> (r: Result<
    (),
    HaltCondition,
>)
    ensures
        outcome(final(stack)@, final(gas)@, r) == shift_step(
            version,
            old(stack)@,
            old(gas)@,
            |shift: Word, value: Word| shl_word(shift, value),
        ),
{
    if !version.has_flag(Upgrade::Constantinople) {
        return Err(HaltCondition::UndefinedInstruction);
    }
    gas.charge(VERYLOW)?;
    let (op1, op2) = stack.pop_top()?;
    let shift = op1.as_usize_saturated();
    let result = if shift < 256 {
        let secret = to_secret(&op2);
        let shifted = secret.shl(shift);
        to_plain(&shifted)
    } else {
        proof {
            lemma_shift_saturation(op1, op2);
        }
        Word::zero()
    };
    stack.replace_top(result)
}

/// Logical shift right. Takes the shift amount from the top of the stack and
/// the value from below it. The shift is done in circuit form for an amount
/// below 256; for a larger one the result is zero without it.
pub fn shr(stack: &mut ValueStack, gas: &mut GasMeter, version: ProtocolVersion) -> (r: Result<
    (),
    HaltCondition,
>)
    ensures
        outcome(final(stack)@, final(gas)@, r) == shift_step(
            version,
            old(stack)@,
            old(gas)@,
            |shift: Word, value: Word| shr_word(shift, value),
        ),
{
    if !version.has_flag(Upgrade::Constantinople) {
        return Err(HaltCondition::UndefinedInstruction);
    }
    gas.charge(VERYLOW)?;
    let (op1, op2) = stack.pop_top()?;
    let shift = op1.as_usize_saturated();
    let result = if shift < 256 {
        let secret = to_secret(&op2);
        let shifted = secret.shr(shift);
        to_plain(&shifted)
    } else {
        proof {
            lemma_shift_saturation(op1, op2);
        }
        Word::zero()
    };
    stack.replace_top(result)
}

/// Arithmetic shift right, on the plain value. Takes the shift amount from
/// the top of the stack and the value from below it. For an amount of 256 or
/// more the result is all ones where bit 255 of the value is set, and zero
/// where it is not.
pub fn sar(stack: &mut ValueStack, gas: &mut GasMeter, version: ProtocolVersion) -> (r: Result<
    (),
    HaltCondition,
>)
    ensures
        outcome(final(stack)@, final(gas)@, r) == shift_step(
            version,
            old(stack)@,
            old(gas)@,
            |shift: Word, value: Word| sar_word(shift, value),
        ),
{
    if !version.has_flag(Upgrade::Constantinople) {
        return Err(HaltCondition::UndefinedInstruction);
    }
    gas.charge(VERYLOW)?;
    let (op1, op2) = stack.pop_top()?;
    let shift = op1.as_usize_saturated();
    let result = if shift < 256 {
        let shifted = native::arithmetic_shr(&op2, shift);
        proof {
            lemma_from_own_bits(shifted);
        }
        shifted
    } else if native::bit(&op2, 255) {
        proof {
            lemma_sar_saturation(op1, op2);
        }
        Word::max()
    } else {
        proof {
            lemma_sar_saturation(op1, op2);
        }
        Word::zero()
    };
    stack.replace_top(result)
}

/// Byte extraction, on the plain value. Takes the place from the top of the
/// stack and the value from below it. Place 0 is the most significant byte,
/// so the byte is read at little-endian place `31 - place`.
pub fn byte(stack: &mut ValueStack, gas: &mut GasMeter, _version: ProtocolVersion) -> (r: Result<
    (),
    HaltCondition,
>)
    ensures
        outcome(final(stack)@, final(gas)@, r) == binary_step(
            old(stack)@,
            old(gas)@,
            |index: Word, value: Word| byte_word(index, value),
        ),
{
    gas.charge(VERYLOW)?;
    let (op1, op2) = stack.pop_top()?;
    let place = op1.as_usize_saturated();
    let result = if place < 32 {
        Word::from_u8(native::byte(&op2, 31 - place))
    } else {
        Word::zero()
    };
    stack.replace_top(result)
}

/// Bitwise AND of the two top words, computed in circuit form.
pub fn bitand(stack: &mut ValueStack, gas: &mut GasMeter, _version: ProtocolVersion) -> (r: Result<
    (),
    HaltCondition,
>)
    ensures
        outcome(final(stack)@, final(gas)@, r) == binary_step(
            old(stack)@,
            old(gas)@,
            |op1: Word, op2: Word| op1.and_spec(op2),
        ),
{
    gas.charge(VERYLOW)?;
    let (op1, op2) = stack.pop_top()?;
    let secret1 = to_secret(&op1);
    let secret2 = to_secret(&op2);
    let result = secret1.and(&secret2);
    proof {
        lemma_secret_and_is_plain(op1, op2);
    }
    stack.replace_top(to_plain(&result))
}

/// Bitwise OR of the two top words, computed in circuit form.
pub fn bitor(stack: &mut ValueStack, gas: &mut GasMeter, _version: ProtocolVersion) -> (r: Result<
    (),
    HaltCondition,
>)
    ensures
        outcome(final(stack)@, final(gas)@, r) == binary_step(
            old(stack)@,
            old(gas)@,
            |op1: Word, op2: Word| op1.or_spec(op2),
        ),
{
    gas.charge(VERYLOW)?;
    let (op1, op2) = stack.pop_top()?;
    let secret1 = to_secret(&op1);
    let secret2 = to_secret(&op2);
    let result = secret1.or(&secret2);
    proof {
        lemma_secret_or_is_plain(op1, op2);
    }
    stack.replace_top(to_plain(&result))
}

/// Bitwise XOR of the two top words, computed in circuit form.
pub fn bitxor(stack: &mut ValueStack, gas: &mut GasMeter, _version: ProtocolVersion) -> (r: Result<
    (),
    HaltCondition,
>)
    ensures
        outcome(final(stack)@, final(gas)@, r) == binary_step(
            old(stack)@,
            old(gas)@,
            |op1: Word, op2: Word| op1.xor_spec(op2),
        ),
{
    gas.charge(VERYLOW)?;
    let (op1, op2) = stack.pop_top()?;
    let secret1 = to_secret(&op1);
    let secret2 = to_secret(&op2);
    let result = secret1.xor(&secret2);
    proof {
        lemma_secret_xor_is_plain(op1, op2);
    }
    stack.replace_top(to_plain(&result))
}

/// Bitwise complement of the top word, computed in circuit form.
pub fn not(stack: &mut ValueStack, gas: &mut GasMeter, _version: ProtocolVersion) -> (r: Result<
    (),
    HaltCondition,
>)
    ensures
        outcome(final(stack)@, final(gas)@, r) == unary_step(
            old(stack)@,
            old(gas)@,
            |op1: Word| op1.not_spec(),
        ),
{
    gas.charge(VERYLOW)?;
    let op1 = stack.top()?;
    let secret = to_secret(&op1);
    let result = secret.not();
    proof {
        lemma_secret_not_is_plain(op1);
    }
    stack.replace_top(to_plain(&result))
}

/// Unsigned less-than of the top word against the word below it, computed in
/// circuit form: 1 where the top word is the smaller one, else 0.
pub fn lt(stack: &mut ValueStack, gas: &mut GasMeter, _version: ProtocolVersion) -> (r: Result<
    (),
    HaltCondition,
>)
    ensures
        outcome(final(stack)@, final(gas)@, r) == binary_step(
            old(stack)@,
            old(gas)@,
            |op1: Word, op2: Word| lt_word(op1, op2),
        ),
{
    gas.charge(VERYLOW)?;
    let (op1, op2) = stack.pop_top()?;
    let secret1 = to_secret(&op1);
    let secret2 = to_secret(&op2);
    let result = secret1.lt(&secret2);
    proof {
        lemma_bits_spell_value(op1);
        lemma_bits_spell_value(op2);
        lemma_secret_flag_is_plain(op1@ < op2@);
    }
    stack.replace_top(to_plain(&result))
}

/// Unsigned greater-than of the top word against the word below it, computed
/// in circuit form: 1 where the top word is the larger one, else 0.
pub fn gt(stack: &mut ValueStack, gas: &mut GasMeter, _version: ProtocolVersion) -> (r: Result<
    (),
    HaltCondition,
>)
    ensures
        outcome(final(stack)@, final(gas)@, r) == binary_step(
            old(stack)@,
            old(gas)@,
            |op1: Word, op2: Word| gt_word(op1, op2),
        ),
{
    gas.charge(VERYLOW)?;
    let (op1, op2) = stack.pop_top()?;
    let secret1 = to_secret(&op1);
    let secret2 = to_secret(&op2);
    let result = secret1.gt(&secret2);
    proof {
        lemma_bits_spell_value(op1);
        lemma_bits_spell_value(op2);
        lemma_secret_flag_is_plain(op1@ > op2@);
    }
    stack.replace_top(to_plain(&result))
}

/// Equality of the two top words, computed in circuit form: 1 where they are
/// the same value, else 0.
pub fn eq(stack: &mut ValueStack, gas: &mut GasMeter, _version: ProtocolVersion) -> (r: Result<
    (),
    HaltCondition,
>)
    ensures
        outcome(final(stack)@, final(gas)@, r) == binary_step(
            old(stack)@,
            old(gas)@,
            |op1: Word, op2: Word| eq_word(op1, op2),
        ),
{
    gas.charge(VERYLOW)?;
    let (op1, op2) = stack.pop_top()?;
    let secret1 = to_secret(&op1);
    let secret2 = to_secret(&op2);
    let result = secret1.eq(&secret2);
    proof {
        lemma_bits_spell_value(op1);
        lemma_bits_spell_value(op2);
        lemma_secret_flag_is_plain(op1@ == op2@);
    }
    stack.replace_top(to_plain(&result))
}

/// Signed less-than of the top word against the word below it, on the plain
/// values read as two's-complement integers: 1 where the top word is the
/// smaller one, else 0.
pub fn slt(stack: &mut ValueStack, gas: &mut GasMeter, _version: ProtocolVersion) -> (r: Result<
    (),
    HaltCondition,
>)
    ensures
        outcome(final(stack)@, final(gas)@, r) == binary_step(
            old(stack)@,
            old(gas)@,
            |op1: Word, op2: Word| slt_word(op1, op2),
        ),
{
    gas.charge(VERYLOW)?;
    let (op1, op2) = stack.pop_top()?;
    let smaller = match signed_order(&op1, &op2) {
        SignedOrder::Less => true,
        _ => false,
    };
    stack.replace_top(Word::from_bool(smaller))
}

/// Signed greater-than of the top word against the word below it, on the
/// plain values read as two's-complement integers: 1 where the top word is
/// the larger one, else 0.
pub fn sgt(stack: &mut ValueStack, gas: &mut GasMeter, _version: ProtocolVersion) -> (r: Result<
    (),
    HaltCondition,
>)
    ensures
        outcome(final(stack)@, final(gas)@, r) == binary_step(
            old(stack)@,
            old(gas)@,
            |op1: Word, op2: Word| sgt_word(op1, op2),
        ),
{
    gas.charge(VERYLOW)?;
    let (op1, op2) = stack.pop_top()?;
    let larger = match signed_order(&op1, &op2) {
        SignedOrder::Greater => true,
        _ => false,
    };
    stack.replace_top(Word::from_bool(larger))
}

/// Zero test of the top word, on the plain value: 1 where it is zero, else
/// 0.
pub fn iszero(stack: &mut ValueStack, gas: &mut GasMeter, _version: ProtocolVersion) -> (r: Result<
    (),
    HaltCondition,
>)
    ensures
        outcome(final(stack)@, final(gas)@, r) == unary_step(
            old(stack)@,
            old(gas)@,
            |op1: Word| iszero_word(op1),
        ),
{
    gas.charge(VERYLOW)?;
    let op1 = stack.top()?;
    stack.replace_top(Word::from_bool(native::is_zero(&op1)))
}

} // verus!
