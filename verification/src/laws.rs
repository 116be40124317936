use crate::bits::and_bits;
use crate::bits::bits_value;
use crate::bits::flag_bits;
use crate::bits::lemma_bits_value_concat;
use crate::bits::lemma_bits_value_split;
use crate::bits::lemma_clear_row_value;
use crate::bits::lemma_pow2_limbs;
use crate::bits::lemma_set_row_value;
use crate::bits::not_bits;
use crate::bits::or_bits;
use crate::bits::sar_bits;
use crate::bits::shl_bits;
use crate::bits::shr_bits;
use crate::bits::xor_bits;
use crate::bitwise::Outcome;
use crate::bitwise::byte_word;
use crate::bitwise::eq_word;
use crate::bitwise::gt_word;
use crate::bitwise::lt_word;
use crate::bitwise::sar_word;
use crate::bitwise::shl_word;
use crate::bitwise::sgt_word;
use crate::bitwise::shr_word;
use crate::bitwise::slt_word;
use crate::dispatch::Instruction;
use crate::gas::VERYLOW;
use crate::halt::HaltCondition;
use crate::signed::lemma_sign_bit;
use crate::signed::signed_value;
use crate::version::ProtocolVersion;
use crate::version::shift_upgrade;
use crate::word::Word;
use crate::word_bits::lemma_and_bits;
use crate::word_bits::lemma_bits_injective;
use crate::word_bits::lemma_bits_spell_value;
use crate::word_bits::lemma_flag_bits;
use crate::word_bits::lemma_from_bits;
use crate::word_bits::lemma_from_own_bits;
use crate::word_bits::lemma_not_bits;
use crate::word_bits::lemma_ones_bits;
use crate::word_bits::lemma_or_bits;
use crate::word_bits::lemma_view_bound;
use crate::word_bits::lemma_xor_bits;
use crate::word_bits::lemma_zero_bits;
use vstd::arithmetic::div_mod::lemma_basic_div;
use vstd::arithmetic::div_mod::lemma_fundamental_div_mod_converse;
use vstd::arithmetic::div_mod::lemma_mod_multiples_basic;
use vstd::arithmetic::div_mod::lemma_small_mod;
use vstd::arithmetic::power2::lemma2_to64;
use vstd::arithmetic::power2::lemma_pow2_adds;
use vstd::arithmetic::power2::lemma_pow2_pos;
use vstd::arithmetic::power2::lemma_pow2_strictly_increases;
use vstd::arithmetic::power2::pow2;
use vstd::prelude::*;

verus! {

/// Round trip from the plain side: a word that is lifted into circuit form
/// and collapsed again is the word itself. The wires of the lifted word are
/// its bits, and collapsing makes the word of those bits.
pub proof fn lemma_round_trip(w: Word)
    ensures
        Word::from_bits(w.bits()) == w,
{
    lemma_from_own_bits(w);
}

/// Round trip from the secret side: a row of 256 wires that is collapsed
/// into a word and lifted again is the same row.
pub proof fn lemma_round_trip_wires(wires: Seq<bool>)
    requires
        wires.len() == 256,
    ensures
        Word::from_bits(wires).bits() == wires,
{
    lemma_from_bits(wires);
}

/// AND in circuit form agrees with plain AND: lifting two words, taking the
/// AND of every pair of wires and collapsing the result gives the plain
/// bitwise AND of the two words.
pub proof fn lemma_secret_and_is_plain(a: Word, b: Word)
    ensures
        Word::from_bits(and_bits(a.bits(), b.bits())) == a.and_spec(b),
{
    lemma_and_bits(a, b);
    lemma_from_own_bits(a.and_spec(b));
}

/// OR in circuit form agrees with plain OR: lifting two words, taking the OR
/// of every pair of wires and collapsing the result gives the plain bitwise
/// OR of the two words.
pub proof fn lemma_secret_or_is_plain(a: Word, b: Word)
    ensures
        Word::from_bits(or_bits(a.bits(), b.bits())) == a.or_spec(b),
{
    lemma_or_bits(a, b);
    lemma_from_own_bits(a.or_spec(b));
}

/// XOR in circuit form agrees with plain XOR: lifting two words, taking the
/// XOR of every pair of wires and collapsing the result gives the plain
/// bitwise XOR of the two words.
pub proof fn lemma_secret_xor_is_plain(a: Word, b: Word)
    ensures
        Word::from_bits(xor_bits(a.bits(), b.bits())) == a.xor_spec(b),
{
    lemma_xor_bits(a, b);
    lemma_from_own_bits(a.xor_spec(b));
}

/// NOT in circuit form agrees with the plain complement.
pub proof fn lemma_secret_not_is_plain(a: Word)
    ensures
        Word::from_bits(not_bits(a.bits())) == a.not_spec(),
{
    lemma_not_bits(a);
    lemma_from_own_bits(a.not_spec());
}

/// A truth value in circuit form collapses into the word 1 or 0.
pub proof fn lemma_secret_flag_is_plain(p: bool)
    ensures
        Word::from_bits(flag_bits(p)) == Word::of_bool(p),
{
    lemma_flag_bits(p);
    lemma_from_own_bits(Word::of_bool(p));
}

/// The complement of the complement of a word is the word.
pub proof fn lemma_not_involutive(w: Word)
    ensures
        w.not_spec().not_spec() == w,
{
    lemma_not_bits(w);
    lemma_not_bits(w.not_spec());
    assert(not_bits(not_bits(w.bits())) =~= w.bits());
    lemma_bits_injective(w.not_spec().not_spec(), w);
}

/// Shift saturation: a logical shift by 256 places or more, to either side,
/// gives zero whatever the value.
pub proof fn lemma_shift_saturation(shift: Word, value: Word)
    requires
        shift@ >= 256,
    ensures
        shl_word(shift, value) == Word::all_zeros(),
        shr_word(shift, value) == Word::all_zeros(),
{
    lemma_zero_bits();
    assert(shl_bits(value.bits(), shift@) =~= Word::all_zeros().bits());
    assert(shr_bits(value.bits(), shift@) =~= Word::all_zeros().bits());
    lemma_from_own_bits(Word::all_zeros());
}

/// Sign extension: an arithmetic shift by 256 places or more gives all ones
/// where bit 255 of the value is set, and zero where it is not.
pub proof fn lemma_sar_saturation(shift: Word, value: Word)
    requires
        shift@ >= 256,
    ensures
        value.bit(255) ==> sar_word(shift, value) == Word::all_ones(),
        !value.bit(255) ==> sar_word(shift, value) == Word::all_zeros(),
{
    lemma_zero_bits();
    lemma_ones_bits();
    if value.bit(255) {
        assert(sar_bits(value.bits(), shift@) =~= Word::all_ones().bits());
        lemma_from_own_bits(Word::all_ones());
    } else {
        assert(sar_bits(value.bits(), shift@) =~= Word::all_zeros().bits());
        lemma_from_own_bits(Word::all_zeros());
    }
}

/// A logical shift right divides: the result is the value divided by
/// 2^shift, rounded down.
pub proof fn lemma_shr_divides(shift: Word, value: Word)
    ensures
        shr_word(shift, value)@ == value@ / pow2(shift@),
{
    let n = shift@;
    lemma_view_bound(value);
    lemma_pow2_pos(n);
    if n >= 256 {
        lemma_shift_saturation(shift, value);
        if n > 256 {
            lemma_pow2_strictly_increases(256, n);
        }
        lemma_basic_div(value@ as int, pow2(n) as int);
    } else {
        let s = value.bits();
        let moved = shr_bits(s, n);
        lemma_bits_spell_value(value);
        lemma_bits_value_split(s, n as int);
        let low = bits_value(s.take(n as int));
        let high = bits_value(s.skip(n as int));
        assert(pow2(n) * high == high * pow2(n)) by (nonlinear_arith);
        lemma_fundamental_div_mod_converse(value@ as int, pow2(n) as int, high as int, low as int);
        assert(moved =~= s.skip(n as int) + Seq::new(n, |i: int| false));
        lemma_bits_value_concat(s.skip(n as int), Seq::new(n, |i: int| false));
        lemma_clear_row_value(n);
        assert(pow2((256 - n) as nat) * 0 == 0);
        lemma_from_bits(moved);
    }
}

/// A logical shift left multiplies: the result is the value times 2^shift,
/// reduced modulo 2^256.
pub proof fn lemma_shl_multiplies(shift: Word, value: Word)
    ensures
        shl_word(shift, value)@ == (value@ * pow2(shift@)) % pow2(256),
{
    let n = shift@;
    lemma_pow2_pos(256);
    if n >= 256 {
        lemma_shift_saturation(shift, value);
        lemma_pow2_adds(256, (n - 256) as nat);
        let rest = pow2((n - 256) as nat);
        assert(value@ * (pow2(256) * rest) == (value@ * rest) * pow2(256)) by (nonlinear_arith);
        lemma_mod_multiples_basic((value@ * rest) as int, pow2(256) as int);
    } else {
        let m = (256 - n) as nat;
        let s = value.bits();
        let moved = shl_bits(s, n);
        lemma_bits_spell_value(value);
        lemma_bits_value_split(s, m as int);
        let low = bits_value(s.take(m as int));
        let high = bits_value(s.skip(m as int));
        assert(moved =~= Seq::new(n, |i: int| false) + s.take(m as int));
        lemma_bits_value_concat(Seq::new(n, |i: int| false), s.take(m as int));
        lemma_clear_row_value(n);
        lemma_from_bits(moved);
        lemma_pow2_adds(m, n);
        lemma_pow2_pos(n);
        assert((low + pow2(m) * high) * pow2(n) == high * (pow2(m) * pow2(n)) + pow2(n) * low)
            by (nonlinear_arith);
        assert(pow2(n) * low < pow2(m) * pow2(n)) by (nonlinear_arith)
            requires
                low < pow2(m),
                pow2(n) > 0,
        ;
        lemma_fundamental_div_mod_converse(
            (value@ * pow2(n)) as int,
            pow2(256) as int,
            high as int,
            (pow2(n) * low) as int,
        );
    }
}

/// An arithmetic shift right divides the signed value: the result, read as
/// a two's-complement integer, is the value read so, divided by 2^shift and
/// rounded towards minus infinity.
pub proof fn lemma_sar_divides_signed(shift: Word, value: Word)
    ensures
        signed_value(sar_word(shift, value)) == signed_value(value) / (pow2(shift@) as int),
{
    let n = shift@;
    let s = value.bits();
    let moved = sar_bits(s, n);
    let result = sar_word(shift, value);
    lemma_from_bits(moved);
    lemma_sign_bit(value);
    lemma_sign_bit(result);
    lemma_view_bound(value);
    lemma_pow2_limbs();
    lemma_pow2_pos(n);
    assert(result.bit(255) == value.bit(255));
    if !value.bit(255) {
        assert(moved =~= shr_bits(s, n));
        lemma_shr_divides(shift, value);
    } else if n >= 256 {
        if n > 256 {
            lemma_pow2_strictly_increases(256, n);
        }
        lemma_sar_saturation(shift, value);
        lemma_ones_bits();
        lemma_set_row_value(256);
        lemma_bits_spell_value(Word::all_ones());
        let x = signed_value(value);
        lemma_fundamental_div_mod_converse(x, pow2(n) as int, -1, x + pow2(n));
    } else {
        let m = (256 - n) as nat;
        lemma_bits_spell_value(value);
        lemma_bits_value_split(s, n as int);
        let low = bits_value(s.take(n as int));
        let high = bits_value(s.skip(n as int));
        assert(moved =~= s.skip(n as int) + Seq::new(n, |i: int| true));
        lemma_bits_value_concat(s.skip(n as int), Seq::new(n, |i: int| true));
        lemma_set_row_value(n);
        lemma_pow2_adds(m, n);
        assert(pow2(m) * (pow2(n) - 1) == pow2(m) * pow2(n) - pow2(m)) by (nonlinear_arith);
        assert(result@ == high + pow2(256) - pow2(m));
        let q = high - pow2(m);
        assert(q * pow2(n) + low == low + pow2(n) * high - pow2(m) * pow2(n)) by (nonlinear_arith)
            requires
                q == high - pow2(m),
        ;
        lemma_fundamental_div_mod_converse(signed_value(value), pow2(n) as int, q, low as int);
    }
}

/// Byte boundary: a place of 32 or more gives zero, and place 0 gives the
/// most significant byte of the value, which is the value divided by 2^248.
pub proof fn lemma_byte_boundary(index: Word, value: Word)
    ensures
        index@ >= 32 ==> byte_word(index, value) == Word::all_zeros(),
        index@ == 0 ==> byte_word(index, value)@ == value@ / pow2(248),
{
    if index@ == 0 {
        lemma_view_bound(value);
        lemma2_to64();
        lemma_pow2_adds(248, 8);
        lemma_pow2_pos(248);
        let top = value@ / pow2(248);
        assert(top < 256) by (nonlinear_arith)
            requires
                top == value@ / pow2(248),
                value@ < pow2(248) * 256,
                pow2(248) > 0,
        ;
        lemma_small_mod(top, 256);
    }
}

/// Trichotomy of the unsigned order: of less-than, equality and
/// greater-than on the same two words, exactly one gives 1 and the other
/// two give 0.
pub proof fn lemma_comparison_trichotomy(a: Word, b: Word)
    ensures
        lt_word(a, b)@ + eq_word(a, b)@ + gt_word(a, b)@ == 1,
        lt_word(a, b)@ <= 1,
        eq_word(a, b)@ <= 1,
        gt_word(a, b)@ <= 1,
{
}

/// Trichotomy of the signed order: of signed less-than, equality and signed
/// greater-than on the same two words, exactly one gives 1 and the other two
/// give 0.
pub proof fn lemma_signed_trichotomy(a: Word, b: Word)
    ensures
        slt_word(a, b)@ + eq_word(a, b)@ + sgt_word(a, b)@ == 1,
        slt_word(a, b)@ <= 1,
        sgt_word(a, b)@ <= 1,
{
    lemma_view_bound(a);
    lemma_view_bound(b);
    lemma_pow2_limbs();
}

/// An instruction that halts leaves the stack as it was: it does all of its
/// work on the stack or none of it.
pub proof fn lemma_halt_leaves_stack(
    instruction: Instruction,
    version: ProtocolVersion,
    stack: Seq<Word>,
    gas: nat,
)
    requires
        instruction.step(version, stack, gas).result is Err,
    ensures
        instruction.step(version, stack, gas).stack == stack,
{
}

/// Whether an outcome is one of the two halts that take no gas: for want
/// of gas, or as undefined.
pub open spec fn halts_free(after: Outcome) -> bool {
    after.result == Err::<(), HaltCondition>(HaltCondition::OutOfGas) || after.result == Err::<
        (),
        HaltCondition,
    >(HaltCondition::UndefinedInstruction)
}

/// An instruction takes its charge or nothing. It takes nothing exactly
/// where it halts for want of gas or as undefined.
pub proof fn lemma_charge(
    instruction: Instruction,
    version: ProtocolVersion,
    stack: Seq<Word>,
    gas: nat,
)
    ensures
        halts_free(instruction.step(version, stack, gas)) ==> instruction.step(
            version,
            stack,
            gas,
        ).gas == gas,
        !halts_free(instruction.step(version, stack, gas)) ==> instruction.step(
            version,
            stack,
            gas,
        ).gas + VERYLOW == gas,
{
}

/// An instruction touches the two top words of the stack at most: every
/// word below them stays in its place.
pub proof fn lemma_stack_below_top_two(
    instruction: Instruction,
    version: ProtocolVersion,
    stack: Seq<Word>,
    gas: nat,
    i: int,
)
    requires
        0 <= i < stack.len() - 2,
    ensures
        i < instruction.step(version, stack, gas).stack.len(),
        instruction.step(version, stack, gas).stack[i] == stack[i],
{
}

/// A shift instruction under a version without the upgrade that brought the
/// shifts halts as undefined, whatever the stack and the gas, and leaves
/// both as they were.
pub proof fn lemma_shifts_undefined_before_upgrade(
    instruction: Instruction,
    version: ProtocolVersion,
    stack: Seq<Word>,
    gas: nat,
)
    requires
        instruction == Instruction::Shl || instruction == Instruction::Shr || instruction
            == Instruction::Sar,
        !version.enables(shift_upgrade()),
    ensures
        instruction.step(version, stack, gas) == (Outcome {
            stack,
            gas,
            result: Err(HaltCondition::UndefinedInstruction),
        }),
{
}

} // verus!
