use crate::bits::and_bits;
use crate::bits::bits_value;
use crate::bits::flag_bits;
use crate::bits::lemma_bits_value_bound;
use crate::bits::lemma_bits_value_concat;
use crate::bits::lemma_limb_bits_of_value;
use crate::bits::lemma_limb_bits_value;
use crate::bits::limb_bits;
use crate::bits::not_bits;
use crate::bits::or_bits;
use crate::bits::xor_bits;
use crate::word::Word;
use crate::word::lemma_view_injective;
use crate::word::limb_base;
use vstd::arithmetic::power2::lemma2_to64_rest;
use vstd::arithmetic::power2::pow2;
use vstd::prelude::*;

verus! {

/// Every word is below 2^256.
pub proof fn lemma_view_bound(a: Word)
    ensures
        a@ < pow2(256),
{
    lemma_bits_spell_value(a);
    lemma_bits_value_bound(a.bits());
}

/// The bits of a word are the bits of its four limbs, laid end to end.
pub proof fn lemma_bits_by_limb(w: Word)
    ensures
        w.bits().subrange(0, 64) == limb_bits(w.limbs[0]),
        w.bits().subrange(64, 128) == limb_bits(w.limbs[1]),
        w.bits().subrange(128, 192) == limb_bits(w.limbs[2]),
        w.bits().subrange(192, 256) == limb_bits(w.limbs[3]),
{
    assert(w.bits().subrange(0, 64) =~= limb_bits(w.limbs[0]));
    assert(w.bits().subrange(64, 128) =~= limb_bits(w.limbs[1]));
    assert(w.bits().subrange(128, 192) =~= limb_bits(w.limbs[2]));
    assert(w.bits().subrange(192, 256) =~= limb_bits(w.limbs[3]));
}

/// The value of a row of 256 bits, from the values of its four quarters.
pub proof fn lemma_bits_value_by_quarter(s: Seq<bool>)
    requires
        s.len() == 256,
    ensures
        bits_value(s) == bits_value(s.subrange(0, 64)) + limb_base() * (bits_value(
            s.subrange(64, 128),
        ) + limb_base() * (bits_value(s.subrange(128, 192)) + limb_base() * bits_value(
            s.subrange(192, 256),
        ))),
{
    let q0 = s.subrange(0, 64);
    let q1 = s.subrange(64, 128);
    let q2 = s.subrange(128, 192);
    let q3 = s.subrange(192, 256);
    assert(s =~= q0 + (q1 + (q2 + q3)));
    lemma_bits_value_concat(q2, q3);
    lemma_bits_value_concat(q1, q2 + q3);
    lemma_bits_value_concat(q0, q1 + (q2 + q3));
    lemma2_to64_rest();
}

/// The bits of a word spell its value.
pub proof fn lemma_bits_spell_value(w: Word)
    ensures
        bits_value(w.bits()) == w@,
{
    lemma_bits_by_limb(w);
    lemma_bits_value_by_quarter(w.bits());
    lemma_limb_bits_value(w.limbs[0]);
    lemma_limb_bits_value(w.limbs[1]);
    lemma_limb_bits_value(w.limbs[2]);
    lemma_limb_bits_value(w.limbs[3]);
}

/// The word made of a row of 256 bits has exactly these bits, and the value
/// that they spell.
pub proof fn lemma_from_bits(s: Seq<bool>)
    requires
        s.len() == 256,
    ensures
        Word::from_bits(s).bits() == s,
        Word::from_bits(s)@ == bits_value(s),
{
    let w = Word::from_bits(s);
    lemma_limb_bits_of_value(s.subrange(0, 64));
    lemma_limb_bits_of_value(s.subrange(64, 128));
    lemma_limb_bits_of_value(s.subrange(128, 192));
    lemma_limb_bits_of_value(s.subrange(192, 256));
    lemma_bits_by_limb(w);
    assert forall|i: int| 0 <= i < 256 implies w.bits()[i] == s[i] by {
        if i < 64 {
            assert(w.bits()[i] == w.bits().subrange(0, 64)[i]);
            assert(s[i] == s.subrange(0, 64)[i]);
        } else if i < 128 {
            assert(w.bits()[i] == w.bits().subrange(64, 128)[i - 64]);
            assert(s[i] == s.subrange(64, 128)[i - 64]);
        } else if i < 192 {
            assert(w.bits()[i] == w.bits().subrange(128, 192)[i - 128]);
            assert(s[i] == s.subrange(128, 192)[i - 128]);
        } else {
            assert(w.bits()[i] == w.bits().subrange(192, 256)[i - 192]);
            assert(s[i] == s.subrange(192, 256)[i - 192]);
        }
    }
    assert(w.bits() =~= s);
    lemma_bits_spell_value(w);
}

/// A word is the word made of its own bits.
pub proof fn lemma_from_own_bits(w: Word)
    ensures
        Word::from_bits(w.bits()) == w,
{
    lemma_from_bits(w.bits());
    lemma_bits_spell_value(w);
    lemma_view_injective(Word::from_bits(w.bits()), w);
}

/// Two words with the same bits are one word.
pub proof fn lemma_bits_injective(a: Word, b: Word)
    requires
        a.bits() == b.bits(),
    ensures
        a == b,
{
    lemma_from_own_bits(a);
    lemma_from_own_bits(b);
}

proof fn lemma_limb_and(x: u64, y: u64, k: u64)
    by (bit_vector)
    requires
        k < 64,
    ensures
        (((x & y) >> k) & 1 == 1) == (((x >> k) & 1 == 1) && ((y >> k) & 1 == 1)),
{
}

proof fn lemma_limb_or(x: u64, y: u64, k: u64)
    by (bit_vector)
    requires
        k < 64,
    ensures
        (((x | y) >> k) & 1 == 1) == (((x >> k) & 1 == 1) || ((y >> k) & 1 == 1)),
{
}

proof fn lemma_limb_xor(x: u64, y: u64, k: u64)
    by (bit_vector)
    requires
        k < 64,
    ensures
        (((x ^ y) >> k) & 1 == 1) == (((x >> k) & 1 == 1) != ((y >> k) & 1 == 1)),
{
}

proof fn lemma_limb_not(x: u64, k: u64)
    by (bit_vector)
    requires
        k < 64,
    ensures
        (((!x) >> k) & 1 == 1) == !((x >> k) & 1 == 1),
{
}

proof fn lemma_limb_constants(k: u64)
    by (bit_vector)
    requires
        k < 64,
    ensures
        (0u64 >> k) & 1 == 0,
        ((1u64 >> k) & 1 == 1) == (k == 0),
        (0xffff_ffff_ffff_ffffu64 >> k) & 1 == 1,
{
}

/// The bits of the plain AND of two words are the ANDs of their bits.
pub proof fn lemma_and_bits(a: Word, b: Word)
    ensures
        a.and_spec(b).bits() == and_bits(a.bits(), b.bits()),
{
    assert forall|i: int| 0 <= i < 256 implies a.and_spec(b).bit(i) == (a.bit(i) && b.bit(i)) by {
        lemma_limb_and(a.limbs[i / 64], b.limbs[i / 64], (i % 64) as u64);
    }
    assert(a.and_spec(b).bits() =~= and_bits(a.bits(), b.bits()));
}

/// The bits of the plain OR of two words are the ORs of their bits.
pub proof fn lemma_or_bits(a: Word, b: Word)
    ensures
        a.or_spec(b).bits() == or_bits(a.bits(), b.bits()),
{
    assert forall|i: int| 0 <= i < 256 implies a.or_spec(b).bit(i) == (a.bit(i) || b.bit(i)) by {
        lemma_limb_or(a.limbs[i / 64], b.limbs[i / 64], (i % 64) as u64);
    }
    assert(a.or_spec(b).bits() =~= or_bits(a.bits(), b.bits()));
}

/// The bits of the plain XOR of two words are the XORs of their bits.
pub proof fn lemma_xor_bits(a: Word, b: Word)
    ensures
        a.xor_spec(b).bits() == xor_bits(a.bits(), b.bits()),
{
    assert forall|i: int| 0 <= i < 256 implies a.xor_spec(b).bit(i) == (a.bit(i) != b.bit(i)) by {
        lemma_limb_xor(a.limbs[i / 64], b.limbs[i / 64], (i % 64) as u64);
    }
    assert(a.xor_spec(b).bits() =~= xor_bits(a.bits(), b.bits()));
}

/// The bits of the plain complement of a word are the complements of its
/// bits.
pub proof fn lemma_not_bits(a: Word)
    ensures
        a.not_spec().bits() == not_bits(a.bits()),
{
    assert forall|i: int| 0 <= i < 256 implies a.not_spec().bit(i) == !a.bit(i) by {
        lemma_limb_not(a.limbs[i / 64], (i % 64) as u64);
    }
    assert(a.not_spec().bits() =~= not_bits(a.bits()));
}

/// The word 1 has its lowest bit set and no other, and the word 0 has no bit
/// set.
pub proof fn lemma_flag_bits(p: bool)
    ensures
        Word::of_bool(p).bits() == flag_bits(p),
{
    assert forall|i: int| 0 <= i < 256 implies Word::of_bool(p).bit(i) == (i == 0 && p) by {
        lemma_limb_constants((i % 64) as u64);
    }
    assert(Word::of_bool(p).bits() =~= flag_bits(p));
}

/// The word of value 0 has no bit set.
pub proof fn lemma_zero_bits()
    ensures
        Word::all_zeros().bits() == Seq::new(256, |i: int| false),
{
    assert forall|i: int| 0 <= i < 256 implies !Word::all_zeros().bit(i) by {
        lemma_limb_constants((i % 64) as u64);
    }
    assert(Word::all_zeros().bits() =~= Seq::new(256, |i: int| false));
}

/// The word of value 2^256 - 1 has every bit set.
pub proof fn lemma_ones_bits()
    ensures
        Word::all_ones().bits() == Seq::new(256, |i: int| true),
{
    assert forall|i: int| 0 <= i < 256 implies Word::all_ones().bit(i) by {
        lemma_limb_constants((i % 64) as u64);
    }
    assert(Word::all_ones().bits() =~= Seq::new(256, |i: int| true));
}

} // verus!
