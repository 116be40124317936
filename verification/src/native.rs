use crate::bits::sar_bits;
use crate::word::Word;
use vstd::arithmetic::power2::pow2;
use vstd::prelude::*;

verus! {

/// Calls `ruint::Uint::is_zero` on the 256-bit integer with the word's limbs.
/// Trusted: the answer is `true` exactly for the value 0.
#[verifier::external_body]
pub(crate) fn is_zero(word: &Word) -> (r: bool)
    ensures
        r == (word@ == 0),
{
    ruint::Uint::<256, 4>::from_limbs(word.limbs).is_zero()
}

/// Calls `ruint::Uint::bit` on the 256-bit integer with the word's limbs.
/// Trusted: the answer is bit `index` of the value, counted from the least
/// significant bit, and `false` for an index of 256 or more.
#[verifier::external_body]
pub(crate) fn bit(word: &Word, index: usize) -> (r: bool)
    ensures
        r == (index < 256 && word.bit(index as int)),
{
    ruint::Uint::<256, 4>::from_limbs(word.limbs).bit(index)
}

/// Calls `ruint::Uint::byte` on the 256-bit integer with the word's limbs.
/// Trusted: the answer is byte `index` of the value in little-endian order,
/// byte 0 being the least significant one. The call panics for an index of
/// 32 or more, which the precondition leaves out.
#[verifier::external_body]
pub(crate) fn byte(word: &Word, index: usize) -> (r: u8)
    requires
        index < 32,
    ensures
        r == (word@ / pow2((8 * index) as nat)) % 256,
{
    ruint::Uint::<256, 4>::from_limbs(word.limbs).byte(index)
}

/// Calls `ruint::Uint::arithmetic_shr` on the 256-bit integer with the word's
/// limbs. Trusted: for a shift below 256 the result is the value moved
/// `shift` places towards the least significant bit, with copies of bit 255
/// in the places that the move vacates.
#[verifier::external_body]
pub(crate) fn arithmetic_shr(word: &Word, shift: usize) -> (r: Word)
    requires
        shift < 256,
    ensures
        r.bits() == sar_bits(word.bits(), shift as nat),
{
    Word { limbs: ruint::Uint::<256, 4>::from_limbs(word.limbs).arithmetic_shr(shift).into_limbs() }
}

} // verus!
