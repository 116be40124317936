use crate::native;
use crate::word::Word;
use vstd::prelude::*;

verus! {

/// 2^255: the least value whose bit 255 is set.
pub open spec fn sign_threshold() -> nat {
    0x8000_0000_0000_0000_0000_0000_0000_0000_0000_0000_0000_0000_0000_0000_0000_0000nat
}

/// 2^256: the number of values of a word.
pub open spec fn modulus() -> nat {
    0x1_0000_0000_0000_0000_0000_0000_0000_0000_0000_0000_0000_0000_0000_0000_0000_0000nat
}

/// The word read as a 256-bit two's-complement integer: values from 2^255
/// on stand for the negative numbers `value - 2^256`.
pub open spec fn signed_value(word: Word) -> int {
    if word@ >= sign_threshold() {
        word@ - modulus()
    } else {
        word@ as int
    }
}

/// How one signed integer stands to another.
#[derive(Clone, Copy, Debug, PartialEq, Eq, Structural)]
pub enum SignedOrder {
    Less,
    Equal,
    Greater,
}

/// The order of two integers.
pub open spec fn order_of(x: int, y: int) -> SignedOrder {
    if x < y {
        SignedOrder::Less
    } else if x == y {
        SignedOrder::Equal
    } else {
        SignedOrder::Greater
    }
}

/// Bit 255 of a word is set exactly when its value is 2^255 or more, that
/// is, when the word stands for a negative number.
pub proof fn lemma_sign_bit(word: Word)
    ensures
        word.bit(255) == (word@ >= sign_threshold()),
        word.bit(255) == (signed_value(word) < 0),
{
    let top = word.limbs[3];
    assert(((top >> 63) & 1 == 1) == (top >= 0x8000_0000_0000_0000)) by (bit_vector);
}

/// Three-way order of two words read as two's-complement integers. The sign
/// bits decide where they differ: the negative number is the smaller one.
/// Where they agree, the unsigned order of the two bit patterns is the
/// signed order, for two negative numbers as for two others.
pub fn signed_order(first: &Word, second: &Word) -> (order: SignedOrder)
    ensures
        order == order_of(signed_value(*first), signed_value(*second)),
{
    let first_negative = native::bit(first, 255);
    let second_negative = native::bit(second, 255);
    proof {
        lemma_sign_bit(*first);
        lemma_sign_bit(*second);
    }
    if first_negative != second_negative {
        if first_negative {
            SignedOrder::Less
        } else {
            SignedOrder::Greater
        }
    } else if first.lt(second) {
        SignedOrder::Less
    } else if second.lt(first) {
        SignedOrder::Greater
    } else {
        SignedOrder::Equal
    }
}

} // verus!
