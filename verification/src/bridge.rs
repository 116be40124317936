use crate::bits::WIDTH;
use crate::bits::bits_value;
use crate::bits::lemma_bits_value_bound;
use crate::secret::SecretWord;
use crate::word::Word;
use crate::word_bits::lemma_from_bits;
use vstd::arithmetic::power2::lemma2_to64_rest;
use vstd::arithmetic::power2::lemma_pow2_strictly_increases;
use vstd::arithmetic::power2::lemma_pow2_unfold;
use vstd::bits::lemma_u64_shl_is_mul;
use vstd::prelude::*;

verus! {

/// Lifts a word into circuit form: wire `i` of the result carries bit `i` of
/// the word. This and [`to_plain`] are the only crossings between the two
/// forms.
pub fn to_secret(word: &Word) -> (secret: SecretWord)
    ensures
        secret@ == word.bits(),
{
    let mut wires: Vec<bool> = Vec::new();
    let mut i: usize = 0;
    while i < WIDTH
        invariant
            i <= 256,
            wires@.len() == i,
            forall|j: int| 0 <= j < i ==> wires@[j] == word.bit(j),
        decreases 256 - i,
    {
        let limb = word.limbs[i / 64];
        let place = (i % 64) as u64;
        wires.push((limb >> place) & 1 == 1);
        i = i + 1;
    }
    assert(wires@ =~= word.bits());
    SecretWord::from_wires(wires).unwrap()
}

/// The limb that the 64 wires from wire `64 * quarter` on spell.
fn limb_of_wires(wires: &Vec<bool>, quarter: usize) -> (limb: u64)
    requires
        wires@.len() == 256,
        quarter < 4,
    ensures
        limb == bits_value(wires@.subrange(64 * quarter, 64 * quarter + 64)),
{
    let start = 64 * quarter;
    let mut limb: u64 = 0;
    let mut k: usize = 0;
    while k < 64
        invariant
            k <= 64,
            start == 64 * quarter,
            quarter < 4,
            wires@.len() == 256,
            limb == bits_value(wires@.subrange(start as int, start + k)),
        decreases 64 - k,
    {
        proof {
            let row = wires@.subrange(start as int, start + k + 1);
            assert(row.drop_last() =~= wires@.subrange(start as int, start + k));
            lemma_bits_value_bound(row.drop_last());
            lemma_pow2_unfold((k + 1) as nat);
            lemma2_to64_rest();
            if k + 1 < 64 {
                lemma_pow2_strictly_increases((k + 1) as nat, 64);
            }
            lemma_u64_shl_is_mul(1, k as u64);
        }
        if wires[start + k] {
            limb = limb + (1u64 << (k as u64));
        }
        k = k + 1;
    }
    limb
}

/// Collapses a value in circuit form into a word: bit `i` of the result is
/// the value on wire `i`. This and [`to_secret`] are the only crossings
/// between the two forms.
pub fn to_plain(secret: &SecretWord) -> (word: Word)
    ensures
        word == Word::from_bits(secret@),
        word.bits() == secret@,
        word@ == bits_value(secret@),
{
    let wires = secret.wires();
    let l0 = limb_of_wires(wires, 0);
    let l1 = limb_of_wires(wires, 1);
    let l2 = limb_of_wires(wires, 2);
    let l3 = limb_of_wires(wires, 3);
    let word = Word { limbs: [l0, l1, l2, l3] };
    proof {
        assert(word.limbs =~= Word::from_bits(secret@).limbs);
        lemma_from_bits(secret@);
    }
    word
}

} // verus!
