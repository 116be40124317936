use crate::bits::WIDTH;
use crate::bits::and_bits;
use crate::bits::bits_value;
use crate::bits::flag_bits;
use crate::bits::lemma_bits_value_bound;
use crate::bits::lemma_bits_value_injective;
use crate::bits::not_bits;
use crate::bits::or_bits;
use crate::bits::shl_bits;
use crate::bits::shr_bits;
use crate::bits::xor_bits;
use vstd::arithmetic::power2::pow2;
use vstd::prelude::*;

verus! {

/// A 256-bit value in circuit form: one boolean wire for each bit, the wire
/// of the least significant bit first. Values of this type exist only while
/// one instruction runs; they are made from a word and turned back into one
/// at the bridge.
///
/// The operations of this type are the primitive circuits of the layer:
/// AND, OR, XOR, NOT, equality, the two unsigned orders and the two logical
/// shifts. Here each one is evaluated directly on the values of the wires,
/// and its contract fixes the value on every wire of the result. An engine
/// that evaluates the same circuits without seeing the values takes the
/// place of these operations and owes the same contracts.
pub struct SecretWord {
    wires: Vec<bool>,
}

impl View for SecretWord {
    type V = Seq<bool>;

    /// The values on the 256 wires.
    closed spec fn view(&self) -> Seq<bool> {
        self.wires@
    }
}

impl SecretWord {
    #[verifier::type_invariant]
    spec fn well_formed(&self) -> bool {
        self.wires@.len() == 256
    }

    /// The secret word with the given values on its wires, or nothing where
    /// there are not exactly 256 of them.
    pub fn from_wires(wires: Vec<bool>) -> (r: Option<SecretWord>)
        ensures
            wires@.len() == 256 ==> r.is_some() && r.unwrap()@ == wires@,
            wires@.len() != 256 ==> r.is_none(),
    {
        if wires.len() == WIDTH {
            Some(SecretWord { wires })
        } else {
            None
        }
    }

    /// The values on the 256 wires, the least significant first.
    pub fn wires(&self) -> (wires: &Vec<bool>)
        ensures
            wires@ == self@,
            wires@.len() == 256,
    {
        proof {
            use_type_invariant(self);
        }
        &self.wires
    }

    /// A truth value in circuit form: it is on the lowest wire, and the other
    /// wires are clear.
    pub fn flag(p: bool) -> (r: SecretWord)
        ensures
            r@ == flag_bits(p),
    {
        let mut wires: Vec<bool> = Vec::new();
        let mut i: usize = 0;
        while i < WIDTH
            invariant
                i <= 256,
                wires@.len() == i,
                forall|j: int| 0 <= j < i ==> wires@[j] == (j == 0 && p),
            decreases 256 - i,
        {
            wires.push(i == 0 && p);
            i = i + 1;
        }
        assert(wires@ =~= flag_bits(p));
        SecretWord { wires }
    }

    /// AND on every pair of wires.
    pub fn and(&self, other: &SecretWord) -> (r: SecretWord)
        ensures
            r@ == and_bits(self@, other@),
    {
        proof {
            use_type_invariant(self);
            use_type_invariant(other);
        }
        let mut wires: Vec<bool> = Vec::new();
        let mut i: usize = 0;
        while i < WIDTH
            invariant
                i <= 256,
                self.wires@.len() == 256,
                other.wires@.len() == 256,
                wires@.len() == i,
                forall|j: int| 0 <= j < i ==> wires@[j] == (self.wires@[j] && other.wires@[j]),
            decreases 256 - i,
        {
            wires.push(self.wires[i] && other.wires[i]);
            i = i + 1;
        }
        assert(wires@ =~= and_bits(self@, other@));
        SecretWord { wires }
    }

    /// OR on every pair of wires.
    pub fn or(&self, other: &SecretWord) -> (r: SecretWord)
        ensures
            r@ == or_bits(self@, other@),
    {
        proof {
            use_type_invariant(self);
            use_type_invariant(other);
        }
        let mut wires: Vec<bool> = Vec::new();
        let mut i: usize = 0;
        while i < WIDTH
            invariant
                i <= 256,
                self.wires@.len() == 256,
                other.wires@.len() == 256,
                wires@.len() == i,
                forall|j: int| 0 <= j < i ==> wires@[j] == (self.wires@[j] || other.wires@[j]),
            decreases 256 - i,
        {
            wires.push(self.wires[i] || other.wires[i]);
            i = i + 1;
        }
        assert(wires@ =~= or_bits(self@, other@));
        SecretWord { wires }
    }

    /// XOR on every pair of wires.
    pub fn xor(&self, other: &SecretWord) -> (r: SecretWord)
        ensures
            r@ == xor_bits(self@, other@),
    {
        proof {
            use_type_invariant(self);
            use_type_invariant(other);
        }
        let mut wires: Vec<bool> = Vec::new();
        let mut i: usize = 0;
        while i < WIDTH
            invariant
                i <= 256,
                self.wires@.len() == 256,
                other.wires@.len() == 256,
                wires@.len() == i,
                forall|j: int| 0 <= j < i ==> wires@[j] == (self.wires@[j] != other.wires@[j]),
            decreases 256 - i,
        {
            wires.push(self.wires[i] != other.wires[i]);
            i = i + 1;
        }
        assert(wires@ =~= xor_bits(self@, other@));
        SecretWord { wires }
    }

    /// NOT on every wire.
    pub fn not(&self) -> (r: SecretWord)
        ensures
            r@ == not_bits(self@),
    {
        proof {
            use_type_invariant(self);
        }
        let mut wires: Vec<bool> = Vec::new();
        let mut i: usize = 0;
        while i < WIDTH
            invariant
                i <= 256,
                self.wires@.len() == 256,
                wires@.len() == i,
                forall|j: int| 0 <= j < i ==> wires@[j] == !self.wires@[j],
            decreases 256 - i,
        {
            wires.push(!self.wires[i]);
            i = i + 1;
        }
        assert(wires@ =~= not_bits(self@));
        SecretWord { wires }
    }

    /// Logical shift by `n` places towards the most significant wire. The
    /// wires that the shift vacates are clear.
    pub fn shl(&self, n: usize) -> (r: SecretWord)
        ensures
            r@ == shl_bits(self@, n as nat),
    {
        proof {
            use_type_invariant(self);
        }
        let mut wires: Vec<bool> = Vec::new();
        let mut i: usize = 0;
        while i < WIDTH
            invariant
                i <= 256,
                self.wires@.len() == 256,
                wires@.len() == i,
                forall|j: int| 0 <= j < i ==> wires@[j] == (j >= n && self.wires@[j - n]),
            decreases 256 - i,
        {
            let moved = if i >= n {
                self.wires[i - n]
            } else {
                false
            };
            wires.push(moved);
            i = i + 1;
        }
        assert(wires@ =~= shl_bits(self@, n as nat));
        SecretWord { wires }
    }

    /// Logical shift by `n` places towards the least significant wire. The
    /// wires that the shift vacates are clear.
    pub fn shr(&self, n: usize) -> (r: SecretWord)
        ensures
            r@ == shr_bits(self@, n as nat),
    {
        proof {
            use_type_invariant(self);
        }
        let mut wires: Vec<bool> = Vec::new();
        let mut i: usize = 0;
        while i < WIDTH
            invariant
                i <= 256,
                self.wires@.len() == 256,
                wires@.len() == i,
                forall|j: int| 0 <= j < i ==> wires@[j] == (j + n < 256 && self.wires@[j + n]),
            decreases 256 - i,
        {
            let moved = if n < WIDTH - i {
                self.wires[i + n]
            } else {
                false
            };
            wires.push(moved);
            i = i + 1;
        }
        assert(wires@ =~= shr_bits(self@, n as nat));
        SecretWord { wires }
    }

    /// Equality of the two values. The comparison runs over all 256 pairs of
    /// wires.
    pub fn eq(&self, other: &SecretWord) -> (r: SecretWord)
        ensures
            r@ == flag_bits(bits_value(self@) == bits_value(other@)),
    {
        proof {
            use_type_invariant(self);
            use_type_invariant(other);
        }
        let mut same = true;
        let mut i: usize = 0;
        while i < WIDTH
            invariant
                i <= 256,
                self.wires@.len() == 256,
                other.wires@.len() == 256,
                same == (forall|j: int| 0 <= j < i ==> self.wires@[j] == other.wires@[j]),
            decreases 256 - i,
        {
            same = same && (self.wires[i] == other.wires[i]);
            i = i + 1;
        }
        proof {
            if same {
                assert(self@ =~= other@);
            } else if bits_value(self@) == bits_value(other@) {
                lemma_bits_value_injective(self@, other@);
            }
        }
        SecretWord::flag(same)
    }

    /// Unsigned order: whether this value is below the other. The comparison
    /// ripples from the least significant pair of wires to the most
    /// significant one, which decides last.
    pub fn lt(&self, other: &SecretWord) -> (r: SecretWord)
        ensures
            r@ == flag_bits(bits_value(self@) < bits_value(other@)),
    {
        proof {
            use_type_invariant(self);
            use_type_invariant(other);
        }
        let mut below = false;
        let mut i: usize = 0;
        while i < WIDTH
            invariant
                i <= 256,
                self.wires@.len() == 256,
                other.wires@.len() == 256,
                below == (bits_value(self.wires@.take(i as int)) < bits_value(
                    other.wires@.take(i as int),
                )),
            decreases 256 - i,
        {
            let x = self.wires[i];
            let y = other.wires[i];
            proof {
                lemma_ripple_step(self.wires@, i as int);
                lemma_ripple_step(other.wires@, i as int);
            }
            below = (!x && y) || (x == y && below);
            i = i + 1;
        }
        assert(self.wires@.take(256) =~= self.wires@);
        assert(other.wires@.take(256) =~= other.wires@);
        SecretWord::flag(below)
    }

    /// Unsigned order: whether this value is above the other. The comparison
    /// ripples from the least significant pair of wires to the most
    /// significant one, which decides last.
    pub fn gt(&self, other: &SecretWord) -> (r: SecretWord)
        ensures
            r@ == flag_bits(bits_value(self@) > bits_value(other@)),
    {
        proof {
            use_type_invariant(self);
            use_type_invariant(other);
        }
        let mut above = false;
        let mut i: usize = 0;
        while i < WIDTH
            invariant
                i <= 256,
                self.wires@.len() == 256,
                other.wires@.len() == 256,
                above == (bits_value(self.wires@.take(i as int)) > bits_value(
                    other.wires@.take(i as int),
                )),
            decreases 256 - i,
        {
            let x = self.wires[i];
            let y = other.wires[i];
            proof {
                lemma_ripple_step(self.wires@, i as int);
                lemma_ripple_step(other.wires@, i as int);
            }
            above = (x && !y) || (x == y && above);
            i = i + 1;
        }
        assert(self.wires@.take(256) =~= self.wires@);
        assert(other.wires@.take(256) =~= other.wires@);
        SecretWord::flag(above)
    }
}

/// One more bit on top of the `i` lowest bits of a row adds its weight, 2^i,
/// to a number that is smaller than that weight.
proof fn lemma_ripple_step(s: Seq<bool>, i: int)
    requires
        0 <= i < s.len(),
    ensures
        bits_value(s.take(i)) < pow2(i as nat),
        bits_value(s.take(i + 1)) == bits_value(s.take(i)) + (if s[i] {
            pow2(i as nat)
        } else {
            0
        }),
{
    lemma_bits_value_bound(s.take(i));
    assert(s.take(i + 1).drop_last() =~= s.take(i));
}

} // verus!
