use crate::bits::bits_value;
use vstd::prelude::*;

verus! {

/// Weight of the second limb: 2^64.
pub open spec fn limb_base() -> nat {
    0x1_0000_0000_0000_0000
}

/// A plaintext 256-bit unsigned value, kept as four 64-bit limbs with the
/// least significant limb first. Every combination of limbs is a value, so
/// the type has no invariant.
#[derive(Clone, Copy, Debug, PartialEq, Eq)]
pub struct Word {
    pub limbs: [u64; 4],
}

impl View for Word {
    type V = nat;

    /// The number that the four limbs spell in base 2^64.
    open spec fn view(&self) -> nat {
        (self.limbs[0] as nat) + limb_base() * ((self.limbs[1] as nat) + limb_base() * ((
        self.limbs[2] as nat) + limb_base() * (self.limbs[3] as nat)))
    }
}

impl Word {
    /// Bit `i` of the word, bit 0 being the least significant: it sits in
    /// limb `i / 64` at position `i % 64`.
    pub open spec fn bit(self, i: int) -> bool {
        (self.limbs[i / 64] >> ((i % 64) as u64)) & 1 == 1
    }

    /// The 256 bits of the word, least significant first.
    pub open spec fn bits(self) -> Seq<bool> {
        Seq::new(256, |i: int| self.bit(i))
    }

    /// The word whose bits are the 256 bits of `s`, least significant first:
    /// each limb is the number that its 64 bits spell.
    pub open spec fn from_bits(s: Seq<bool>) -> Word {
        Word {
            limbs: [
                bits_value(s.subrange(0, 64)) as u64,
                bits_value(s.subrange(64, 128)) as u64,
                bits_value(s.subrange(128, 192)) as u64,
                bits_value(s.subrange(192, 256)) as u64,
            ],
        }
    }

    /// The word that holds `x` in its lowest limb and nothing above.
    pub open spec fn of_u64(x: u64) -> Word {
        Word { limbs: [x, 0, 0, 0] }
    }

    /// One for `true`, zero for `false`.
    pub open spec fn of_bool(b: bool) -> Word {
        Word::of_u64(if b { 1 } else { 0 })
    }

    /// The word with no bit set.
    pub open spec fn all_zeros() -> Word {
        Word::of_u64(0)
    }

    /// The word with every bit set, 2^256 - 1.
    pub open spec fn all_ones() -> Word {
        Word { limbs: [u64::MAX, u64::MAX, u64::MAX, u64::MAX] }
    }

    /// Plain bitwise AND, limb by limb.
    pub open spec fn and_spec(self, other: Word) -> Word {
        Word {
            limbs: [
                self.limbs[0] & other.limbs[0],
                self.limbs[1] & other.limbs[1],
                self.limbs[2] & other.limbs[2],
                self.limbs[3] & other.limbs[3],
            ],
        }
    }

    /// Plain bitwise OR, limb by limb.
    pub open spec fn or_spec(self, other: Word) -> Word {
        Word {
            limbs: [
                self.limbs[0] | other.limbs[0],
                self.limbs[1] | other.limbs[1],
                self.limbs[2] | other.limbs[2],
                self.limbs[3] | other.limbs[3],
            ],
        }
    }

    /// Plain bitwise XOR, limb by limb.
    pub open spec fn xor_spec(self, other: Word) -> Word {
        Word {
            limbs: [
                self.limbs[0] ^ other.limbs[0],
                self.limbs[1] ^ other.limbs[1],
                self.limbs[2] ^ other.limbs[2],
                self.limbs[3] ^ other.limbs[3],
            ],
        }
    }

    /// Plain bitwise complement, limb by limb.
    pub open spec fn not_spec(self) -> Word {
        Word { limbs: [!self.limbs[0], !self.limbs[1], !self.limbs[2], !self.limbs[3]] }
    }

    /// The word whose limbs are `limbs`, least significant first.
    pub fn from_limbs(limbs: [u64; 4]) -> (w: Word)
        ensures
            w.limbs == limbs,
    {
        Word { limbs }
    }

    /// The limbs of the word, least significant first.
    pub fn into_limbs(self) -> (limbs: [u64; 4])
        ensures
            limbs == self.limbs,
    {
        self.limbs
    }

    /// The word of value `x`.
    pub fn from_u64(x: u64) -> (w: Word)
        ensures
            w == Word::of_u64(x),
            w@ == x,
    {
        Word { limbs: [x, 0, 0, 0] }
    }

    /// The word of value `x`.
    pub fn from_u8(x: u8) -> (w: Word)
        ensures
            w == Word::of_u64(x as u64),
            w@ == x,
    {
        Word::from_u64(x as u64)
    }

    /// The word of value 1 for `true` and 0 for `false`.
    pub fn from_bool(b: bool) -> (w: Word)
        ensures
            w == Word::of_bool(b),
            w@ == (if b { 1nat } else { 0nat }),
    {
        Word::from_u64(if b { 1 } else { 0 })
    }

    /// The word of value 0.
    pub fn zero() -> (w: Word)
        ensures
            w == Word::all_zeros(),
            w@ == 0,
    {
        Word::from_u64(0)
    }

    /// The word of value 2^256 - 1.
    pub fn max() -> (w: Word)
        ensures
            w == Word::all_ones(),
    {
        Word { limbs: [u64::MAX, u64::MAX, u64::MAX, u64::MAX] }
    }

    /// The value as a machine-sized count, with every value that does not
    /// fit replaced by the largest count.
    pub fn as_usize_saturated(&self) -> (n: usize)
        ensures
            self@ <= usize::MAX ==> n == self@,
            self@ > usize::MAX ==> n == usize::MAX,
    {
        if self.limbs[1] == 0 && self.limbs[2] == 0 && self.limbs[3] == 0 {
            if self.limbs[0] > usize::MAX as u64 {
                usize::MAX
            } else {
                self.limbs[0] as usize
            }
        } else {
            usize::MAX
        }
    }

    /// Unsigned order: whether this word's value is below the other's.
    pub fn lt(&self, other: &Word) -> (r: bool)
        ensures
            r == (self@ < other@),
    {
        proof {
            let a = self.limbs;
            let b = other.limbs;
            lemma_digit_order(a[2] as int, a[3] as int, b[2] as int, b[3] as int);
            lemma_digit_order(
                a[1] as int,
                a[2] + limb_base() * a[3],
                b[1] as int,
                b[2] + limb_base() * b[3],
            );
            lemma_digit_order(
                a[0] as int,
                a[1] + limb_base() * (a[2] + limb_base() * a[3]),
                b[0] as int,
                b[1] + limb_base() * (b[2] + limb_base() * b[3]),
            );
        }
        if self.limbs[3] != other.limbs[3] {
            self.limbs[3] < other.limbs[3]
        } else if self.limbs[2] != other.limbs[2] {
            self.limbs[2] < other.limbs[2]
        } else if self.limbs[1] != other.limbs[1] {
            self.limbs[1] < other.limbs[1]
        } else {
            self.limbs[0] < other.limbs[0]
        }
    }
}

/// Two numbers written as a digit below 2^64 and a rest above it are
/// ordered by their rests, and by their digits where the rests agree.
proof fn lemma_digit_order(a_low: int, a_high: int, b_low: int, b_high: int)
    requires
        0 <= a_low < limb_base(),
        0 <= b_low < limb_base(),
    ensures
        (a_low + limb_base() * a_high < b_low + limb_base() * b_high) == (a_high < b_high || (
        a_high == b_high && a_low < b_low)),
        (a_low + limb_base() * a_high == b_low + limb_base() * b_high) == (a_high == b_high
            && a_low == b_low),
{
}

/// Two words of one value are one word.
pub proof fn lemma_view_injective(a: Word, b: Word)
    requires
        a@ == b@,
    ensures
        a == b,
{
    let x = a.limbs;
    let y = b.limbs;
    lemma_digit_order(
        x[0] as int,
        x[1] + limb_base() * (x[2] + limb_base() * x[3]),
        y[0] as int,
        y[1] + limb_base() * (y[2] + limb_base() * y[3]),
    );
    lemma_digit_order(
        x[1] as int,
        x[2] + limb_base() * x[3],
        y[1] as int,
        y[2] + limb_base() * y[3],
    );
    lemma_digit_order(x[2] as int, x[3] as int, y[2] as int, y[3] as int);
    lemma_limbs_injective(a, b);
}

/// Two words with the same four limbs are one word.
pub proof fn lemma_limbs_injective(a: Word, b: Word)
    requires
        a.limbs[0] == b.limbs[0],
        a.limbs[1] == b.limbs[1],
        a.limbs[2] == b.limbs[2],
        a.limbs[3] == b.limbs[3],
    ensures
        a == b,
{
    assert(a.limbs =~= b.limbs);
}

} // verus!
