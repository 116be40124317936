use vstd::arithmetic::div_mod::lemma_breakdown;
use vstd::arithmetic::div_mod::lemma_small_mod;
use vstd::arithmetic::power2::lemma2_to64;
use vstd::arithmetic::power2::lemma2_to64_rest;
use vstd::arithmetic::power2::lemma_pow2_adds;
use vstd::arithmetic::power2::lemma_pow2_pos;
use vstd::arithmetic::power2::lemma_pow2_unfold;
use vstd::arithmetic::power2::pow2;
use vstd::bits::lemma_u64_shr_is_div;
use vstd::prelude::*;

verus! {

/// Number of bits of a word, which is the number of wires of a secret word.
pub const WIDTH: usize = 256;

/// The number that a sequence of bits spells in binary, least significant
/// bit first.
pub open spec fn bits_value(s: Seq<bool>) -> nat
    decreases s.len(),
{
    if s.len() == 0 {
        0
    } else {
        bits_value(s.drop_last()) + if s.last() {
            pow2((s.len() - 1) as nat)
        } else {
            0
        }
    }
}

/// The 64 bits of a limb, least significant first.
pub open spec fn limb_bits(x: u64) -> Seq<bool> {
    Seq::new(64, |k: int| (x >> (k as u64)) & 1 == 1)
}

/// Bit by bit AND of two rows of 256 wires.
pub open spec fn and_bits(a: Seq<bool>, b: Seq<bool>) -> Seq<bool> {
    Seq::new(256, |i: int| a[i] && b[i])
}

/// Bit by bit OR of two rows of 256 wires.
pub open spec fn or_bits(a: Seq<bool>, b: Seq<bool>) -> Seq<bool> {
    Seq::new(256, |i: int| a[i] || b[i])
}

/// Bit by bit XOR of two rows of 256 wires.
pub open spec fn xor_bits(a: Seq<bool>, b: Seq<bool>) -> Seq<bool> {
    Seq::new(256, |i: int| a[i] != b[i])
}

/// Bit by bit complement of a row of 256 wires.
pub open spec fn not_bits(a: Seq<bool>) -> Seq<bool> {
    Seq::new(256, |i: int| !a[i])
}

/// Logical shift towards the most significant end by `n` places: bit `i` of
/// the result is bit `i - n` of `a`, and the `n` lowest bits are clear.
pub open spec fn shl_bits(a: Seq<bool>, n: nat) -> Seq<bool> {
    Seq::new(256, |i: int| i >= n && a[i - n])
}

/// Logical shift towards the least significant end by `n` places: bit `i` of
/// the result is bit `i + n` of `a`, and the `n` highest bits are clear.
pub open spec fn shr_bits(a: Seq<bool>, n: nat) -> Seq<bool> {
    Seq::new(256, |i: int| i + n < 256 && a[i + n])
}

/// Sign-extending shift towards the least significant end by `n` places: bit
/// `i` of the result is bit `i + n` of `a`, and the `n` highest bits repeat
/// bit 255 of `a`.
pub open spec fn sar_bits(a: Seq<bool>, n: nat) -> Seq<bool> {
    Seq::new(
        256,
        |i: int|
            if i + n < 256 {
                a[i + n]
            } else {
                a[255]
            },
    )
}

/// A truth value on 256 wires: the lowest wire carries it, the others are
/// clear.
pub open spec fn flag_bits(p: bool) -> Seq<bool> {
    Seq::new(256, |i: int| i == 0 && p)
}

/// The powers of two at the limb boundaries and at the sign bit.
pub proof fn lemma_pow2_limbs()
    ensures
        pow2(64) == 0x1_0000_0000_0000_0000nat,
        pow2(128) == 0x1_0000_0000_0000_0000_0000_0000_0000_0000nat,
        pow2(192) == 0x1_0000_0000_0000_0000_0000_0000_0000_0000_0000_0000_0000_0000nat,
        pow2(255)
            == 0x8000_0000_0000_0000_0000_0000_0000_0000_0000_0000_0000_0000_0000_0000_0000_0000nat,
        pow2(256)
            == 0x1_0000_0000_0000_0000_0000_0000_0000_0000_0000_0000_0000_0000_0000_0000_0000_0000nat,
{
    lemma2_to64_rest();
    lemma_pow2_adds(64, 64);
    lemma_pow2_adds(128, 64);
    lemma_pow2_adds(192, 63);
    lemma_pow2_adds(192, 64);
}

/// A row of `n` bits spells a number below 2^n.
pub proof fn lemma_bits_value_bound(s: Seq<bool>)
    ensures
        bits_value(s) < pow2(s.len()),
    decreases s.len(),
{
    if s.len() == 0 {
        lemma2_to64();
    } else {
        lemma_bits_value_bound(s.drop_last());
        lemma_pow2_unfold(s.len());
    }
}

/// The value of two rows laid end to end: the second row weighs 2^n, where
/// `n` is the length of the first.
pub proof fn lemma_bits_value_concat(s: Seq<bool>, t: Seq<bool>)
    ensures
        bits_value(s + t) == bits_value(s) + pow2(s.len()) * bits_value(t),
    decreases t.len(),
{
    if t.len() == 0 {
        assert(s + t =~= s);
        assert(pow2(s.len()) * 0 == 0);
    } else {
        let u = t.drop_last();
        assert((s + t).drop_last() =~= s + u);
        lemma_bits_value_concat(s, u);
        let n = s.len();
        let m = u.len();
        lemma_pow2_adds(n, m);
        let top: nat = if t.last() {
            pow2(m)
        } else {
            0
        };
        assert(pow2(n) * (bits_value(u) + top) == pow2(n) * bits_value(u) + pow2(n) * top)
            by (nonlinear_arith);
    }
}

/// A row cut in two at place `n`: the lower part is below 2^n, and the
/// upper part weighs 2^n.
pub proof fn lemma_bits_value_split(s: Seq<bool>, n: int)
    requires
        0 <= n <= s.len(),
    ensures
        bits_value(s) == bits_value(s.take(n)) + pow2(n as nat) * bits_value(s.skip(n)),
        bits_value(s.take(n)) < pow2(n as nat),
{
    assert(s =~= s.take(n) + s.skip(n));
    lemma_bits_value_concat(s.take(n), s.skip(n));
    lemma_bits_value_bound(s.take(n));
}

/// A row of clear bits spells 0.
pub proof fn lemma_clear_row_value(n: nat)
    ensures
        bits_value(Seq::new(n, |i: int| false)) == 0,
    decreases n,
{
    if n > 0 {
        assert(Seq::new(n, |i: int| false).drop_last() =~= Seq::new(
            (n - 1) as nat,
            |i: int| false,
        ));
        lemma_clear_row_value((n - 1) as nat);
    }
}

/// A row of `n` set bits spells 2^n - 1.
pub proof fn lemma_set_row_value(n: nat)
    ensures
        bits_value(Seq::new(n, |i: int| true)) == pow2(n) - 1,
    decreases n,
{
    if n == 0 {
        lemma2_to64();
    } else {
        assert(Seq::new(n, |i: int| true).drop_last() =~= Seq::new((n - 1) as nat, |i: int| true));
        lemma_set_row_value((n - 1) as nat);
        lemma_pow2_unfold(n);
    }
}

/// Two rows of one length that spell one number are one row.
pub proof fn lemma_bits_value_injective(s: Seq<bool>, t: Seq<bool>)
    requires
        s.len() == t.len(),
        bits_value(s) == bits_value(t),
    ensures
        s == t,
    decreases s.len(),
{
    if s.len() == 0 {
        assert(s =~= t);
    } else {
        lemma_bits_value_bound(s.drop_last());
        lemma_bits_value_bound(t.drop_last());
        lemma_bits_value_injective(s.drop_last(), t.drop_last());
        assert(s =~= s.drop_last().push(s.last()));
        assert(t =~= t.drop_last().push(t.last()));
    }
}

/// The lowest bit of a limb is set exactly when the limb is odd.
proof fn lemma_low_bit_is_parity(y: u64)
    ensures
        (y & 1 == 1) == (y % 2 == 1),
{
    assert((y & 1 == 1) == (y % 2 == 1)) by (bit_vector);
}

/// The `n` lowest bits of a limb spell the limb modulo 2^n.
proof fn lemma_limb_prefix_value(x: u64, n: nat)
    requires
        n <= 64,
    ensures
        bits_value(limb_bits(x).take(n as int)) == (x as nat) % pow2(n),
    decreases n,
{
    let s = limb_bits(x).take(n as int);
    if n == 0 {
        lemma2_to64();
    } else {
        let k = (n - 1) as nat;
        assert(s.drop_last() =~= limb_bits(x).take(k as int));
        lemma_limb_prefix_value(x, k);
        lemma_pow2_pos(k);
        lemma_pow2_unfold(n);
        lemma_breakdown(x as int, pow2(k) as int, 2);
        lemma_u64_shr_is_div(x, k as u64);
        lemma_low_bit_is_parity(x >> (k as u64));
        assert(s.last() == ((x >> (k as u64)) & 1 == 1));
        assert(pow2(k) * 2 == pow2(n));
        let d = (x as int / pow2(k) as int) % 2;
        assert(d == 0 || d == 1);
        assert(pow2(k) as int * d == (if s.last() {
            pow2(k) as int
        } else {
            0
        })) by (nonlinear_arith)
            requires
                d == 0 || d == 1,
                s.last() == (d == 1),
        ;
    }
}

/// The 64 bits of a limb spell the limb.
pub proof fn lemma_limb_bits_value(x: u64)
    ensures
        bits_value(limb_bits(x)) == x,
{
    lemma_limb_prefix_value(x, 64);
    assert(limb_bits(x).take(64) =~= limb_bits(x));
    lemma2_to64_rest();
    lemma_small_mod(x as nat, pow2(64));
}

/// A row of 64 bits is the row of bits of the limb that it spells.
pub proof fn lemma_limb_bits_of_value(t: Seq<bool>)
    requires
        t.len() == 64,
    ensures
        bits_value(t) <= u64::MAX,
        limb_bits(bits_value(t) as u64) == t,
{
    lemma_bits_value_bound(t);
    lemma2_to64_rest();
    let x = bits_value(t) as u64;
    lemma_limb_bits_value(x);
    lemma_bits_value_injective(limb_bits(x), t);
}

} // verus!
