use evm_bitwise::bridge::{to_plain, to_secret};
use evm_bitwise::gas::{GasMeter, VERYLOW};
use evm_bitwise::halt::HaltCondition;
use evm_bitwise::secret::SecretWord;
use evm_bitwise::signed::{signed_order, SignedOrder};
use evm_bitwise::stack::ValueStack;
use evm_bitwise::version::{ProtocolVersion, Upgrade};
use evm_bitwise::word::Word;
use ruint::aliases::U256;

fn word(value: U256) -> Word {
    Word::from_limbs(value.into_limbs())
}

fn uint(value: Word) -> U256 {
    U256::from_limbs(value.into_limbs())
}

fn samples() -> Vec<Word> {
    vec![
        Word::zero(),
        Word::from_u64(1),
        Word::from_u64(0x8000_0000_0000_0000),
        Word::from_limbs([0, 1, 0, 0]),
        Word::from_limbs([0x1234567890abcdef, 0x0fedcba987654321, 0xdeadbeefcafef00d, 0x7fffffffffffffff]),
        Word::from_limbs([0, 0, 0, 0x8000_0000_0000_0000]),
        Word::max(),
    ]
}

#[test]
fn round_trip_of_words() {
    for w in samples() {
        assert_eq!(to_plain(&to_secret(&w)), w);
    }
}

#[test]
fn round_trip_of_wires() {
    let mut wires = vec![false; 256];
    wires[0] = true;
    wires[3] = true;
    wires[64] = true;
    wires[200] = true;
    wires[255] = true;
    let secret = SecretWord::from_wires(wires.clone()).unwrap();
    let plain = to_plain(&secret);
    assert_eq!(plain, Word::from_limbs([9, 1, 0, 0x8000_0000_0000_0100]));
    assert_eq!(to_secret(&plain).wires(), &wires);
}

#[test]
fn wires_follow_bit_order() {
    let w = Word::from_limbs([0b101, 0, 1, 0x8000_0000_0000_0000]);
    let secret = to_secret(&w);
    let wires = secret.wires();
    assert_eq!(wires.len(), 256);
    for (i, wire) in wires.iter().enumerate() {
        assert_eq!(*wire, uint(w).bit(i), "wire {}", i);
        assert_eq!(*wire, i == 0 || i == 2 || i == 128 || i == 255, "wire {}", i);
    }
}

#[test]
fn secret_word_needs_256_wires() {
    assert!(SecretWord::from_wires(vec![false; 255]).is_none());
    assert!(SecretWord::from_wires(vec![false; 257]).is_none());
    assert!(SecretWord::from_wires(Vec::new()).is_none());
    assert!(SecretWord::from_wires(vec![true; 256]).is_some());
    assert_eq!(to_plain(&SecretWord::from_wires(vec![true; 256]).unwrap()), Word::max());
}

#[test]
fn circuits_agree_with_plain_operations() {
    for a in samples() {
        for b in samples() {
            let (sa, sb) = (to_secret(&a), to_secret(&b));
            assert_eq!(to_plain(&sa.and(&sb)), word(uint(a) & uint(b)));
            assert_eq!(to_plain(&sa.or(&sb)), word(uint(a) | uint(b)));
            assert_eq!(to_plain(&sa.xor(&sb)), word(uint(a) ^ uint(b)));
            assert_eq!(to_plain(&sa.lt(&sb)), Word::from_bool(uint(a) < uint(b)));
            assert_eq!(to_plain(&sa.gt(&sb)), Word::from_bool(uint(a) > uint(b)));
            assert_eq!(to_plain(&sa.eq(&sb)), Word::from_bool(uint(a) == uint(b)));
        }
        let sa = to_secret(&a);
        assert_eq!(to_plain(&sa.not()), word(!uint(a)));
        for n in [0usize, 1, 63, 64, 100, 255, 256, 257, usize::MAX] {
            assert_eq!(to_plain(&sa.shl(n)), word(uint(a).wrapping_shl(n)));
            assert_eq!(to_plain(&sa.shr(n)), word(uint(a).wrapping_shr(n)));
        }
    }
}

#[test]
fn flag_is_on_the_lowest_wire() {
    assert_eq!(to_plain(&SecretWord::flag(true)), Word::from_u64(1));
    assert_eq!(to_plain(&SecretWord::flag(false)), Word::zero());
    let set = SecretWord::flag(true);
    assert!(set.wires()[0]);
    assert!(set.wires()[1..].iter().all(|w| !*w));
}

#[test]
fn word_constructors() {
    assert_eq!(Word::zero().into_limbs(), [0, 0, 0, 0]);
    assert_eq!(Word::max().into_limbs(), [u64::MAX; 4]);
    assert_eq!(Word::from_u64(7).into_limbs(), [7, 0, 0, 0]);
    assert_eq!(Word::from_u8(0xfe).into_limbs(), [0xfe, 0, 0, 0]);
    assert_eq!(Word::from_bool(true).into_limbs(), [1, 0, 0, 0]);
    assert_eq!(Word::from_bool(false).into_limbs(), [0, 0, 0, 0]);
    assert_eq!(Word::from_limbs([1, 2, 3, 4]).into_limbs(), [1, 2, 3, 4]);
    assert_eq!(uint(Word::max()), U256::MAX);
}

#[test]
fn saturated_count() {
    assert_eq!(Word::zero().as_usize_saturated(), 0);
    assert_eq!(Word::from_u64(255).as_usize_saturated(), 255);
    assert_eq!(Word::from_u64(256).as_usize_saturated(), 256);
    assert_eq!(Word::from_limbs([7, 1, 0, 0]).as_usize_saturated(), usize::MAX);
    assert_eq!(Word::from_limbs([7, 0, 1, 0]).as_usize_saturated(), usize::MAX);
    assert_eq!(Word::from_limbs([7, 0, 0, 1]).as_usize_saturated(), usize::MAX);
    assert_eq!(Word::max().as_usize_saturated(), usize::MAX);
    let fits = usize::try_from(u64::MAX).unwrap_or(usize::MAX);
    assert_eq!(Word::from_u64(u64::MAX).as_usize_saturated(), fits);
}

#[test]
fn unsigned_order_of_words() {
    for a in samples() {
        for b in samples() {
            assert_eq!(a.lt(&b), uint(a) < uint(b));
        }
    }
}

#[test]
fn signed_order_of_words() {
    let min = Word::from_limbs([0, 0, 0, 0x8000_0000_0000_0000]);
    let minus_one = Word::max();
    let one = Word::from_u64(1);
    assert_eq!(signed_order(&min, &Word::zero()), SignedOrder::Less);
    assert_eq!(signed_order(&Word::zero(), &min), SignedOrder::Greater);
    assert_eq!(signed_order(&min, &minus_one), SignedOrder::Less);
    assert_eq!(signed_order(&minus_one, &min), SignedOrder::Greater);
    assert_eq!(signed_order(&minus_one, &one), SignedOrder::Less);
    assert_eq!(signed_order(&one, &minus_one), SignedOrder::Greater);
    assert_eq!(signed_order(&Word::zero(), &one), SignedOrder::Less);
    assert_eq!(signed_order(&minus_one, &minus_one), SignedOrder::Equal);
    assert_eq!(signed_order(&Word::zero(), &Word::zero()), SignedOrder::Equal);
}

#[test]
fn gas_meter_charges() {
    assert_eq!(VERYLOW, 3);
    let mut gas = GasMeter::new(7);
    assert_eq!(gas.remaining(), 7);
    assert_eq!(gas.charge(3), Ok(()));
    assert_eq!(gas.remaining(), 4);
    assert_eq!(gas.charge(5), Err(HaltCondition::OutOfGas));
    assert_eq!(gas.remaining(), 4);
    assert_eq!(gas.charge(4), Ok(()));
    assert_eq!(gas.remaining(), 0);
    assert_eq!(gas.charge(0), Ok(()));
    assert_eq!(gas.charge(1), Err(HaltCondition::OutOfGas));
}

#[test]
fn value_stack_operations() {
    let mut stack = ValueStack::new();
    assert_eq!(stack.len(), 0);
    assert_eq!(stack.top(), Err(HaltCondition::StackUnderflow));
    assert_eq!(stack.pop(), Err(HaltCondition::StackUnderflow));
    assert_eq!(stack.pop_top(), Err(HaltCondition::StackUnderflow));
    assert_eq!(stack.replace_top(Word::zero()), Err(HaltCondition::StackUnderflow));
    assert_eq!(stack.len(), 0);

    stack.push(Word::from_u64(1));
    assert_eq!(stack.pop_top(), Err(HaltCondition::StackUnderflow));
    assert_eq!(stack.len(), 1);
    stack.push(Word::from_u64(2));
    stack.push(Word::from_u64(3));
    assert_eq!(stack.top(), Ok(Word::from_u64(3)));
    assert_eq!(stack.pop_top(), Ok((Word::from_u64(3), Word::from_u64(2))));
    assert_eq!(stack.len(), 2);
    assert_eq!(stack.replace_top(Word::from_u64(9)), Ok(()));
    assert_eq!(stack.pop(), Ok(Word::from_u64(9)));
    assert_eq!(stack.pop(), Ok(Word::from_u64(1)));
    assert_eq!(stack.len(), 0);
}

#[test]
fn protocol_version_flags() {
    let old = ProtocolVersion::new(Upgrade::Byzantium);
    assert!(old.has_flag(Upgrade::Frontier));
    assert!(old.has_flag(Upgrade::Byzantium));
    assert!(!old.has_flag(Upgrade::Constantinople));
    assert!(!old.has_flag(Upgrade::Prague));
    let new = ProtocolVersion::new(Upgrade::Constantinople);
    assert!(new.has_flag(Upgrade::Constantinople));
    assert!(new.has_flag(Upgrade::Byzantium));
    assert!(!new.has_flag(Upgrade::Petersburg));
    assert!(ProtocolVersion::latest().has_flag(Upgrade::Prague));
    assert_eq!(Upgrade::Frontier.position(), 0);
    assert_eq!(Upgrade::Constantinople.position(), 5);
    assert_eq!(Upgrade::Prague.position(), 13);
}

#[test]
fn later_versions_keep_earlier_flags() {
    let order = [
        Upgrade::Frontier,
        Upgrade::Homestead,
        Upgrade::Tangerine,
        Upgrade::SpuriousDragon,
        Upgrade::Byzantium,
        Upgrade::Constantinople,
        Upgrade::Petersburg,
        Upgrade::Istanbul,
        Upgrade::Berlin,
        Upgrade::London,
        Upgrade::Merge,
        Upgrade::Shanghai,
        Upgrade::Cancun,
        Upgrade::Prague,
    ];
    for (i, earlier) in order.iter().enumerate() {
        for later in &order[i..] {
            for flag in order {
                if ProtocolVersion::new(*earlier).has_flag(flag) {
                    assert!(ProtocolVersion::new(*later).has_flag(flag));
                }
            }
        }
    }
}
