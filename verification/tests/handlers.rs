use evm_bitwise::bitwise::{bitand, bitor, bitxor, eq, gt, iszero, lt, not, sar, sgt, shl, shr, slt};
use evm_bitwise::gas::{GasMeter, VERYLOW};
use evm_bitwise::halt::HaltCondition;
use evm_bitwise::stack::ValueStack;
use evm_bitwise::version::{ProtocolVersion, Upgrade};
use evm_bitwise::word::Word;
use ruint::aliases::U256;

type Handler = fn(&mut ValueStack, &mut GasMeter, ProtocolVersion) -> Result<(), HaltCondition>;

fn word(value: U256) -> Word {
    Word::from_limbs(value.into_limbs())
}

fn uint(value: Word) -> U256 {
    U256::from_limbs(value.into_limbs())
}

fn min_i256() -> Word {
    Word::from_limbs([0, 0, 0, 0x8000_0000_0000_0000])
}

fn minus_one() -> Word {
    Word::max()
}

fn samples() -> Vec<Word> {
    vec![
        Word::zero(),
        Word::from_u64(1),
        Word::from_u64(2),
        Word::from_u64(0xff),
        Word::from_u64(u64::MAX),
        Word::from_limbs([0, 1, 0, 0]),
        Word::from_limbs([u64::MAX, 0, 0, 1]),
        Word::from_limbs([0x1234567890abcdef, 0x0fedcba987654321, 0xdeadbeefcafef00d, 0x7fffffffffffffff]),
        Word::from_limbs([0xaaaaaaaaaaaaaaaa, 0x5555555555555555, 0xaaaaaaaaaaaaaaaa, 0x5555555555555555]),
        min_i256(),
        Word::from_limbs([1, 0, 0, 0x8000_0000_0000_0000]),
        Word::from_limbs([u64::MAX, u64::MAX, u64::MAX, 0x7fff_ffff_ffff_ffff]),
        Word::max(),
    ]
}

/// Runs a handler of two operands with `op1` on top of `op2`.
fn binary(handler: Handler, op1: Word, op2: Word) -> Word {
    let mut stack = ValueStack::new();
    let mut gas = GasMeter::new(10);
    stack.push(Word::from_u64(0xdead));
    stack.push(op2);
    stack.push(op1);
    assert_eq!(handler(&mut stack, &mut gas, ProtocolVersion::latest()), Ok(()));
    assert_eq!(gas.remaining(), 10 - VERYLOW);
    assert_eq!(stack.len(), 2);
    let result = stack.pop().unwrap();
    assert_eq!(stack.pop(), Ok(Word::from_u64(0xdead)));
    result
}

/// Runs a handler of one operand.
fn unary(handler: Handler, op1: Word) -> Word {
    let mut stack = ValueStack::new();
    let mut gas = GasMeter::new(10);
    stack.push(Word::from_u64(0xdead));
    stack.push(op1);
    assert_eq!(handler(&mut stack, &mut gas, ProtocolVersion::latest()), Ok(()));
    assert_eq!(gas.remaining(), 10 - VERYLOW);
    assert_eq!(stack.len(), 2);
    let result = stack.pop().unwrap();
    assert_eq!(stack.pop(), Ok(Word::from_u64(0xdead)));
    result
}

fn flag(b: bool) -> Word {
    Word::from_u64(if b { 1 } else { 0 })
}

#[test]
fn bitwise_handlers_agree_with_plain_operations() {
    for a in samples() {
        for b in samples() {
            assert_eq!(binary(bitand, a, b), word(uint(a) & uint(b)));
            assert_eq!(binary(bitor, a, b), word(uint(a) | uint(b)));
            assert_eq!(binary(bitxor, a, b), word(uint(a) ^ uint(b)));
        }
        assert_eq!(unary(not, a), word(!uint(a)));
    }
}

#[test]
fn bitwise_exact_values() {
    let a = Word::from_limbs([0b1100, 0xff00, 0, u64::MAX]);
    let b = Word::from_limbs([0b1010, 0x0ff0, 7, 0]);
    assert_eq!(binary(bitand, a, b), Word::from_limbs([0b1000, 0x0f00, 0, 0]));
    assert_eq!(binary(bitor, a, b), Word::from_limbs([0b1110, 0xfff0, 7, u64::MAX]));
    assert_eq!(binary(bitxor, a, b), Word::from_limbs([0b0110, 0xf0f0, 7, u64::MAX]));
    assert_eq!(
        unary(not, a),
        Word::from_limbs([!0b1100, !0xff00, u64::MAX, 0])
    );
    assert_eq!(unary(not, Word::zero()), Word::max());
}

#[test]
fn not_is_involutive() {
    for a in samples() {
        assert_eq!(unary(not, unary(not, a)), a);
    }
}

#[test]
fn unsigned_comparisons() {
    for a in samples() {
        for b in samples() {
            assert_eq!(binary(lt, a, b), flag(uint(a) < uint(b)));
            assert_eq!(binary(gt, a, b), flag(uint(a) > uint(b)));
            assert_eq!(binary(eq, a, b), flag(uint(a) == uint(b)));
        }
    }
}

#[test]
fn comparison_operand_order() {
    // The top of the stack is the left operand.
    assert_eq!(binary(lt, Word::from_u64(1), Word::from_u64(2)), Word::from_u64(1));
    assert_eq!(binary(lt, Word::from_u64(2), Word::from_u64(1)), Word::zero());
    assert_eq!(binary(gt, Word::from_u64(2), Word::from_u64(1)), Word::from_u64(1));
    assert_eq!(binary(gt, Word::from_u64(1), Word::from_u64(2)), Word::zero());
    // Limbs above the lowest decide before it.
    let high = Word::from_limbs([0, 0, 0, 1]);
    let low = Word::from_limbs([u64::MAX, u64::MAX, u64::MAX, 0]);
    assert_eq!(binary(lt, low, high), Word::from_u64(1));
    assert_eq!(binary(gt, low, high), Word::zero());
}

#[test]
fn comparisons_on_equal_operands() {
    for a in samples() {
        assert_eq!(binary(lt, a, a), Word::zero());
        assert_eq!(binary(gt, a, a), Word::zero());
        assert_eq!(binary(eq, a, a), Word::from_u64(1));
    }
    assert_eq!(binary(eq, Word::zero(), Word::zero()), Word::from_u64(1));
}

#[test]
fn comparison_trichotomy() {
    for a in samples() {
        for b in samples() {
            let ones = [binary(lt, a, b), binary(eq, a, b), binary(gt, a, b)];
            let set = ones.iter().filter(|w| **w == Word::from_u64(1)).count();
            let clear = ones.iter().filter(|w| **w == Word::zero()).count();
            assert_eq!(set, 1);
            assert_eq!(clear, 2);
        }
    }
}

#[test]
fn signed_comparison_sanity() {
    assert_eq!(binary(slt, min_i256(), Word::zero()), Word::from_u64(1));
    assert_eq!(binary(sgt, Word::zero(), min_i256()), Word::from_u64(1));
    assert_eq!(binary(sgt, min_i256(), Word::zero()), Word::zero());
    assert_eq!(binary(slt, Word::zero(), min_i256()), Word::zero());
}

#[test]
fn signed_comparisons() {
    let one = Word::from_u64(1);
    let minus_two = Word::from_limbs([u64::MAX - 1, u64::MAX, u64::MAX, u64::MAX]);
    // Two negative numbers: -2 < -1.
    assert_eq!(binary(slt, minus_two, minus_one()), Word::from_u64(1));
    assert_eq!(binary(sgt, minus_two, minus_one()), Word::zero());
    assert_eq!(binary(slt, minus_one(), minus_two), Word::zero());
    assert_eq!(binary(sgt, minus_one(), minus_two), Word::from_u64(1));
    // The least number is below every other negative one.
    assert_eq!(binary(slt, min_i256(), minus_one()), Word::from_u64(1));
    // Mixed signs: -1 < 0 < 1, though -1 is the largest bit pattern.
    assert_eq!(binary(slt, minus_one(), Word::zero()), Word::from_u64(1));
    assert_eq!(binary(slt, minus_one(), one), Word::from_u64(1));
    assert_eq!(binary(sgt, one, minus_one()), Word::from_u64(1));
    assert_eq!(binary(lt, minus_one(), one), Word::zero());
    // Two others.
    assert_eq!(binary(slt, one, Word::from_u64(2)), Word::from_u64(1));
    assert_eq!(binary(sgt, one, Word::from_u64(2)), Word::zero());
    // Equal operands.
    for a in samples() {
        assert_eq!(binary(slt, a, a), Word::zero());
        assert_eq!(binary(sgt, a, a), Word::zero());
    }
}

#[test]
fn iszero_values() {
    assert_eq!(unary(iszero, Word::zero()), Word::from_u64(1));
    assert_eq!(unary(iszero, Word::from_u64(1)), Word::zero());
    assert_eq!(unary(iszero, Word::from_limbs([0, 0, 0, 1])), Word::zero());
    assert_eq!(unary(iszero, Word::from_limbs([0, 1, 0, 0])), Word::zero());
    assert_eq!(unary(iszero, Word::max()), Word::zero());
}

#[test]
fn shift_left_then_one_more() {
    let top = binary(shl, Word::from_u64(255), Word::from_u64(1));
    assert_eq!(top, min_i256());
    assert_eq!(binary(shl, Word::from_u64(1), top), Word::zero());
}

#[test]
fn shift_right_of_top_bit() {
    assert_eq!(binary(shr, Word::from_u64(255), min_i256()), Word::from_u64(1));
    assert_eq!(binary(sar, Word::from_u64(255), min_i256()), Word::max());
}

#[test]
fn shifts_agree_with_plain_shifts() {
    for value in samples() {
        for n in [0usize, 1, 7, 63, 64, 65, 127, 128, 191, 192, 200, 254, 255] {
            let shift = Word::from_u64(n as u64);
            assert_eq!(binary(shl, shift, value), word(uint(value) << n));
            assert_eq!(binary(shr, shift, value), word(uint(value) >> n));
            assert_eq!(binary(sar, shift, value), word(uint(value).arithmetic_shr(n)));
        }
    }
}

#[test]
fn arithmetic_shift_exact_values() {
    let value = Word::from_limbs([0, 0, 0, 0xf000_0000_0000_0000]);
    assert_eq!(
        binary(sar, Word::from_u64(4), value),
        Word::from_limbs([0, 0, 0, 0xff00_0000_0000_0000])
    );
    assert_eq!(
        binary(sar, Word::from_u64(64), value),
        Word::from_limbs([0, 0, 0xf000_0000_0000_0000, u64::MAX])
    );
    let positive = Word::from_limbs([0, 0, 0, 0x7000_0000_0000_0000]);
    assert_eq!(
        binary(sar, Word::from_u64(4), positive),
        Word::from_limbs([0, 0, 0, 0x0700_0000_0000_0000])
    );
}

#[test]
fn shift_saturation() {
    let amounts = [
        Word::from_u64(256),
        Word::from_u64(257),
        Word::from_u64(u64::MAX),
        Word::from_limbs([0, 1, 0, 0]),
        Word::from_limbs([1, 0, 0, 1]),
        Word::max(),
    ];
    for value in samples() {
        for amount in amounts {
            assert_eq!(binary(shl, amount, value), Word::zero());
            assert_eq!(binary(shr, amount, value), Word::zero());
        }
    }
}

#[test]
fn arithmetic_shift_saturation() {
    let amounts = [
        Word::from_u64(256),
        Word::from_u64(1000),
        Word::from_limbs([5, 0, 1, 0]),
        Word::max(),
    ];
    for value in samples() {
        let negative = uint(value).bit(255);
        for amount in amounts {
            let expected = if negative { Word::max() } else { Word::zero() };
            assert_eq!(binary(sar, amount, value), expected);
        }
    }
}

#[test]
fn shifts_are_undefined_before_their_upgrade() {
    let handlers: [Handler; 3] = [shl, shr, sar];
    for handler in handlers {
        for active in [Upgrade::Frontier, Upgrade::Homestead, Upgrade::Byzantium] {
            let mut stack = ValueStack::new();
            let mut gas = GasMeter::new(100);
            stack.push(Word::from_u64(1));
            stack.push(Word::from_u64(4));
            let version = ProtocolVersion::new(active);
            assert_eq!(
                handler(&mut stack, &mut gas, version),
                Err(HaltCondition::UndefinedInstruction)
            );
            assert_eq!(gas.remaining(), 100);
            assert_eq!(stack.len(), 2);
            assert_eq!(stack.pop(), Ok(Word::from_u64(4)));
            assert_eq!(stack.pop(), Ok(Word::from_u64(1)));
        }
        // The version is looked at before the charge and before the operands.
        let mut empty = ValueStack::new();
        let mut gas = GasMeter::new(0);
        assert_eq!(
            handler(&mut empty, &mut gas, ProtocolVersion::new(Upgrade::Byzantium)),
            Err(HaltCondition::UndefinedInstruction)
        );
        assert_eq!(gas.remaining(), 0);
    }
}

#[test]
fn shifts_are_defined_from_their_upgrade_on() {
    let handlers: [Handler; 3] = [shl, shr, sar];
    for handler in handlers {
        for active in [Upgrade::Constantinople, Upgrade::Petersburg, Upgrade::Prague] {
            let mut stack = ValueStack::new();
            let mut gas = GasMeter::new(100);
            stack.push(Word::from_u64(1));
            stack.push(Word::zero());
            assert_eq!(handler(&mut stack, &mut gas, ProtocolVersion::new(active)), Ok(()));
            assert_eq!(gas.remaining(), 97);
            assert_eq!(stack.pop(), Ok(Word::from_u64(1)));
        }
    }
}

#[test]
fn handlers_without_gas_change_nothing() {
    let handlers: [Handler; 14] = [
        lt, gt, slt, sgt, eq, iszero, bitand, bitor, bitxor, not,
        evm_bitwise::bitwise::byte, shl, shr, sar,
    ];
    for handler in handlers {
        for limit in [0u64, 1, 2] {
            let mut stack = ValueStack::new();
            let mut gas = GasMeter::new(limit);
            stack.push(Word::from_u64(5));
            stack.push(Word::from_u64(6));
            assert_eq!(
                handler(&mut stack, &mut gas, ProtocolVersion::latest()),
                Err(HaltCondition::OutOfGas)
            );
            assert_eq!(gas.remaining(), limit);
            assert_eq!(stack.len(), 2);
            assert_eq!(stack.pop(), Ok(Word::from_u64(6)));
            assert_eq!(stack.pop(), Ok(Word::from_u64(5)));
        }
    }
}

#[test]
fn handlers_with_exact_gas_succeed() {
    let mut stack = ValueStack::new();
    let mut gas = GasMeter::new(3);
    stack.push(Word::from_u64(5));
    stack.push(Word::from_u64(6));
    assert_eq!(bitand(&mut stack, &mut gas, ProtocolVersion::latest()), Ok(()));
    assert_eq!(gas.remaining(), 0);
    assert_eq!(stack.pop(), Ok(Word::from_u64(4)));
}

#[test]
fn binary_handlers_underflow() {
    let handlers: [Handler; 12] = [
        lt, gt, slt, sgt, eq, bitand, bitor, bitxor, evm_bitwise::bitwise::byte, shl, shr, sar,
    ];
    for handler in handlers {
        let mut one = ValueStack::new();
        let mut gas = GasMeter::new(10);
        one.push(Word::from_u64(9));
        assert_eq!(
            handler(&mut one, &mut gas, ProtocolVersion::latest()),
            Err(HaltCondition::StackUnderflow)
        );
        assert_eq!(gas.remaining(), 7);
        assert_eq!(one.len(), 1);
        assert_eq!(one.pop(), Ok(Word::from_u64(9)));

        let mut empty = ValueStack::new();
        let mut gas = GasMeter::new(10);
        assert_eq!(
            handler(&mut empty, &mut gas, ProtocolVersion::latest()),
            Err(HaltCondition::StackUnderflow)
        );
        assert_eq!(gas.remaining(), 7);
        assert_eq!(empty.len(), 0);
    }
}

#[test]
fn unary_handlers_underflow() {
    let handlers: [Handler; 2] = [iszero, not];
    for handler in handlers {
        let mut empty = ValueStack::new();
        let mut gas = GasMeter::new(10);
        assert_eq!(
            handler(&mut empty, &mut gas, ProtocolVersion::latest()),
            Err(HaltCondition::StackUnderflow)
        );
        assert_eq!(gas.remaining(), 7);
        assert_eq!(empty.len(), 0);
    }
}
