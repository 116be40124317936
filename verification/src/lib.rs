//! The bitwise and comparison instructions of a stack machine on 256-bit
//! words, in two representations.
//!
//! A [`word::Word`] is a plain 256-bit unsigned integer. A
//! [`secret::SecretWord`] is the same value in circuit form, one wire for
//! each bit, and [`bridge`] is the only place where a value passes from one
//! form to the other. Each handler in [`bitwise`] charges gas, takes its
//! operands from the [`stack::ValueStack`] and writes its result in place of
//! the deepest operand. The unsigned comparisons, the bitwise connectives and
//! the two logical shifts compute in circuit form; the signed comparisons,
//! the zero test, the byte extraction and the arithmetic shift compute on
//! the plain value.
//!
//! Every handler's contract gives the stack, the gas and the halt condition
//! that it leaves as a function of what it found. [`laws`] relates the two
//! representations and states what holds of the results for all operands.

pub mod bits;
pub mod bitwise;
pub mod bridge;
pub mod dispatch;
pub mod gas;
pub mod halt;
pub mod laws;
mod native;
pub mod secret;
pub mod signed;
pub mod stack;
pub mod version;
pub mod word;
pub mod word_bits;
