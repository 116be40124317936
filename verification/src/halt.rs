use vstd::prelude::*;

verus! {

/// Why an instruction stopped the execution that it belongs to. Each of the
/// three is fatal to the current invocation; none is recovered here.
#[derive(Clone, Copy, Debug, PartialEq, Eq, Structural)]
pub enum HaltCondition {
    /// The gas left did not cover the instruction's charge.
    OutOfGas,
    /// The instruction is not part of the active protocol version.
    UndefinedInstruction,
    /// The stack held fewer operands than the instruction takes.
    StackUnderflow,
}

} // verus!
