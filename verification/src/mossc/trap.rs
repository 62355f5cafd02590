//! The ways in which a malformed program stops the machine.

use vstd::prelude::*;

verus! {

/// A fatal fault. Each one means that the code the machine was given is wrong,
/// so none of them can be recovered from.
#[derive(Clone, Copy, Debug, PartialEq, Eq, Structural)]
pub enum Trap {
    /// An instruction needs more operand-stack entries than there are.
    StackUnderflow,
    /// A marker (or an absent entry) was used where a value is needed.
    NotAValue,
    /// An entry that is no address was used where an address is needed.
    NotAnAddress,
    /// A kind of address that the instruction does not accept.
    BadAddress,
    /// A frame slot beyond the end of the frame stack.
    BadSlot,
    /// A frame slot whose index does not fit the machine word.
    AddressOverflow,
    /// A field was asked of something that is no tuple.
    NotATuple,
    /// An element or the length was asked of something that is no array.
    NotAnArray,
    /// A field or element index beyond the end of the aggregate.
    IndexOutOfRange,
    /// An array index that is no pointer-sized integer.
    NotAnIndex,
    /// A condition that is no boolean.
    NotABool,
    /// The operands of a binary operator are not two integers of one type, or two booleans.
    TypeMismatch,
    /// An arithmetic or shift operator applied to booleans.
    InvalidBoolOp,
    /// Division or remainder by zero.
    DivisionByZero,
    /// A call of something that is no function.
    NotCallable,
    /// A call or a function prologue without the argument-count marker.
    MissingArgCount,
    /// More arguments than the callee's frame has slots.
    TooManyArguments,
    /// A call by a function that has not declared its frame size yet, or of
    /// a function whose first instruction does not declare one.
    MissingFrameSize,
    /// A return without a saved frame pointer.
    MissingFramePointer,
    /// A jump out of the function, or a program counter past its end.
    BadJump,
    /// An instruction that the machine does not execute.
    Unsupported,
    /// Replay of a trace that is not in the trace table, or that is empty.
    MissingTrace,
}

} // verus!
