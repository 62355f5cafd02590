//! The instruction set.

use vstd::prelude::*;

verus! {

/// Identity of a function: stable, and the key of the program store.
pub type FuncId = u64;

/// A basic block of the control-flow graph that a function is lowered from, by its index.
pub type BasicBlock = usize;

/// The three kinds of local storage that lowering tells apart before it lays a frame out.
#[derive(Clone, Copy, Debug, PartialEq, Eq, Structural)]
pub enum Var {
    Arg,
    Var,
    Tmp,
}

/// The binary operators: a closed set.
#[derive(Clone, Copy, Debug, PartialEq, Eq, Structural)]
pub enum BinOp {
    Add,
    Sub,
    Mul,
    Div,
    Rem,
    BitXor,
    BitAnd,
    BitOr,
    Shl,
    Shr,
    Eq,
    Lt,
    Le,
    Ne,
    Ge,
    Gt,
}

/// How a place is borrowed. The machine treats every kind alike.
#[derive(Clone, Copy, Debug, PartialEq, Eq, Structural)]
pub enum BorrowKind {
    Shared,
    Unique,
    Mut,
}

/// A checkpoint inside a trace: the branch that was taken when the trace was recorded,
/// and where the general loop takes over when the branch goes the other way.
#[derive(Clone, Copy, Debug, PartialEq, Eq, Structural)]
pub struct Guard {
    /// The outcome of the condition while recording.
    pub expected: bool,
    /// The function that holds the conditional jump.
    pub recovery: FuncId,
    /// The program counter of the conditional jump in `recovery`.
    pub pc: usize,
}

/// One instruction.
#[allow(non_camel_case_types)]
#[derive(Clone, Copy, Debug, PartialEq, Eq, Structural)]
pub enum OpCode {
    Noop,
    /// Store to a local that has no frame slot yet; resolved when blocks are linked.
    Store(Var, usize),
    /// Load of a local that has no frame slot yet; resolved when blocks are linked.
    Load(Var, usize),
    /// Push the address of a frame slot, relative to the frame pointer.
    LoadLocal(usize),
    /// Pop an entry, resolve it, and write it to a frame slot, relative to the frame pointer.
    StoreLocal(usize),
    Use,
    Consume,
    Static(FuncId),
    /// Push the address of a function.
    LoadFunc(FuncId),
    Len,
    AssignIndex,
    GetIndex,
    /// Push the marker that says how many arguments lie below it.
    ArgCount(usize),
    Call,
    UnsignedInteger(u64),
    Usize(usize),
    SignedInteger(i64),
    Bool(bool),
    /// Build an array of that many copies of the popped value.
    Repeat(usize),
    BORROW(BorrowKind),
    DEREF,
    DEREF_STORE,
    BINOP(BinOp),
    CBINOP(BinOp),
    RETURN_POINTER,
    /// Jump to a basic block; resolved when blocks are linked.
    _Goto(BasicBlock),
    /// Conditional jump to a basic block; resolved when blocks are linked.
    _GotoIf(BasicBlock),
    RETURN,
    RESUME,
    /// Push a tuple of that many absent fields.
    TUPLE(usize),
    /// Build an array from that many popped values.
    VEC(usize),
    /// Set a field of the tuple under the top of the operand stack.
    TUPLE_ASSIGN(usize),
    /// Set a field of a tuple in a frame slot.
    TUPLE_SET(usize),
    /// Turn the address of a tuple into the address of one of its fields.
    TUPLE_GET(usize),
    /// Something lowering could not express.
    TODO,
    JUMP(usize),
    JUMP_IF(usize),
    JUMP_REL(i32),
    JUMP_REL_IF(i32),
    Pop,
    /// The frame size of a function: always its first instruction.
    StackFrame(usize),
    /// Only in traces: a conditional jump, as it went while recording.
    Guard(Guard),
    /// Only in traces: a marker without effect.
    Debug(usize),
}

/// The code of a function.
pub type Function = Vec<OpCode>;

} // verus!
