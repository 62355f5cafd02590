//! The control-flow program that bytecode is made from: functions as graphs
//! of basic blocks, each a run of assignments with a terminator at its end.

use vstd::prelude::*;
use crate::mossc::bytecode::{BasicBlock, BinOp, BorrowKind, FuncId};

verus! {

/// An unsigned pointer-sized constant, by the width of the target's pointers.
#[derive(Clone, Copy, Debug, PartialEq, Eq)]
pub enum ConstUsize {
    Us32(u32),
    Us64(u64),
}

/// A signed pointer-sized constant, by the width of the target's pointers.
#[derive(Clone, Copy, Debug, PartialEq, Eq)]
pub enum ConstIsize {
    Is32(i32),
    Is64(i64),
}

/// An integer constant with its type.
#[derive(Clone, Copy, Debug, PartialEq, Eq)]
pub enum ConstInt {
    I8(i8),
    I16(i16),
    I32(i32),
    I64(i64),
    Isize(ConstIsize),
    U8(u8),
    U16(u16),
    U32(u32),
    U64(u64),
    Usize(ConstUsize),
    /// An integer whose type has not been inferred.
    Infer(u64),
    /// A negative integer whose type has not been inferred.
    InferSigned(i64),
}

/// A constant value.
#[derive(Clone, Copy, Debug, PartialEq, Eq)]
pub enum ConstVal {
    Integral(ConstInt),
    Bool(bool),
    /// A constant of any other kind: a float, a string, a function, an aggregate.
    Other,
}

/// What a constant operand names.
#[derive(Clone, Copy, Debug, PartialEq, Eq)]
pub enum Literal {
    /// An item, such as a function.
    Item { def_id: FuncId },
    /// A value.
    Value { value: ConstVal },
    /// A constant that was lifted out of the function, by its index.
    Promoted { index: usize },
}

/// A constant operand.
#[derive(Clone, Copy, Debug, PartialEq, Eq)]
pub struct Constant {
    pub literal: Literal,
}

/// A place: something that can be assigned to or read from.
#[derive(Debug, PartialEq, Eq)]
pub enum Lvalue {
    /// A local variable, by its index among the variables.
    Var(usize),
    /// A temporary, by its index among the temporaries.
    Temp(usize),
    /// An argument, by its index among the arguments.
    Arg(usize),
    Static(FuncId),
    /// Where the function puts what it returns.
    ReturnPointer,
    /// A part of another place.
    Projection(Box<LvalueProjection>),
}

/// A part of a place.
#[derive(Debug, PartialEq, Eq)]
pub struct LvalueProjection {
    pub base: Lvalue,
    pub elem: ProjectionElem,
}

/// Which part of a place.
#[derive(Debug, PartialEq, Eq)]
pub enum ProjectionElem {
    /// What a reference points to.
    Deref,
    /// A field, by its index.
    Field(usize),
    /// An element, by an index that is computed.
    Index(Operand),
    /// Any other part: a constant index, a subslice, a variant.
    Other,
}

/// Something that is read.
#[derive(Debug, PartialEq, Eq)]
pub enum Operand {
    Consume(Lvalue),
    Constant(Constant),
}

/// What kind of aggregate is built.
#[derive(Clone, Copy, Debug, PartialEq, Eq)]
pub enum AggregateKind {
    Vec,
    Tuple,
    /// A value of a declared type: whether that is a struct, and how many
    /// fields its first variant has.
    Adt { is_struct: bool, fields: usize },
    Closure,
}

/// What kind of cast is made.
#[derive(Clone, Copy, Debug, PartialEq, Eq)]
pub enum CastKind {
    Misc,
    ReifyFnPointer,
    UnsafeFnPointer,
    Unsize,
}

/// The right-hand side of an assignment.
#[derive(Debug, PartialEq, Eq)]
pub enum Rvalue {
    Use(Operand),
    /// An array of `times` copies of the operand.
    Repeat(Operand, u64),
    Ref(BorrowKind, Lvalue),
    Len(Lvalue),
    Cast(CastKind, Operand),
    BinaryOp(BinOp, Operand, Operand),
    CheckedBinaryOp(BinOp, Operand, Operand),
    Aggregate(AggregateKind, Vec<Operand>),
    /// Any other right-hand side: a unary operator, a box, inline assembly.
    Other,
}

/// What a statement does.
#[derive(Debug, PartialEq, Eq)]
pub enum StatementKind {
    Assign(Lvalue, Rvalue),
    /// Any other statement; none has an effect that the machine knows.
    Other,
}

/// A statement.
#[derive(Debug, PartialEq, Eq)]
pub struct Statement {
    pub kind: StatementKind,
}

/// How a basic block ends.
#[derive(Debug, PartialEq, Eq)]
pub enum TerminatorKind {
    Goto { target: BasicBlock },
    /// To the first target where the condition holds, else to the second.
    If { cond: Operand, targets: (BasicBlock, BasicBlock) },
    Resume,
    Return,
    Drop { location: Lvalue, target: BasicBlock },
    /// A call; where it returns, what it returns goes to the place, and
    /// control to the block, of `destination`.
    Call { func: Operand, args: Vec<Operand>, destination: Option<(Lvalue, BasicBlock)> },
    Assert { cond: Operand, expected: bool, target: BasicBlock },
    /// Any other terminator: a switch, an unreachable end.
    Other,
}

/// The end of a basic block.
#[derive(Debug, PartialEq, Eq)]
pub struct Terminator {
    pub kind: TerminatorKind,
}

/// A basic block.
#[derive(Debug, PartialEq, Eq)]
pub struct BasicBlockData {
    pub statements: Vec<Statement>,
    pub terminator: Terminator,
}

/// A function: its basic blocks, the first being its entry, and the number of
/// arguments, variables and temporaries that it declares.
#[derive(Debug, PartialEq, Eq)]
pub struct Mir {
    pub basic_blocks: Vec<BasicBlockData>,
    pub arg_decls: usize,
    pub var_decls: usize,
    pub temp_decls: usize,
}

} // verus!
