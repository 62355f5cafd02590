//! From the control-flow program to bytecode, block by block: what each
//! construct becomes. Jumps still name blocks, and locals still name their
//! kind; linking settles both.

use vstd::prelude::*;
use crate::mossc::bytecode::{Function, OpCode, Var};
use crate::mossc::mir::{
    AggregateKind, BasicBlockData, CastKind, ConstInt, ConstUsize, ConstVal, Literal, Lvalue,
    Operand, ProjectionElem, Rvalue, Statement, StatementKind, Terminator, TerminatorKind,
};

verus! {

/// Why a function cannot be made into bytecode.
#[derive(Clone, Copy, Debug, PartialEq, Eq)]
pub enum LowerError {
    /// A constant that no instruction can push.
    UnsupportedConstant,
    /// A cast other than an unsizing.
    UnsupportedCast,
    /// An assignment to an argument.
    AssignToArgument,
    /// A jump to a block that the function does not have.
    MissingBlock,
    /// A frame or a jump too large for its instruction.
    TooLarge,
    /// No function of the program is its entry.
    NoMain,
}

/// Instructions, or the reason why there are none.
pub type Lowered = Result<Seq<OpCode>, LowerError>;

/// One after the other; the first failure wins.
pub open spec fn join(a: Lowered, b: Lowered) -> Lowered {
    match a {
        Err(e) => Err(e),
        Ok(x) => match b {
            Err(e) => Err(e),
            Ok(y) => Ok(x + y),
        },
    }
}

/// A single instruction.
pub open spec fn emit(op: OpCode) -> Lowered {
    Ok(seq![op])
}

/// The instruction that pushes a constant.
pub open spec fn const_op(literal: Literal) -> Result<OpCode, LowerError> {
    match literal {
        Literal::Value { value } => match value {
            ConstVal::Integral(n) => match n {
                ConstInt::U8(u) => Ok(OpCode::UnsignedInteger(u as u64)),
                ConstInt::U16(u) => Ok(OpCode::UnsignedInteger(u as u64)),
                ConstInt::U32(u) => Ok(OpCode::UnsignedInteger(u as u64)),
                ConstInt::U64(u) => Ok(OpCode::UnsignedInteger(u)),
                ConstInt::I8(i) => Ok(OpCode::SignedInteger(i as i64)),
                ConstInt::I16(i) => Ok(OpCode::SignedInteger(i as i64)),
                ConstInt::I32(i) => Ok(OpCode::SignedInteger(i as i64)),
                ConstInt::I64(i) => Ok(OpCode::SignedInteger(i)),
                ConstInt::Usize(ConstUsize::Us32(u)) => Ok(OpCode::Usize(u as usize)),
                ConstInt::Usize(ConstUsize::Us64(u)) => Ok(OpCode::Usize(u as usize)),
                _ => Err(LowerError::UnsupportedConstant),
            },
            ConstVal::Bool(b) => Ok(OpCode::Bool(b)),
            ConstVal::Other => Err(LowerError::UnsupportedConstant),
        },
        Literal::Item { def_id } => Err(LowerError::UnsupportedConstant),
        Literal::Promoted { index } => Ok(OpCode::Usize(index)),
    }
}

/// The instructions that load a place: the address of a local, or the
/// address of its base and then the step to the part.
pub open spec fn lvalue_load(lvalue: Lvalue) -> Lowered
    decreases lvalue,
{
    match lvalue {
        Lvalue::Var(n) => emit(OpCode::Load(Var::Var, n)),
        Lvalue::Temp(n) => emit(OpCode::Load(Var::Tmp, n)),
        Lvalue::Arg(n) => emit(OpCode::Load(Var::Arg, n)),
        Lvalue::Static(def_id) => emit(OpCode::Static(def_id)),
        Lvalue::ReturnPointer => emit(OpCode::TODO),
        Lvalue::Projection(proj) => match proj.elem {
            ProjectionElem::Deref => join(lvalue_load(proj.base), emit(OpCode::DEREF)),
            ProjectionElem::Field(field) => join(
                lvalue_load(proj.base),
                emit(OpCode::TUPLE_GET(field)),
            ),
            ProjectionElem::Index(index) => join(
                join(operand_ops(index), lvalue_load(proj.base)),
                emit(OpCode::GetIndex),
            ),
            ProjectionElem::Other => emit(OpCode::TODO),
        },
    }
}

/// The instructions that push an operand.
pub open spec fn operand_ops(op: Operand) -> Lowered
    decreases op,
{
    match op {
        Operand::Consume(lvalue) => lvalue_load(lvalue),
        Operand::Constant(constant) => match constant.literal {
            Literal::Item { def_id } => emit(OpCode::LoadFunc(def_id)),
            literal => match const_op(literal) {
                Ok(op) => emit(op),
                Err(e) => Err(e),
            },
        },
    }
}

/// The instructions that assign what is on the operand stack to a place.
pub open spec fn assign_ops(lvalue: Lvalue) -> Lowered {
    match lvalue {
        Lvalue::Var(n) => emit(OpCode::Store(Var::Var, n)),
        Lvalue::Temp(n) => emit(OpCode::Store(Var::Tmp, n)),
        Lvalue::Arg(_) => Err(LowerError::AssignToArgument),
        Lvalue::Static(_) => emit(OpCode::TODO),
        Lvalue::ReturnPointer => emit(OpCode::RETURN_POINTER),
        Lvalue::Projection(proj) => match proj.elem {
            ProjectionElem::Deref => join(lvalue_load(proj.base), emit(OpCode::DEREF_STORE)),
            ProjectionElem::Field(field) => join(
                lvalue_load(proj.base),
                emit(OpCode::TUPLE_SET(field)),
            ),
            ProjectionElem::Index(index) => join(
                join(operand_ops(index), lvalue_load(proj.base)),
                emit(OpCode::AssignIndex),
            ),
            ProjectionElem::Other => emit(OpCode::TODO),
        },
    }
}

/// The instructions that push several operands, the first one first.
pub open spec fn operands_ops(ops: Seq<Operand>) -> Lowered
    decreases ops.len(),
{
    if ops.len() == 0 {
        Ok(Seq::empty())
    } else {
        join(operands_ops(ops.drop_last()), operand_ops(ops.last()))
    }
}

/// The instructions that fill the fields of the tuple on top of the operand
/// stack: each operand is pushed and assigned to the field of its index.
pub open spec fn fields_ops(ops: Seq<Operand>) -> Lowered
    decreases ops.len(),
{
    if ops.len() == 0 {
        Ok(Seq::empty())
    } else {
        join(
            join(fields_ops(ops.drop_last()), operand_ops(ops.last())),
            emit(OpCode::TUPLE_ASSIGN((ops.len() - 1) as usize)),
        )
    }
}

/// The instructions that push the value of a right-hand side.
pub open spec fn rvalue_ops(rvalue: Rvalue) -> Lowered {
    match rvalue {
        Rvalue::Use(op) => join(operand_ops(op), emit(OpCode::Use)),
        Rvalue::CheckedBinaryOp(op, left, right) => join(
            join(operand_ops(left), operand_ops(right)),
            emit(OpCode::CBINOP(op)),
        ),
        Rvalue::BinaryOp(op, left, right) => join(
            join(operand_ops(left), operand_ops(right)),
            emit(OpCode::BINOP(op)),
        ),
        Rvalue::Aggregate(AggregateKind::Tuple, ops) => join(
            emit(OpCode::TUPLE(ops.len())),
            fields_ops(ops@),
        ),
        Rvalue::Aggregate(AggregateKind::Vec, ops) => join(
            operands_ops(ops@),
            emit(OpCode::VEC(ops.len())),
        ),
        Rvalue::Aggregate(AggregateKind::Adt { is_struct, fields }, ops) => if is_struct {
            join(emit(OpCode::TUPLE(fields)), fields_ops(ops@))
        } else {
            Ok(Seq::empty())
        },
        Rvalue::Aggregate(AggregateKind::Closure, _) => emit(OpCode::TODO),
        Rvalue::Ref(kind, lvalue) => join(lvalue_load(lvalue), emit(OpCode::BORROW(kind))),
        Rvalue::Repeat(op, times) => join(operand_ops(op), emit(OpCode::Repeat(times as usize))),
        Rvalue::Len(lvalue) => join(lvalue_load(lvalue), emit(OpCode::Len)),
        Rvalue::Cast(CastKind::Unsize, _) => emit(OpCode::TODO),
        Rvalue::Cast(_, _) => Err(LowerError::UnsupportedCast),
        Rvalue::Other => emit(OpCode::TODO),
    }
}

/// The instructions of a statement: an assignment computes its right-hand
/// side and stores it; no other statement leaves anything.
pub open spec fn statement_ops(statement: Statement) -> Lowered {
    match statement.kind {
        StatementKind::Assign(lvalue, rvalue) => join(rvalue_ops(rvalue), assign_ops(lvalue)),
        StatementKind::Other => Ok(Seq::empty()),
    }
}

/// The instructions of several statements.
pub open spec fn statements_ops(statements: Seq<Statement>) -> Lowered
    decreases statements.len(),
{
    if statements.len() == 0 {
        Ok(Seq::empty())
    } else {
        join(statements_ops(statements.drop_last()), statement_ops(statements.last()))
    }
}

/// The instructions of a terminator. A call pushes its arguments from left to
/// right, then their number, then the callee.
pub open spec fn terminator_ops(terminator: Terminator) -> Lowered {
    match terminator.kind {
        TerminatorKind::Goto { target } => emit(OpCode::_Goto(target)),
        TerminatorKind::If { cond, targets } => join(
            operand_ops(cond),
            Ok(seq![OpCode::_GotoIf(targets.0), OpCode::_Goto(targets.1)]),
        ),
        TerminatorKind::Return => emit(OpCode::RETURN),
        TerminatorKind::Resume => emit(OpCode::RESUME),
        TerminatorKind::Call { func, args, destination } => join(
            join(join(operands_ops(args@), emit(OpCode::ArgCount(args.len()))), operand_ops(func)),
            match destination {
                Some((lvalue, target)) => join(
                    join(emit(OpCode::Call), assign_ops(lvalue)),
                    emit(OpCode::_Goto(target)),
                ),
                None => emit(OpCode::TODO),
            },
        ),
        TerminatorKind::Drop { location, target } => join(lvalue_load(location), emit(OpCode::TODO)),
        TerminatorKind::Assert { cond, expected, target } => emit(OpCode::_Goto(target)),
        TerminatorKind::Other => emit(OpCode::TODO),
    }
}

/// The instructions of a basic block.
pub open spec fn block_ops(block: BasicBlockData) -> Lowered {
    join(statements_ops(block.statements@), terminator_ops(block.terminator))
}

/// How a call on a generator ended: the instructions that `expected` names
/// were appended, or the call failed as `expected` says, with no instruction
/// taken away.
pub open spec fn appended(
    expected: Lowered,
    before: Seq<OpCode>,
    after: Seq<OpCode>,
    r: Result<(), LowerError>,
) -> bool {
    match expected {
        Ok(ops) => r is Ok && after == before + ops,
        Err(e) => r == Err::<(), LowerError>(e) && before.is_prefix_of(after),
    }
}

/// As [`appended`], for a call that hands the last instruction back in place
/// of appending it.
pub open spec fn appended_but_last(
    expected: Lowered,
    before: Seq<OpCode>,
    after: Seq<OpCode>,
    r: Result<OpCode, LowerError>,
) -> bool {
    match expected {
        Ok(ops) => r is Ok && after.push(r->Ok_0) == before + ops,
        Err(e) => r == Err::<OpCode, LowerError>(e) && before.is_prefix_of(after),
    }
}

/// The generator of the bytecode of one basic block.
pub struct BlockGen {
    pub opcodes: Function,
}

impl BlockGen {
    /// A generator that has generated nothing yet.
    pub fn new() -> (r: BlockGen)
        ensures
            r.opcodes@ == Seq::<OpCode>::empty(),
    {
        BlockGen { opcodes: Vec::new() }
    }

    /// The instruction that pushes a constant.
    pub fn unpack_const(&self, literal: &Literal) -> (r: Result<OpCode, LowerError>)
        ensures
            r == const_op(*literal),
    {
        match literal {
            Literal::Value { value } => match value {
                ConstVal::Integral(n) => match n {
                    ConstInt::U8(u) => Ok(OpCode::UnsignedInteger(*u as u64)),
                    ConstInt::U16(u) => Ok(OpCode::UnsignedInteger(*u as u64)),
                    ConstInt::U32(u) => Ok(OpCode::UnsignedInteger(*u as u64)),
                    ConstInt::U64(u) => Ok(OpCode::UnsignedInteger(*u)),
                    ConstInt::I8(i) => Ok(OpCode::SignedInteger(*i as i64)),
                    ConstInt::I16(i) => Ok(OpCode::SignedInteger(*i as i64)),
                    ConstInt::I32(i) => Ok(OpCode::SignedInteger(*i as i64)),
                    ConstInt::I64(i) => Ok(OpCode::SignedInteger(*i)),
                    ConstInt::Usize(ConstUsize::Us32(u)) => Ok(
                        OpCode::Usize(#[verifier::truncate] (*u as usize)),
                    ),
                    ConstInt::Usize(ConstUsize::Us64(u)) => Ok(
                        OpCode::Usize(#[verifier::truncate] (*u as usize)),
                    ),
                    _ => Err(LowerError::UnsupportedConstant),
                },
                ConstVal::Bool(b) => Ok(OpCode::Bool(*b)),
                ConstVal::Other => Err(LowerError::UnsupportedConstant),
            },
            Literal::Item { def_id } => Err(LowerError::UnsupportedConstant),
            Literal::Promoted { index } => Ok(OpCode::Usize(*index)),
        }
    }

    fn put(&mut self, op: OpCode)
        ensures
            final(self).opcodes@ == old(self).opcodes@.push(op),
    {
        self.opcodes.push(op);
    }

    /// Generates the load of a place, and hands the last instruction of the
    /// load back in place of appending it.
    pub fn load_lvalue(&mut self, lvalue: &Lvalue) -> (r: Result<OpCode, LowerError>)
        ensures
            appended_but_last(lvalue_load(*lvalue), old(self).opcodes@, final(self).opcodes@, r),
        decreases lvalue, 1nat,
    {
        let ghost before = self.opcodes@;
        match lvalue {
            Lvalue::Var(n) => {
                assert(before.push(OpCode::Load(Var::Var, *n)) =~= before + seq![OpCode::Load(Var::Var, *n)]);
                Ok(OpCode::Load(Var::Var, *n))
            },
            Lvalue::Temp(n) => {
                assert(before.push(OpCode::Load(Var::Tmp, *n)) =~= before + seq![OpCode::Load(Var::Tmp, *n)]);
                Ok(OpCode::Load(Var::Tmp, *n))
            },
            Lvalue::Arg(n) => {
                assert(before.push(OpCode::Load(Var::Arg, *n)) =~= before + seq![OpCode::Load(Var::Arg, *n)]);
                Ok(OpCode::Load(Var::Arg, *n))
            },
            Lvalue::Static(def_id) => {
                assert(before.push(OpCode::Static(*def_id)) =~= before + seq![OpCode::Static(*def_id)]);
                Ok(OpCode::Static(*def_id))
            },
            Lvalue::ReturnPointer => {
                assert(before.push(OpCode::TODO) =~= before + seq![OpCode::TODO]);
                Ok(OpCode::TODO)
            },
            Lvalue::Projection(proj) => {
                match &proj.elem {
                    ProjectionElem::Deref => {
                        self.load_place(&proj.base, OpCode::DEREF)
                    },
                    ProjectionElem::Field(field) => {
                        self.load_place(&proj.base, OpCode::TUPLE_GET(*field))
                    },
                    ProjectionElem::Index(index) => {
                        match self.rvalue_operand(index) {
                            Ok(()) => {},
                            Err(e) => { return Err(e); },
                        }
                        let ghost mid = self.opcodes@;
                        let r = self.load_place(&proj.base, OpCode::GetIndex);
                        proof {
                            if let Ok(a) = operand_ops(*index) {
                                if let Ok(b) = lvalue_load(proj.base) {
                                    assert((before + a) + (b + seq![OpCode::GetIndex]) =~= before + ((a + b) + seq![OpCode::GetIndex]));
                                }
                            }
                        }
                        r
                    },
                    ProjectionElem::Other => {
                        assert(before.push(OpCode::TODO) =~= before + seq![OpCode::TODO]);
                        Ok(OpCode::TODO)
                    },
                }
            },
        }
    }

    /// Generates the load of `base` in full, and hands `last` back: the load
    /// of a part of `base`, but for its last instruction.
    fn load_place(&mut self, base: &Lvalue, last: OpCode) -> (r: Result<OpCode, LowerError>)
        ensures
            appended_but_last(
                join(lvalue_load(*base), emit(last)),
                old(self).opcodes@,
                final(self).opcodes@,
                r,
            ),
        decreases base, 2nat,
    {
        let ghost before = self.opcodes@;
        match self.load_lvalue(base) {
            Ok(op) => {
                self.put(op);
                proof {
                    let ops = lvalue_load(*base)->Ok_0;
                    assert(self.opcodes@.push(last) =~= before + (ops + seq![last]));
                }
                Ok(last)
            },
            Err(e) => Err(e),
        }
    }

    /// Generates the push of an operand.
    pub fn rvalue_operand(&mut self, op: &Operand) -> (r: Result<(), LowerError>)
        ensures
            appended(operand_ops(*op), old(self).opcodes@, final(self).opcodes@, r),
        decreases op, 0nat,
    {
        let cmd = match op {
            Operand::Consume(lvalue) => {
                match self.load_lvalue(lvalue) {
                    Ok(o) => o,
                    Err(e) => { return Err(e); },
                }
            },
            Operand::Constant(constant) => {
                match &constant.literal {
                    Literal::Item { def_id } => OpCode::LoadFunc(*def_id),
                    literal => {
                        match self.unpack_const(literal) {
                            Ok(o) => o,
                            Err(e) => { return Err(e); },
                        }
                    },
                }
            },
        };
        let ghost before = self.opcodes@;
        self.put(cmd);
        assert(before.push(cmd) =~= before + seq![cmd]);
        Ok(())
    }
}

impl BlockGen {
    /// Generates the load of a place in full.
    fn load(&mut self, lvalue: &Lvalue) -> (r: Result<(), LowerError>)
        ensures
            appended(lvalue_load(*lvalue), old(self).opcodes@, final(self).opcodes@, r),
    {
        match self.load_lvalue(lvalue) {
            Ok(op) => {
                self.put(op);
                Ok(())
            },
            Err(e) => Err(e),
        }
    }

    /// Generates the load of `base`, then `last`.
    fn load_then(&mut self, base: &Lvalue, last: OpCode) -> (r: Result<(), LowerError>)
        ensures
            appended(
                join(lvalue_load(*base), emit(last)),
                old(self).opcodes@,
                final(self).opcodes@,
                r,
            ),
    {
        let ghost before = self.opcodes@;
        match self.load(base) {
            Ok(()) => {
                self.put(last);
                proof {
                    let ops = lvalue_load(*base)->Ok_0;
                    assert(self.opcodes@ =~= before + (ops + seq![last]));
                }
                Ok(())
            },
            Err(e) => Err(e),
        }
    }

    /// Generates the push of two operands, then `last`.
    fn binary(&mut self, left: &Operand, right: &Operand, last: OpCode) -> (r: Result<
        (),
        LowerError,
    >)
        ensures
            appended(
                join(join(operand_ops(*left), operand_ops(*right)), emit(last)),
                old(self).opcodes@,
                final(self).opcodes@,
                r,
            ),
    {
        let ghost before = self.opcodes@;
        match self.rvalue_operand(left) {
            Ok(()) => {},
            Err(e) => { return Err(e); },
        }
        match self.rvalue_operand(right) {
            Ok(()) => {},
            Err(e) => { return Err(e); },
        }
        self.put(last);
        proof {
            let a = operand_ops(*left)->Ok_0;
            let b = operand_ops(*right)->Ok_0;
            assert(self.opcodes@ =~= before + ((a + b) + seq![last]));
        }
        Ok(())
    }

    /// Generates the push of several operands, the first one first.
    fn operands(&mut self, ops: &Vec<Operand>) -> (r: Result<(), LowerError>)
        ensures
            appended(operands_ops(ops@), old(self).opcodes@, final(self).opcodes@, r),
    {
        let ghost before = self.opcodes@;
        let mut i: usize = 0;
        assert(ops@.take(0) =~= Seq::<Operand>::empty());
        assert(before =~= before + Seq::<OpCode>::empty());
        while i < ops.len()
            invariant
                i <= ops.len(),
                before == old(self).opcodes@,
                appended(operands_ops(ops@.take(i as int)), before, self.opcodes@, Ok(())),
            decreases ops.len() - i,
        {
            let ghost sofar = operands_ops(ops@.take(i as int))->Ok_0;
            proof {
                assert(ops@.take(i + 1).drop_last() =~= ops@.take(i as int));
                assert(ops@.take(i + 1).last() == ops@[i as int]);
                lemma_operands_prefix(ops@, i + 1);
                assert(operands_ops(ops@.take(i + 1)) == join(
                    operands_ops(ops@.take(i as int)),
                    operand_ops(ops@[i as int]),
                ));
            }
            match self.rvalue_operand(&ops[i]) {
                Ok(()) => {
                    proof {
                        let a = operand_ops(ops@[i as int])->Ok_0;
                        assert((before + sofar) + a =~= before + (sofar + a));
                    }
                },
                Err(e) => {
                    proof {
                        lemma_prefix_of_longer(before, sofar, self.opcodes@);
                    }
                    return Err(e);
                },
            }
            i += 1;
        }
        assert(ops@.take(ops.len() as int) =~= ops@);
        Ok(())
    }

    /// Generates the filling of the fields of a tuple.
    fn fields(&mut self, ops: &Vec<Operand>) -> (r: Result<(), LowerError>)
        ensures
            appended(fields_ops(ops@), old(self).opcodes@, final(self).opcodes@, r),
    {
        let ghost before = self.opcodes@;
        let mut i: usize = 0;
        assert(ops@.take(0) =~= Seq::<Operand>::empty());
        assert(before =~= before + Seq::<OpCode>::empty());
        while i < ops.len()
            invariant
                i <= ops.len(),
                before == old(self).opcodes@,
                appended(fields_ops(ops@.take(i as int)), before, self.opcodes@, Ok(())),
            decreases ops.len() - i,
        {
            let ghost sofar = fields_ops(ops@.take(i as int))->Ok_0;
            proof {
                assert(ops@.take(i + 1).drop_last() =~= ops@.take(i as int));
                assert(ops@.take(i + 1).last() == ops@[i as int]);
                lemma_fields_prefix(ops@, i + 1);
                assert(fields_ops(ops@.take(i + 1)) == join(
                    join(fields_ops(ops@.take(i as int)), operand_ops(ops@[i as int])),
                    emit(OpCode::TUPLE_ASSIGN(i)),
                ));
            }
            match self.rvalue_operand(&ops[i]) {
                Ok(()) => {},
                Err(e) => {
                    proof {
                        lemma_prefix_of_longer(before, sofar, self.opcodes@);
                    }
                    return Err(e);
                },
            }
            self.put(OpCode::TUPLE_ASSIGN(i));
            proof {
                let a = operand_ops(ops@[i as int])->Ok_0;
                assert(self.opcodes@ =~= before + ((sofar + a) + seq![OpCode::TUPLE_ASSIGN(i)]));
            }
            i += 1;
        }
        assert(ops@.take(ops.len() as int) =~= ops@);
        Ok(())
    }

    /// Generates the assignment of what is on the operand stack to a place.
    pub fn assign_to(&mut self, lvalue: &Lvalue) -> (r: Result<(), LowerError>)
        ensures
            appended(assign_ops(*lvalue), old(self).opcodes@, final(self).opcodes@, r),
    {
        let ghost before = self.opcodes@;
        let opcode = match lvalue {
            Lvalue::Var(n) => OpCode::Store(Var::Var, *n),
            Lvalue::Temp(n) => OpCode::Store(Var::Tmp, *n),
            Lvalue::Arg(_) => { return Err(LowerError::AssignToArgument); },
            Lvalue::Static(_) => OpCode::TODO,
            Lvalue::Projection(proj) => {
                match &proj.elem {
                    ProjectionElem::Deref => {
                        return self.load_then(&proj.base, OpCode::DEREF_STORE);
                    },
                    ProjectionElem::Field(field) => {
                        return self.load_then(&proj.base, OpCode::TUPLE_SET(*field));
                    },
                    ProjectionElem::Index(index) => {
                        match self.rvalue_operand(index) {
                            Ok(()) => {},
                            Err(e) => { return Err(e); },
                        }
                        let r = self.load_then(&proj.base, OpCode::AssignIndex);
                        proof {
                            if let Ok(a) = operand_ops(*index) {
                                assert(before.is_prefix_of(before + a));
                                if let Ok(b) = lvalue_load(proj.base) {
                                    assert((before + a) + (b + seq![OpCode::AssignIndex]) =~= before
                                        + ((a + b) + seq![OpCode::AssignIndex]));
                                }
                            }
                        }
                        return r;
                    },
                    ProjectionElem::Other => OpCode::TODO,
                }
            },
            // the value is just left on the operand stack
            Lvalue::ReturnPointer => OpCode::RETURN_POINTER,
        };
        self.put(opcode);
        assert(before.push(opcode) =~= before + seq![opcode]);
        Ok(())
    }

    /// Generates the push of the value of a right-hand side.
    pub fn handle_rvalue(&mut self, rvalue: &Rvalue) -> (r: Result<(), LowerError>)
        ensures
            appended(rvalue_ops(*rvalue), old(self).opcodes@, final(self).opcodes@, r),
    {
        let ghost before = self.opcodes@;
        match rvalue {
            Rvalue::Use(op) => {
                match self.rvalue_operand(op) {
                    Ok(()) => {},
                    Err(e) => { return Err(e); },
                }
                self.put(OpCode::Use);
                proof {
                    let a = operand_ops(*op)->Ok_0;
                    assert(self.opcodes@ =~= before + (a + seq![OpCode::Use]));
                }
                Ok(())
            },
            Rvalue::CheckedBinaryOp(op, left, right) => self.binary(left, right, OpCode::CBINOP(*op)),
            Rvalue::BinaryOp(op, left, right) => self.binary(left, right, OpCode::BINOP(*op)),
            Rvalue::Aggregate(AggregateKind::Tuple, ops) => self.tuple(ops.len(), ops),
            Rvalue::Aggregate(AggregateKind::Vec, ops) => {
                match self.operands(ops) {
                    Ok(()) => {},
                    Err(e) => { return Err(e); },
                }
                self.put(OpCode::VEC(ops.len()));
                proof {
                    let a = operands_ops(ops@)->Ok_0;
                    assert(self.opcodes@ =~= before + (a + seq![OpCode::VEC(ops.len())]));
                }
                Ok(())
            },
            Rvalue::Aggregate(AggregateKind::Adt { is_struct, fields }, ops) => {
                if *is_struct {
                    self.tuple(*fields, ops)
                } else {
                    assert(before =~= before + Seq::<OpCode>::empty());
                    Ok(())
                }
            },
            Rvalue::Aggregate(AggregateKind::Closure, _) => {
                self.put(OpCode::TODO);
                assert(before.push(OpCode::TODO) =~= before + seq![OpCode::TODO]);
                Ok(())
            },
            Rvalue::Ref(kind, lvalue) => self.load_then(lvalue, OpCode::BORROW(*kind)),
            // [0; 5] -> [0, 0, 0, 0, 0]
            Rvalue::Repeat(op, times) => {
                match self.rvalue_operand(op) {
                    Ok(()) => {},
                    Err(e) => { return Err(e); },
                }
                let last = OpCode::Repeat(#[verifier::truncate] (*times as usize));
                self.put(last);
                proof {
                    let a = operand_ops(*op)->Ok_0;
                    assert(self.opcodes@ =~= before + (a + seq![last]));
                }
                Ok(())
            },
            Rvalue::Len(lvalue) => self.load_then(lvalue, OpCode::Len),
            Rvalue::Cast(kind, _) => {
                match kind {
                    CastKind::Unsize => {
                        self.put(OpCode::TODO);
                        assert(before.push(OpCode::TODO) =~= before + seq![OpCode::TODO]);
                        Ok(())
                    },
                    _ => Err(LowerError::UnsupportedCast),
                }
            },
            Rvalue::Other => {
                self.put(OpCode::TODO);
                assert(before.push(OpCode::TODO) =~= before + seq![OpCode::TODO]);
                Ok(())
            },
        }
    }

    /// Generates a tuple of `size` fields and the filling of its fields.
    fn tuple(&mut self, size: usize, ops: &Vec<Operand>) -> (r: Result<(), LowerError>)
        ensures
            appended(
                join(emit(OpCode::TUPLE(size)), fields_ops(ops@)),
                old(self).opcodes@,
                final(self).opcodes@,
                r,
            ),
    {
        let ghost before = self.opcodes@;
        self.put(OpCode::TUPLE(size));
        let r = self.fields(ops);
        proof {
            assert(before.is_prefix_of(before.push(OpCode::TUPLE(size))));
            if let Ok(a) = fields_ops(ops@) {
                assert(before.push(OpCode::TUPLE(size)) + a =~= before + (seq![OpCode::TUPLE(size)] + a));
            }
        }
        r
    }

    /// Generates a statement.
    pub fn analyse_statement(&mut self, statement: &Statement) -> (r: Result<(), LowerError>)
        ensures
            appended(statement_ops(*statement), old(self).opcodes@, final(self).opcodes@, r),
    {
        let ghost before = self.opcodes@;
        match &statement.kind {
            StatementKind::Assign(lvalue, rvalue) => {
                match self.handle_rvalue(rvalue) {
                    Ok(()) => {},
                    Err(e) => { return Err(e); },
                }
                let r = self.assign_to(lvalue);
                proof {
                    let a = rvalue_ops(*rvalue)->Ok_0;
                    assert(before.is_prefix_of(before + a));
                    if let Ok(b) = assign_ops(*lvalue) {
                        assert((before + a) + b =~= before + (a + b));
                    }
                }
                r
            },
            StatementKind::Other => {
                assert(before =~= before + Seq::<OpCode>::empty());
                Ok(())
            },
        }
    }

    /// Generates a terminator.
    pub fn analyse_terminator(&mut self, terminator: &Terminator) -> (r: Result<(), LowerError>)
        ensures
            appended(terminator_ops(*terminator), old(self).opcodes@, final(self).opcodes@, r),
    {
        let ghost before = self.opcodes@;
        let op = match &terminator.kind {
            TerminatorKind::Goto { target } => OpCode::_Goto(*target),
            TerminatorKind::If { cond, targets } => {
                match self.rvalue_operand(cond) {
                    Ok(()) => {},
                    Err(e) => { return Err(e); },
                }
                self.put(OpCode::_GotoIf(targets.0));
                self.put(OpCode::_Goto(targets.1));
                proof {
                    let a = operand_ops(*cond)->Ok_0;
                    assert(self.opcodes@ =~= before + (a + seq![
                        OpCode::_GotoIf(targets.0),
                        OpCode::_Goto(targets.1),
                    ]));
                }
                return Ok(());
            },
            TerminatorKind::Return => OpCode::RETURN,
            TerminatorKind::Resume => OpCode::RESUME,
            TerminatorKind::Call { func, args, destination } => {
                match self.operands(args) {
                    Ok(()) => {},
                    Err(e) => { return Err(e); },
                }
                self.put(OpCode::ArgCount(args.len()));
                let ghost pushed = self.opcodes@;
                match self.rvalue_operand(func) {
                    Ok(()) => {},
                    Err(e) => {
                        assert(before.is_prefix_of(self.opcodes@)) by {
                            assert(before.is_prefix_of(pushed));
                        }
                        return Err(e);
                    },
                }
                let ghost a = operands_ops(args@)->Ok_0;
                let ghost f = operand_ops(*func)->Ok_0;
                let ghost head = (a + seq![OpCode::ArgCount(args.len())]) + f;
                assert(self.opcodes@ =~= before + head);
                match destination {
                    Some(dest) => {
                        self.put(OpCode::Call);
                        let ghost called = self.opcodes@;
                        match self.assign_to(&dest.0) {
                            Ok(()) => {},
                            Err(e) => {
                                assert(before.is_prefix_of(self.opcodes@)) by {
                                    assert(before.is_prefix_of(called));
                                }
                                return Err(e);
                            },
                        }
                        self.put(OpCode::_Goto(dest.1));
                        proof {
                            let b = assign_ops(dest.0)->Ok_0;
                            assert(self.opcodes@ =~= before + (head + ((seq![OpCode::Call] + b)
                                + seq![OpCode::_Goto(dest.1)])));
                        }
                        return Ok(());
                    },
                    None => {
                        self.put(OpCode::TODO);
                        assert(self.opcodes@ =~= before + (head + seq![OpCode::TODO]));
                        return Ok(());
                    },
                }
            },
            TerminatorKind::Drop { location, target } => {
                return self.load_then(location, OpCode::TODO);
            },
            TerminatorKind::Assert { cond, expected, target } => OpCode::_Goto(*target),
            TerminatorKind::Other => OpCode::TODO,
        };
        self.put(op);
        assert(before.push(op) =~= before + seq![op]);
        Ok(())
    }

    /// Generates a basic block: its statements in order, then its terminator.
    pub fn analyse_block(&mut self, block: &BasicBlockData) -> (r: Result<(), LowerError>)
        ensures
            appended(block_ops(*block), old(self).opcodes@, final(self).opcodes@, r),
    {
        let ghost before = self.opcodes@;
        let statements = &block.statements;
        let mut i: usize = 0;
        assert(statements@.take(0) =~= Seq::<Statement>::empty());
        assert(before =~= before + Seq::<OpCode>::empty());
        while i < statements.len()
            invariant
                i <= statements.len(),
                statements == &block.statements,
                before == old(self).opcodes@,
                appended(statements_ops(statements@.take(i as int)), before, self.opcodes@, Ok(())),
            decreases statements.len() - i,
        {
            let ghost sofar = statements_ops(statements@.take(i as int))->Ok_0;
            proof {
                assert(statements@.take(i + 1).drop_last() =~= statements@.take(i as int));
                assert(statements@.take(i + 1).last() == statements@[i as int]);
                lemma_statements_prefix(statements@, i + 1);
                assert(statements_ops(statements@.take(i + 1)) == join(
                    statements_ops(statements@.take(i as int)),
                    statement_ops(statements@[i as int]),
                ));
            }
            match self.analyse_statement(&statements[i]) {
                Ok(()) => {
                    proof {
                        let a = statement_ops(statements@[i as int])->Ok_0;
                        assert((before + sofar) + a =~= before + (sofar + a));
                    }
                },
                Err(e) => {
                    proof {
                        lemma_prefix_of_longer(before, sofar, self.opcodes@);
                    }
                    return Err(e);
                },
            }
            i += 1;
        }
        assert(statements@.take(statements.len() as int) =~= statements@);
        let ghost body = statements_ops(statements@)->Ok_0;
        let r = self.analyse_terminator(&block.terminator);
        proof {
            assert(before.is_prefix_of(before + body));
            if let Ok(t) = terminator_ops(block.terminator) {
                assert((before + body) + t =~= before + (body + t));
            }
        }
        r
    }
}

/// What starts with `a` and then `b` starts with `a`.
pub proof fn lemma_prefix_of_longer(a: Seq<OpCode>, b: Seq<OpCode>, c: Seq<OpCode>)
    requires
        (a + b).is_prefix_of(c),
    ensures
        a.is_prefix_of(c),
        a.is_prefix_of(a + b),
{
    assert(a =~= c.subrange(0, a.len() as int)) by {
        assert(a + b =~= c.subrange(0, (a + b).len() as int));
        assert forall|i: int| 0 <= i < a.len() implies a[i] == c[i] by {
            assert((a + b)[i] == c.subrange(0, (a + b).len() as int)[i]);
        }
    }
    assert(a =~= (a + b).subrange(0, a.len() as int));
}

/// Where the push of the first `k` operands fails, the push of all fails in
/// the same way.
pub proof fn lemma_operands_prefix(ops: Seq<Operand>, k: int)
    requires
        0 <= k <= ops.len(),
    ensures
        operands_ops(ops.take(k)) matches Err(e) ==> operands_ops(ops) == Err::<
            Seq<OpCode>,
            LowerError,
        >(e),
    decreases ops.len(),
{
    if k == ops.len() {
        assert(ops.take(k) =~= ops);
    } else {
        lemma_operands_prefix(ops.drop_last(), k);
        assert(ops.drop_last().take(k) =~= ops.take(k));
    }
}

/// Where the filling of the first `k` fields fails, the filling of all fails
/// in the same way.
pub proof fn lemma_fields_prefix(ops: Seq<Operand>, k: int)
    requires
        0 <= k <= ops.len(),
    ensures
        fields_ops(ops.take(k)) matches Err(e) ==> fields_ops(ops) == Err::<
            Seq<OpCode>,
            LowerError,
        >(e),
    decreases ops.len(),
{
    if k == ops.len() {
        assert(ops.take(k) =~= ops);
    } else {
        lemma_fields_prefix(ops.drop_last(), k);
        assert(ops.drop_last().take(k) =~= ops.take(k));
    }
}

/// Where the first `k` statements fail, all fail in the same way.
pub proof fn lemma_statements_prefix(statements: Seq<Statement>, k: int)
    requires
        0 <= k <= statements.len(),
    ensures
        statements_ops(statements.take(k)) matches Err(e) ==> statements_ops(statements) == Err::<
            Seq<OpCode>,
            LowerError,
        >(e),
    decreases statements.len(),
{
    if k == statements.len() {
        assert(statements.take(k) =~= statements);
    } else {
        lemma_statements_prefix(statements.drop_last(), k);
        assert(statements.drop_last().take(k) =~= statements.take(k));
    }
}

} // verus!
