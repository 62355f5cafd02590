use moss::mossc::bytecode::{BinOp, BorrowKind, FuncId, OpCode, Var};
use moss::mossc::compile::{generate_bytecode, Context, Item};
use moss::mossc::interpret::{interpret, ExitOutcome};
use moss::mossc::link::optimize_blocks;
use moss::mossc::lower::{BlockGen, LowerError};
use moss::mossc::machine::Output;
use moss::mossc::mir::{
    AggregateKind, BasicBlockData, CastKind, ConstInt, ConstIsize, ConstUsize, ConstVal, Constant,
    Literal, Lvalue, LvalueProjection, Mir, Operand, ProjectionElem, Rvalue, Statement,
    StatementKind, Terminator, TerminatorKind,
};
use moss::mossc::program::Intrinsic;

fn integer(n: ConstInt) -> Operand {
    Operand::Constant(Constant { literal: Literal::Value { value: ConstVal::Integral(n) } })
}

fn size(n: u64) -> Operand {
    integer(ConstInt::Usize(ConstUsize::Us64(n)))
}

fn function(def_id: FuncId) -> Operand {
    Operand::Constant(Constant { literal: Literal::Item { def_id } })
}

fn part(base: Lvalue, elem: ProjectionElem) -> Lvalue {
    Lvalue::Projection(Box::new(LvalueProjection { base, elem }))
}

fn assign(lvalue: Lvalue, rvalue: Rvalue) -> Statement {
    Statement { kind: StatementKind::Assign(lvalue, rvalue) }
}

fn block(statements: Vec<Statement>, kind: TerminatorKind) -> BasicBlockData {
    BasicBlockData { statements, terminator: Terminator { kind } }
}

fn loaded(lvalue: &Lvalue) -> Result<Vec<OpCode>, LowerError> {
    let mut gen = BlockGen::new();
    let last = gen.load_lvalue(lvalue)?;
    gen.opcodes.push(last);
    Ok(gen.opcodes)
}

fn pushed(operand: &Operand) -> Result<Vec<OpCode>, LowerError> {
    let mut gen = BlockGen::new();
    gen.rvalue_operand(operand)?;
    Ok(gen.opcodes)
}

fn assigned(lvalue: &Lvalue) -> Result<Vec<OpCode>, LowerError> {
    let mut gen = BlockGen::new();
    gen.assign_to(lvalue)?;
    Ok(gen.opcodes)
}

fn computed(rvalue: &Rvalue) -> Result<Vec<OpCode>, LowerError> {
    let mut gen = BlockGen::new();
    gen.handle_rvalue(rvalue)?;
    Ok(gen.opcodes)
}

fn ended(kind: TerminatorKind) -> Result<Vec<OpCode>, LowerError> {
    let mut gen = BlockGen::new();
    gen.analyse_terminator(&Terminator { kind })?;
    Ok(gen.opcodes)
}

#[test]
fn constants() {
    let gen = BlockGen::new();
    let value = |n: ConstInt| gen.unpack_const(&Literal::Value { value: ConstVal::Integral(n) });
    assert_eq!(value(ConstInt::U8(200)), Ok(OpCode::UnsignedInteger(200)));
    assert_eq!(value(ConstInt::U16(60000)), Ok(OpCode::UnsignedInteger(60000)));
    assert_eq!(value(ConstInt::U32(u32::MAX)), Ok(OpCode::UnsignedInteger(4294967295)));
    assert_eq!(value(ConstInt::U64(u64::MAX)), Ok(OpCode::UnsignedInteger(u64::MAX)));
    assert_eq!(value(ConstInt::I8(-100)), Ok(OpCode::SignedInteger(-100)));
    assert_eq!(value(ConstInt::I16(-30000)), Ok(OpCode::SignedInteger(-30000)));
    assert_eq!(value(ConstInt::I32(i32::MIN)), Ok(OpCode::SignedInteger(-2147483648)));
    assert_eq!(value(ConstInt::I64(i64::MIN)), Ok(OpCode::SignedInteger(i64::MIN)));
    assert_eq!(value(ConstInt::Usize(ConstUsize::Us32(7))), Ok(OpCode::Usize(7)));
    assert_eq!(value(ConstInt::Usize(ConstUsize::Us64(8))), Ok(OpCode::Usize(8)));
    assert_eq!(value(ConstInt::Isize(ConstIsize::Is64(8))), Err(LowerError::UnsupportedConstant));
    assert_eq!(value(ConstInt::Infer(8)), Err(LowerError::UnsupportedConstant));
    assert_eq!(value(ConstInt::InferSigned(-8)), Err(LowerError::UnsupportedConstant));
    assert_eq!(
        gen.unpack_const(&Literal::Value { value: ConstVal::Bool(true) }),
        Ok(OpCode::Bool(true))
    );
    assert_eq!(
        gen.unpack_const(&Literal::Value { value: ConstVal::Other }),
        Err(LowerError::UnsupportedConstant)
    );
    assert_eq!(gen.unpack_const(&Literal::Promoted { index: 3 }), Ok(OpCode::Usize(3)));
    assert_eq!(gen.unpack_const(&Literal::Item { def_id: 3 }), Err(LowerError::UnsupportedConstant));
    assert!(gen.opcodes.is_empty());
}

#[test]
fn places_are_loaded() {
    assert_eq!(loaded(&Lvalue::Var(2)), Ok(vec![OpCode::Load(Var::Var, 2)]));
    assert_eq!(loaded(&Lvalue::Temp(3)), Ok(vec![OpCode::Load(Var::Tmp, 3)]));
    assert_eq!(loaded(&Lvalue::Arg(0)), Ok(vec![OpCode::Load(Var::Arg, 0)]));
    assert_eq!(loaded(&Lvalue::Static(9)), Ok(vec![OpCode::Static(9)]));
    assert_eq!(loaded(&Lvalue::ReturnPointer), Ok(vec![OpCode::TODO]));
    assert_eq!(
        loaded(&part(Lvalue::Var(1), ProjectionElem::Deref)),
        Ok(vec![OpCode::Load(Var::Var, 1), OpCode::DEREF])
    );
    assert_eq!(
        loaded(&part(Lvalue::Var(1), ProjectionElem::Field(4))),
        Ok(vec![OpCode::Load(Var::Var, 1), OpCode::TUPLE_GET(4)])
    );
    assert_eq!(
        loaded(&part(Lvalue::Var(1), ProjectionElem::Index(Operand::Consume(Lvalue::Temp(0))))),
        Ok(vec![OpCode::Load(Var::Tmp, 0), OpCode::Load(Var::Var, 1), OpCode::GetIndex])
    );
    assert_eq!(loaded(&part(Lvalue::Var(1), ProjectionElem::Other)), Ok(vec![OpCode::TODO]));
    // x.2[i].0
    let nested = part(
        part(
            part(Lvalue::Arg(0), ProjectionElem::Field(2)),
            ProjectionElem::Index(size(5)),
        ),
        ProjectionElem::Field(0),
    );
    assert_eq!(
        loaded(&nested),
        Ok(vec![
            OpCode::Usize(5),
            OpCode::Load(Var::Arg, 0),
            OpCode::TUPLE_GET(2),
            OpCode::GetIndex,
            OpCode::TUPLE_GET(0),
        ])
    );
    assert_eq!(
        loaded(&part(Lvalue::Var(1), ProjectionElem::Index(integer(ConstInt::Infer(1))))),
        Err(LowerError::UnsupportedConstant)
    );
}

#[test]
fn operands_are_pushed() {
    assert_eq!(pushed(&Operand::Consume(Lvalue::Arg(1))), Ok(vec![OpCode::Load(Var::Arg, 1)]));
    assert_eq!(pushed(&function(7)), Ok(vec![OpCode::LoadFunc(7)]));
    assert_eq!(pushed(&integer(ConstInt::I32(-1))), Ok(vec![OpCode::SignedInteger(-1)]));
    assert_eq!(
        pushed(&Operand::Constant(Constant { literal: Literal::Value { value: ConstVal::Other } })),
        Err(LowerError::UnsupportedConstant)
    );
}

#[test]
fn places_are_assigned() {
    assert_eq!(assigned(&Lvalue::Var(2)), Ok(vec![OpCode::Store(Var::Var, 2)]));
    assert_eq!(assigned(&Lvalue::Temp(2)), Ok(vec![OpCode::Store(Var::Tmp, 2)]));
    assert_eq!(assigned(&Lvalue::Arg(2)), Err(LowerError::AssignToArgument));
    assert_eq!(assigned(&Lvalue::Static(2)), Ok(vec![OpCode::TODO]));
    assert_eq!(assigned(&Lvalue::ReturnPointer), Ok(vec![OpCode::RETURN_POINTER]));
    assert_eq!(
        assigned(&part(Lvalue::Var(1), ProjectionElem::Deref)),
        Ok(vec![OpCode::Load(Var::Var, 1), OpCode::DEREF_STORE])
    );
    assert_eq!(
        assigned(&part(Lvalue::Var(1), ProjectionElem::Field(3))),
        Ok(vec![OpCode::Load(Var::Var, 1), OpCode::TUPLE_SET(3)])
    );
    assert_eq!(
        assigned(&part(Lvalue::Var(1), ProjectionElem::Index(size(2)))),
        Ok(vec![OpCode::Usize(2), OpCode::Load(Var::Var, 1), OpCode::AssignIndex])
    );
    assert_eq!(assigned(&part(Lvalue::Var(1), ProjectionElem::Other)), Ok(vec![OpCode::TODO]));
}

#[test]
fn right_hand_sides() {
    assert_eq!(computed(&Rvalue::Use(size(1))), Ok(vec![OpCode::Usize(1), OpCode::Use]));
    assert_eq!(
        computed(&Rvalue::BinaryOp(BinOp::Sub, Operand::Consume(Lvalue::Var(0)), size(1))),
        Ok(vec![OpCode::Load(Var::Var, 0), OpCode::Usize(1), OpCode::BINOP(BinOp::Sub)])
    );
    assert_eq!(
        computed(&Rvalue::CheckedBinaryOp(BinOp::Add, size(1), size(2))),
        Ok(vec![OpCode::Usize(1), OpCode::Usize(2), OpCode::CBINOP(BinOp::Add)])
    );
    assert_eq!(
        computed(&Rvalue::Aggregate(AggregateKind::Tuple, vec![size(7), size(8)])),
        Ok(vec![
            OpCode::TUPLE(2),
            OpCode::Usize(7),
            OpCode::TUPLE_ASSIGN(0),
            OpCode::Usize(8),
            OpCode::TUPLE_ASSIGN(1),
        ])
    );
    assert_eq!(computed(&Rvalue::Aggregate(AggregateKind::Tuple, vec![])), Ok(vec![OpCode::TUPLE(0)]));
    assert_eq!(
        computed(&Rvalue::Aggregate(AggregateKind::Vec, vec![size(7), size(8)])),
        Ok(vec![OpCode::Usize(7), OpCode::Usize(8), OpCode::VEC(2)])
    );
    assert_eq!(
        computed(&Rvalue::Aggregate(AggregateKind::Adt { is_struct: true, fields: 3 }, vec![size(7)])),
        Ok(vec![OpCode::TUPLE(3), OpCode::Usize(7), OpCode::TUPLE_ASSIGN(0)])
    );
    assert_eq!(
        computed(&Rvalue::Aggregate(AggregateKind::Adt { is_struct: false, fields: 3 }, vec![size(7)])),
        Ok(vec![])
    );
    assert_eq!(computed(&Rvalue::Aggregate(AggregateKind::Closure, vec![size(7)])), Ok(vec![OpCode::TODO]));
    assert_eq!(
        computed(&Rvalue::Ref(BorrowKind::Shared, Lvalue::Var(1))),
        Ok(vec![OpCode::Load(Var::Var, 1), OpCode::BORROW(BorrowKind::Shared)])
    );
    assert_eq!(
        computed(&Rvalue::Repeat(integer(ConstInt::U8(0)), 5)),
        Ok(vec![OpCode::UnsignedInteger(0), OpCode::Repeat(5)])
    );
    assert_eq!(
        computed(&Rvalue::Len(Lvalue::Var(1))),
        Ok(vec![OpCode::Load(Var::Var, 1), OpCode::Len])
    );
    assert_eq!(computed(&Rvalue::Cast(CastKind::Unsize, size(1))), Ok(vec![OpCode::TODO]));
    assert_eq!(computed(&Rvalue::Cast(CastKind::Misc, size(1))), Err(LowerError::UnsupportedCast));
    assert_eq!(computed(&Rvalue::Other), Ok(vec![OpCode::TODO]));
    assert_eq!(
        computed(&Rvalue::Aggregate(AggregateKind::Vec, vec![size(7), integer(ConstInt::Infer(0)), size(8)])),
        Err(LowerError::UnsupportedConstant)
    );
}

#[test]
fn terminators() {
    assert_eq!(ended(TerminatorKind::Goto { target: 4 }), Ok(vec![OpCode::_Goto(4)]));
    assert_eq!(
        ended(TerminatorKind::If { cond: Operand::Consume(Lvalue::Temp(0)), targets: (1, 2) }),
        Ok(vec![OpCode::Load(Var::Tmp, 0), OpCode::_GotoIf(1), OpCode::_Goto(2)])
    );
    assert_eq!(ended(TerminatorKind::Return), Ok(vec![OpCode::RETURN]));
    assert_eq!(ended(TerminatorKind::Resume), Ok(vec![OpCode::RESUME]));
    assert_eq!(
        ended(TerminatorKind::Call {
            func: function(9),
            args: vec![size(1), Operand::Consume(Lvalue::Var(0)), size(3)],
            destination: Some((Lvalue::Temp(1), 5)),
        }),
        Ok(vec![
            OpCode::Usize(1),
            OpCode::Load(Var::Var, 0),
            OpCode::Usize(3),
            OpCode::ArgCount(3),
            OpCode::LoadFunc(9),
            OpCode::Call,
            OpCode::Store(Var::Tmp, 1),
            OpCode::_Goto(5),
        ])
    );
    assert_eq!(
        ended(TerminatorKind::Call { func: function(9), args: vec![], destination: None }),
        Ok(vec![OpCode::ArgCount(0), OpCode::LoadFunc(9), OpCode::TODO])
    );
    assert_eq!(
        ended(TerminatorKind::Call {
            func: function(9),
            args: vec![],
            destination: Some((Lvalue::Arg(0), 5)),
        }),
        Err(LowerError::AssignToArgument)
    );
    assert_eq!(
        ended(TerminatorKind::Drop { location: Lvalue::Var(0), target: 1 }),
        Ok(vec![OpCode::Load(Var::Var, 0), OpCode::TODO])
    );
    assert_eq!(
        ended(TerminatorKind::Assert { cond: size(1), expected: true, target: 3 }),
        Ok(vec![OpCode::_Goto(3)])
    );
    assert_eq!(ended(TerminatorKind::Other), Ok(vec![OpCode::TODO]));
}

#[test]
fn a_block_is_its_statements_and_its_terminator() {
    let mut gen = BlockGen::new();
    gen.opcodes.push(OpCode::Noop);
    let block = block(
        vec![
            assign(Lvalue::Var(0), Rvalue::Use(size(1))),
            Statement { kind: StatementKind::Other },
            assign(Lvalue::ReturnPointer, Rvalue::Use(Operand::Consume(Lvalue::Var(0)))),
        ],
        TerminatorKind::Return,
    );
    assert_eq!(gen.analyse_block(&block), Ok(()));
    assert_eq!(
        gen.opcodes,
        vec![
            OpCode::Noop,
            OpCode::Usize(1),
            OpCode::Use,
            OpCode::Store(Var::Var, 0),
            OpCode::Load(Var::Var, 0),
            OpCode::Use,
            OpCode::RETURN_POINTER,
            OpCode::RETURN,
        ]
    );
    let mut gen = BlockGen::new();
    assert_eq!(gen.analyse_statement(&Statement { kind: StatementKind::Other }), Ok(()));
    assert!(gen.opcodes.is_empty());
}

#[test]
fn linking_lays_out_the_frame_and_the_jumps() {
    let blocks = vec![
        vec![OpCode::Load(Var::Arg, 1), OpCode::Store(Var::Var, 1), OpCode::_Goto(2)],
        vec![OpCode::Load(Var::Tmp, 0), OpCode::_GotoIf(0), OpCode::_Goto(1)],
        vec![OpCode::Store(Var::Tmp, 2), OpCode::JUMP(0), OpCode::JUMP_IF(7), OpCode::RETURN],
    ];
    assert_eq!(
        optimize_blocks(&blocks, 2, 3, 4),
        Ok(vec![
            OpCode::StackFrame(9),
            OpCode::LoadLocal(1),
            OpCode::StoreLocal(3),
            OpCode::JUMP_REL(4),
            OpCode::LoadLocal(5),
            OpCode::JUMP_REL_IF(-4),
            OpCode::JUMP_REL(-2),
            OpCode::StoreLocal(7),
            OpCode::JUMP_REL(-7),
            OpCode::JUMP_REL_IF(-1),
            OpCode::RETURN,
        ])
    );
    assert_eq!(optimize_blocks(&vec![], 0, 0, 0), Ok(vec![OpCode::StackFrame(0)]));
    assert_eq!(optimize_blocks(&vec![vec![], vec![]], 1, 0, 0), Ok(vec![OpCode::StackFrame(1)]));
}

#[test]
fn linking_fails() {
    assert_eq!(
        optimize_blocks(&vec![vec![OpCode::_Goto(1)]], 0, 0, 0),
        Err(LowerError::MissingBlock)
    );
    assert_eq!(
        optimize_blocks(&vec![vec![OpCode::RETURN, OpCode::_GotoIf(3)]], 0, 0, 0),
        Err(LowerError::MissingBlock)
    );
    assert_eq!(optimize_blocks(&vec![], usize::MAX, 1, 0), Err(LowerError::TooLarge));
    assert_eq!(optimize_blocks(&vec![], usize::MAX, 0, 1), Err(LowerError::TooLarge));
    assert_eq!(optimize_blocks(&vec![], usize::MAX, 0, 0), Ok(vec![OpCode::StackFrame(usize::MAX)]));
    assert_eq!(
        optimize_blocks(&vec![vec![OpCode::Load(Var::Var, 1)]], usize::MAX, 0, 0),
        Err(LowerError::TooLarge)
    );
    assert_eq!(
        optimize_blocks(&vec![vec![OpCode::Store(Var::Tmp, usize::MAX)]], 1, 0, 0),
        Err(LowerError::TooLarge)
    );
    assert_eq!(
        optimize_blocks(&vec![vec![OpCode::JUMP(1 << 31)]], 0, 0, 0),
        Err(LowerError::TooLarge)
    );
    assert_eq!(
        optimize_blocks(&vec![vec![OpCode::JUMP((1 << 31) - 1)]], 0, 0, 0),
        Ok(vec![OpCode::StackFrame(0), OpCode::JUMP_REL(i32::MAX)])
    );
}

const MAIN: FuncId = 1;
const SUM: FuncId = 2;
const MERGE: FuncId = 3;
const OUT: FuncId = 4;

/// A function that returns the empty tuple. A callee's frame starts its own
/// size above the caller's frame pointer, so this one, which the others
/// call, declares temporaries enough to have as many slots as any of them.
fn unit_function(args: usize) -> Mir {
    Mir {
        basic_blocks: vec![block(
            vec![assign(Lvalue::ReturnPointer, Rvalue::Aggregate(AggregateKind::Tuple, vec![]))],
            TerminatorKind::Return,
        )],
        arg_decls: args,
        var_decls: 0,
        temp_decls: 5,
    }
}

/// fn sum(n) { let mut total = 0; let mut left = n;
///             while left > 0 { merge_point(0); total += left; left -= 1 } total }
fn sum_function() -> Mir {
    let total = || Lvalue::Var(0);
    let left = || Lvalue::Var(1);
    Mir {
        basic_blocks: vec![
            block(
                vec![
                    assign(total(), Rvalue::Use(size(0))),
                    assign(left(), Rvalue::Use(Operand::Consume(Lvalue::Arg(0)))),
                ],
                TerminatorKind::Goto { target: 1 },
            ),
            block(
                vec![assign(
                    Lvalue::Temp(0),
                    Rvalue::BinaryOp(BinOp::Gt, Operand::Consume(left()), size(0)),
                )],
                TerminatorKind::If { cond: Operand::Consume(Lvalue::Temp(0)), targets: (2, 4) },
            ),
            block(
                vec![],
                TerminatorKind::Call {
                    func: function(MERGE),
                    args: vec![size(0)],
                    destination: Some((Lvalue::Temp(1), 3)),
                },
            ),
            block(
                vec![
                    assign(
                        total(),
                        Rvalue::BinaryOp(BinOp::Add, Operand::Consume(total()), Operand::Consume(left())),
                    ),
                    assign(left(), Rvalue::BinaryOp(BinOp::Sub, Operand::Consume(left()), size(1))),
                ],
                TerminatorKind::Goto { target: 1 },
            ),
            block(
                vec![assign(Lvalue::ReturnPointer, Rvalue::Use(Operand::Consume(total())))],
                TerminatorKind::Return,
            ),
        ],
        arg_decls: 1,
        var_decls: 2,
        temp_decls: 2,
    }
}

fn main_function(n: u64) -> Mir {
    Mir {
        basic_blocks: vec![
            block(
                vec![],
                TerminatorKind::Call {
                    func: function(SUM),
                    args: vec![size(n)],
                    destination: Some((Lvalue::Temp(0), 1)),
                },
            ),
            block(
                vec![],
                TerminatorKind::Call {
                    func: function(OUT),
                    args: vec![Operand::Consume(Lvalue::Temp(0))],
                    destination: Some((Lvalue::Temp(1), 2)),
                },
            ),
            block(
                vec![assign(Lvalue::ReturnPointer, Rvalue::Aggregate(AggregateKind::Tuple, vec![]))],
                TerminatorKind::Return,
            ),
        ],
        arg_decls: 0,
        var_decls: 0,
        temp_decls: 2,
    }
}

fn sum_context(n: u64) -> Context {
    Context {
        map: vec![
            Item { def_id: MAIN, name: "main".to_string(), krate: 0, mir: main_function(n) },
            Item { def_id: SUM, name: "sum".to_string(), krate: 0, mir: sum_function() },
            Item {
                def_id: MERGE,
                name: "__met_merge_point".to_string(),
                krate: 0,
                mir: unit_function(1),
            },
            Item { def_id: OUT, name: "__out".to_string(), krate: 0, mir: unit_function(1) },
        ],
    }
}

#[test]
fn a_function_becomes_bytecode() {
    let context = sum_context(10);
    assert_eq!(
        context.mir_to_bytecode(&unit_function(1)),
        Ok(vec![OpCode::StackFrame(6), OpCode::TUPLE(0), OpCode::RETURN_POINTER, OpCode::RETURN])
    );
    assert_eq!(
        context.mir_to_bytecode(&sum_function()),
        Ok(vec![
            OpCode::StackFrame(5),
            // block 0
            OpCode::Usize(0),
            OpCode::Use,
            OpCode::StoreLocal(1),
            OpCode::LoadLocal(0),
            OpCode::Use,
            OpCode::StoreLocal(2),
            OpCode::JUMP_REL(1),
            // block 1, at 8
            OpCode::LoadLocal(2),
            OpCode::Usize(0),
            OpCode::BINOP(BinOp::Gt),
            OpCode::StoreLocal(3),
            OpCode::LoadLocal(3),
            OpCode::JUMP_REL_IF(2),
            OpCode::JUMP_REL(16),
            // block 2, at 15
            OpCode::Usize(0),
            OpCode::ArgCount(1),
            OpCode::LoadFunc(MERGE),
            OpCode::Call,
            OpCode::StoreLocal(4),
            OpCode::JUMP_REL(1),
            // block 3, at 21
            OpCode::LoadLocal(1),
            OpCode::LoadLocal(2),
            OpCode::BINOP(BinOp::Add),
            OpCode::StoreLocal(1),
            OpCode::LoadLocal(2),
            OpCode::Usize(1),
            OpCode::BINOP(BinOp::Sub),
            OpCode::StoreLocal(2),
            OpCode::JUMP_REL(-21),
            // block 4, at 30
            OpCode::LoadLocal(1),
            OpCode::Use,
            OpCode::RETURN_POINTER,
            OpCode::RETURN,
        ])
    );
}

#[test]
fn a_program_is_generated_and_run() {
    let (program, main) = generate_bytecode(&sum_context(10)).unwrap();
    assert_eq!(main, MAIN);
    assert_eq!(program.is_intrinsic(MERGE), Some(Intrinsic::MergePoint));
    assert_eq!(program.is_intrinsic(OUT), Some(Intrinsic::Out));
    assert_eq!(program.is_intrinsic(SUM), None);
    assert_eq!(program.is_intrinsic(MAIN), None);
    assert_eq!(program.internals.get(&OUT).map(|name| name.as_str()), Some("out"));
    assert_eq!(program.krates.len(), 4);
    let (machine, outcome) = interpret(&program, main, 100_000);
    assert_eq!(outcome, ExitOutcome::Finished);
    assert_eq!(machine.output(), &vec![Output::Line(55)]);
    assert_eq!(machine.jit().traces_len(), 1);
    let trace = machine.jit().trace(0).unwrap();
    assert_eq!(trace.first(), Some(&OpCode::StoreLocal(4)));
    assert_eq!(trace.last(), Some(&OpCode::Call));
}

#[test]
fn a_program_needs_an_entry() {
    let mut context = sum_context(10);
    context.map.remove(0);
    assert_eq!(generate_bytecode(&context).err(), Some(LowerError::NoMain));
    // another crate's main is no entry
    context.map.push(Item { def_id: 9, name: "main".to_string(), krate: 1, mir: unit_function(0) });
    assert_eq!(generate_bytecode(&context).err(), Some(LowerError::NoMain));
    context.map.push(Item { def_id: 8, name: "main".to_string(), krate: 0, mir: unit_function(0) });
    assert_eq!(generate_bytecode(&context).map(|(_, main)| main).ok(), Some(8));
    assert_eq!(generate_bytecode(&Context { map: vec![] }).err(), Some(LowerError::NoMain));
}

#[test]
fn a_program_with_a_function_that_cannot_be_lowered() {
    let mut context = sum_context(10);
    context.map[1].mir.basic_blocks[4].terminator.kind = TerminatorKind::Goto { target: 5 };
    assert_eq!(generate_bytecode(&context).err(), Some(LowerError::MissingBlock));
    let mut context = sum_context(10);
    context.map[3].mir.basic_blocks[0].statements[0] =
        assign(Lvalue::Var(0), Rvalue::Cast(CastKind::ReifyFnPointer, size(0)));
    assert_eq!(generate_bytecode(&context).err(), Some(LowerError::UnsupportedCast));
}

#[test]
fn marked_names() {
    let named = |name: &str| {
        let context = Context {
            map: vec![
                Item { def_id: 1, name: "main".to_string(), krate: 0, mir: unit_function(0) },
                Item { def_id: 2, name: name.to_string(), krate: 0, mir: unit_function(0) },
            ],
        };
        let (program, _) = generate_bytecode(&context).unwrap();
        program.internals.get(&2).cloned()
    };
    assert_eq!(named("__print"), Some("print".to_string()));
    assert_eq!(named("__"), Some("".to_string()));
    assert_eq!(named("___x"), Some("_x".to_string()));
    assert_eq!(named("_print"), None);
    assert_eq!(named("print__"), None);
    assert_eq!(named(""), None);
    assert_eq!(named("__\u{e9}t\u{e9}"), Some("\u{e9}t\u{e9}".to_string()));
}
