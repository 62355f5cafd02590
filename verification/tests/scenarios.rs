use moss::mossc::bytecode::{BinOp, FuncId, Function, OpCode};
use moss::mossc::interpret::{interpret, ExitOutcome, Interpreter};
use moss::mossc::jit::HOT_LOOP;
use moss::mossc::machine::{Output, Step};
use moss::mossc::program::Program;
use moss::mossc::stacks::Stacks;
use moss::mossc::value::{StackData, WrappedValue};

const MAIN: FuncId = 1;
const SUM: FuncId = 2;
const MERGE: FuncId = 3;
const OUT: FuncId = 4;

fn sum_code() -> Function {
    vec![
        OpCode::StackFrame(3),
        OpCode::Usize(0),
        OpCode::StoreLocal(1),
        // loop head
        OpCode::LoadLocal(0),
        OpCode::Usize(0),
        OpCode::BINOP(BinOp::Gt),
        OpCode::JUMP_REL_IF(2),
        OpCode::JUMP_REL(14),
        // loop body
        OpCode::Usize(3),
        OpCode::ArgCount(1),
        OpCode::LoadFunc(MERGE),
        OpCode::Call,
        OpCode::LoadLocal(1),
        OpCode::LoadLocal(0),
        OpCode::BINOP(BinOp::Add),
        OpCode::StoreLocal(1),
        OpCode::LoadLocal(0),
        OpCode::Usize(1),
        OpCode::BINOP(BinOp::Sub),
        OpCode::StoreLocal(0),
        OpCode::JUMP_REL(-17),
        // after the loop
        OpCode::LoadLocal(1),
        OpCode::RETURN,
    ]
}

fn sum_program(n: usize) -> Program {
    let mut program = Program::new();
    assert!(program.insert(
        MAIN,
        vec![
            OpCode::StackFrame(1),
            OpCode::Usize(n),
            OpCode::ArgCount(1),
            OpCode::LoadFunc(SUM),
            OpCode::Call,
            OpCode::StoreLocal(0),
            OpCode::LoadLocal(0),
            OpCode::ArgCount(1),
            OpCode::LoadFunc(OUT),
            OpCode::Call,
            OpCode::RETURN,
        ],
    ));
    assert!(program.insert(SUM, sum_code()));
    // a callee's frame starts its own size above the caller's frame pointer:
    // the merge point, which the loop calls, declares as many slots as the loop
    assert!(program.insert(MERGE, vec![OpCode::StackFrame(3), OpCode::RETURN]));
    assert!(program.insert(OUT, vec![OpCode::StackFrame(1), OpCode::RETURN]));
    program.add_intrinsic(MERGE, "met_merge_point".to_string());
    program.add_intrinsic(OUT, "out".to_string());
    program
}

/// Steps the machine to its end; gives the number of failed guards and of
/// steps that replay made.
fn drive(machine: &mut Interpreter, program: &Program) -> (usize, usize) {
    let mut failed = 0;
    let mut replayed = 0;
    for _ in 0..100_000 {
        let in_replay = matches!(machine.control().mode, moss::mossc::machine::Mode::Replay { .. });
        match machine.step(program) {
            Step::Continue => {}
            Step::GuardFailed(_) => failed += 1,
            Step::Finished => return (failed, replayed),
            other => panic!("the run stopped: {:?}", other),
        }
        if in_replay {
            replayed += 1;
        }
    }
    panic!("the run did not end");
}

#[test]
fn sum_of_ten_in_the_general_loop() {
    let program = sum_program(10);
    let mut machine = Interpreter::new(MAIN, false);
    let (failed, replayed) = drive(&mut machine, &program);
    assert_eq!(machine.output(), &vec![Output::Line(55)]);
    assert_eq!(failed, 0);
    assert_eq!(replayed, 0);
    assert_eq!(machine.jit().traces_len(), 0);
}

#[test]
fn sum_of_ten_with_a_trace() {
    let program = sum_program(10);
    let mut machine = Interpreter::new(MAIN, true);
    let (failed, replayed) = drive(&mut machine, &program);
    assert_eq!(machine.output(), &vec![Output::Line(55)]);
    assert_eq!(failed, 1);
    assert!(replayed > 0);
    assert_eq!(machine.jit().traces_len(), 1);
    let trace = machine.jit().trace(3).expect("the loop has a trace");
    assert_eq!(trace.last(), Some(&OpCode::Call));
    assert_eq!(trace.iter().filter(|op| matches!(op, OpCode::Guard(_))).count(), 1);
    assert!(!trace.iter().any(|op| matches!(op, OpCode::JUMP_REL(_) | OpCode::JUMP_REL_IF(_))));
}

#[test]
fn a_loop_that_stays_cold_is_not_traced() {
    assert_eq!(HOT_LOOP, 5);
    let program = sum_program(5);
    let mut machine = Interpreter::new(MAIN, true);
    let mut recorded = false;
    loop {
        match machine.step(&program) {
            Step::Continue => recorded |= machine.jit().is_tracing(),
            Step::Finished => break,
            other => panic!("the run stopped: {:?}", other),
        }
    }
    assert!(!recorded);
    assert_eq!(machine.output(), &vec![Output::Line(15)]);
    assert_eq!(machine.jit().traces_len(), 0);
}

#[test]
fn a_recording_that_leaves_its_function_is_dropped() {
    let program = sum_program(6);
    let mut machine = Interpreter::new(MAIN, true);
    let mut recorded = false;
    loop {
        match machine.step(&program) {
            Step::Continue => recorded |= machine.jit().is_tracing(),
            Step::Finished => break,
            other => panic!("the run stopped: {:?}", other),
        }
    }
    assert!(recorded);
    assert!(!machine.jit().is_tracing());
    assert_eq!(machine.output(), &vec![Output::Line(21)]);
    assert_eq!(machine.jit().traces_len(), 0);
}

#[test]
fn a_compiled_loop_is_not_recorded_again() {
    let program = sum_program(40);
    let mut machine = Interpreter::new(MAIN, true);
    let mut compiled_at = None;
    let mut steps = 0;
    let mut failed = 0;
    loop {
        steps += 1;
        match machine.step(&program) {
            Step::Continue => {}
            Step::GuardFailed(guard) => {
                failed += 1;
                assert_eq!((guard.expected, guard.recovery, guard.pc), (true, SUM, 6));
            }
            Step::Finished => break,
            other => panic!("the run stopped: {:?}", other),
        }
        if machine.jit().traces_len() == 1 {
            let trace = machine.jit().trace(3).unwrap();
            match &compiled_at {
                None => compiled_at = Some((steps, trace)),
                Some((_, first)) => assert_eq!(first, &trace),
            }
            assert!(!machine.jit().is_tracing());
        }
    }
    assert!(compiled_at.is_some());
    assert_eq!(failed, 1);
    assert_eq!(machine.jit().traces_len(), 1);
    assert_eq!(machine.output(), &vec![Output::Line(820)]);
}

#[test]
fn tracing_does_not_change_what_a_program_does() {
    for n in [0, 1, 5, 6, 7, 8, 9, 10, 11, 25] {
        let program = sum_program(n);
        let mut plain = Interpreter::new(MAIN, false);
        let mut traced = Interpreter::new(MAIN, true);
        drive(&mut plain, &program);
        drive(&mut traced, &program);
        assert_eq!(plain.output(), traced.output());
        assert_eq!(plain.output(), &vec![Output::Line(n * (n + 1) / 2)]);
        assert_eq!(plain.stacks().depth(), traced.stacks().depth());
        assert_eq!(plain.stacks().frame_len(), traced.stacks().frame_len());
        for slot in 0..plain.stacks().frame_len() {
            assert_eq!(plain.stacks().frame(slot), traced.stacks().frame(slot));
        }
    }
}

#[test]
fn interpret_runs_to_the_end() {
    let program = sum_program(10);
    let (machine, outcome) = interpret(&program, MAIN, 100_000);
    assert_eq!(outcome, ExitOutcome::Finished);
    assert!(machine.is_done());
    assert_eq!(machine.output(), &vec![Output::Line(55)]);
}

#[test]
fn interpret_stops_when_the_fuel_is_gone() {
    let program = sum_program(10);
    let (machine, outcome) = interpret(&program, MAIN, 20);
    assert_eq!(outcome, ExitOutcome::OutOfFuel);
    assert!(!machine.is_done());
}

#[test]
fn interpret_reports_a_function_that_the_store_lacks() {
    let mut program = Program::new();
    program.insert(
        MAIN,
        vec![OpCode::StackFrame(0), OpCode::ArgCount(0), OpCode::LoadFunc(9), OpCode::Call, OpCode::RETURN],
    );
    let (_, outcome) = interpret(&program, MAIN, 100);
    assert_eq!(outcome, ExitOutcome::Missing(9));
}

fn fresh_frame(size: usize) -> Stacks {
    let mut stacks = Stacks::new();
    stacks.push(StackData::ArgCount(0));
    stacks.o_stackframe(size).unwrap();
    stacks
}

#[test]
fn tuple_field_read_through_an_address() {
    let mut stacks = fresh_frame(1);
    stacks.execute(OpCode::TUPLE(3)).unwrap();
    for (index, value) in [7usize, 8, 9].into_iter().enumerate() {
        stacks.execute(OpCode::Usize(value)).unwrap();
        stacks.execute(OpCode::TUPLE_ASSIGN(index)).unwrap();
    }
    stacks.execute(OpCode::StoreLocal(0)).unwrap();
    stacks.execute(OpCode::LoadLocal(0)).unwrap();
    stacks.execute(OpCode::TUPLE_GET(1)).unwrap();
    assert_eq!(stacks.pop_stack_value(), Ok(WrappedValue::Usize(8)));
    assert_eq!(stacks.depth(), 0);
}

#[test]
fn array_by_repetition() {
    let mut stacks = fresh_frame(1);
    stacks.execute(OpCode::Bool(true)).unwrap();
    stacks.execute(OpCode::Repeat(4)).unwrap();
    stacks.execute(OpCode::StoreLocal(0)).unwrap();
    assert_eq!(
        stacks.frame(0),
        Some(WrappedValue::Array(vec![
            WrappedValue::Bool(true),
            WrappedValue::Bool(true),
            WrappedValue::Bool(true),
            WrappedValue::Bool(true),
        ]))
    );
    stacks.execute(OpCode::LoadLocal(0)).unwrap();
    stacks.execute(OpCode::Len).unwrap();
    assert_eq!(stacks.pop_stack_value(), Ok(WrappedValue::Usize(4)));
    for index in 0..4 {
        stacks.execute(OpCode::Usize(index)).unwrap();
        stacks.execute(OpCode::LoadLocal(0)).unwrap();
        stacks.execute(OpCode::GetIndex).unwrap();
        assert_eq!(stacks.pop_stack_value(), Ok(WrappedValue::Bool(true)));
    }
}

#[test]
fn the_machine_is_reached_by_short_paths() {
    let program: moss::mossc::Program = sum_program(3);
    let code: &moss::mossc::Function = program.get_func(SUM).unwrap();
    assert_eq!(code[0], moss::mossc::OpCode::StackFrame(3));
    let (machine, _) = moss::mossc::interpret::interpret(&program, MAIN, 10_000);
    assert_eq!(
        machine.stacks().load(moss::mossc::interpret::Address::StackLocal(0)).map(|cell| cell.value),
        Ok(WrappedValue::Usize(6))
    );
}
