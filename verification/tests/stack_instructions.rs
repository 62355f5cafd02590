use moss::mossc::bytecode::{BinOp, BorrowKind, OpCode};
use moss::mossc::stacks::Stacks;
use moss::mossc::trap::Trap;
use moss::mossc::value::{Address, StackCell, StackData, WrappedTuple, WrappedValue};

fn frame_of(size: usize, args: &[WrappedValue]) -> Stacks {
    let mut stacks = Stacks::new();
    for arg in args {
        stacks.push(StackData::Value(arg.clone()));
    }
    stacks.push(StackData::ArgCount(args.len()));
    stacks.o_stackframe(size).unwrap();
    stacks
}

fn run(stacks: &mut Stacks, code: &[OpCode]) {
    for op in code {
        stacks.execute(*op).unwrap();
    }
}

#[test]
fn arguments_arrive_in_the_order_they_were_pushed() {
    let stacks = frame_of(5, &[WrappedValue::Usize(1), WrappedValue::I64(-2), WrappedValue::Bool(true)]);
    assert_eq!(stacks.frame(0), Some(WrappedValue::Usize(1)));
    assert_eq!(stacks.frame(1), Some(WrappedValue::I64(-2)));
    assert_eq!(stacks.frame(2), Some(WrappedValue::Bool(true)));
    assert_eq!(stacks.frame(3), Some(WrappedValue::Absent));
    assert_eq!(stacks.frame(4), Some(WrappedValue::Absent));
    assert_eq!(stacks.frame(5), None);
    assert_eq!(stacks.depth(), 0);
    assert_eq!(stacks.frame_len(), 5);
}

#[test]
fn a_prologue_without_arguments_clears_its_window() {
    let mut stacks = frame_of(2, &[WrappedValue::Usize(1), WrappedValue::Usize(2)]);
    stacks.push(StackData::ArgCount(0));
    stacks.o_stackframe(2).unwrap();
    assert_eq!(stacks.frame(0), Some(WrappedValue::Absent));
    assert_eq!(stacks.frame(1), Some(WrappedValue::Absent));
    assert_eq!(stacks.frame_len(), 2);
}

#[test]
fn a_prologue_keeps_what_lies_outside_its_window() {
    let mut stacks = frame_of(2, &[WrappedValue::Usize(1), WrappedValue::Usize(2)]);
    run(&mut stacks, &[OpCode::LoadLocal(1), OpCode::ArgCount(1), OpCode::LoadFunc(7)]);
    stacks.enter(2).unwrap();
    assert_eq!(stacks.frame_pointer(), 2);
    stacks.o_stackframe(3).unwrap();
    assert_eq!(stacks.frame(0), Some(WrappedValue::Usize(1)));
    assert_eq!(stacks.frame(1), Some(WrappedValue::Usize(2)));
    assert_eq!(stacks.frame(2), Some(WrappedValue::Usize(2)));
    assert_eq!(stacks.frame(3), Some(WrappedValue::Absent));
    assert_eq!(stacks.frame(4), Some(WrappedValue::Absent));
    assert_eq!(stacks.frame_len(), 5);
    stacks.o_return().unwrap();
    assert_eq!(stacks.frame_pointer(), 0);
    assert_eq!(stacks.frame_len(), 5);
}

#[test]
fn prologue_traps() {
    let mut stacks = Stacks::new();
    assert_eq!(stacks.o_stackframe(1), Err(Trap::MissingArgCount));
    stacks.push(StackData::Value(WrappedValue::Usize(1)));
    assert_eq!(stacks.o_stackframe(1), Err(Trap::MissingArgCount));
    stacks.push(StackData::ArgCount(2));
    assert_eq!(stacks.o_stackframe(1), Err(Trap::TooManyArguments));
    assert_eq!(stacks.o_stackframe(2), Err(Trap::StackUnderflow));
    assert_eq!(stacks.depth(), 2);
    let mut stacks = Stacks::new();
    stacks.push(StackData::Frame(3));
    stacks.push(StackData::ArgCount(1));
    assert_eq!(stacks.o_stackframe(1), Err(Trap::NotAValue));
    assert_eq!(stacks.depth(), 2);
    assert_eq!(stacks.frame_len(), 0);
}

#[test]
fn locals_load_lazily_and_store_eagerly() {
    let mut stacks = frame_of(2, &[WrappedValue::Usize(5)]);
    run(&mut stacks, &[OpCode::LoadLocal(0)]);
    assert_eq!(stacks.entry(0), Some(StackData::Pointer(Address::StackLocal(0))));
    run(&mut stacks, &[OpCode::Usize(6), OpCode::StoreLocal(0)]);
    // the address that was loaded before the store sees the store
    run(&mut stacks, &[OpCode::StoreLocal(1)]);
    assert_eq!(stacks.frame(1), Some(WrappedValue::Usize(6)));
    assert_eq!(stacks.depth(), 0);
}

#[test]
fn store_traps() {
    let mut stacks = frame_of(1, &[]);
    assert_eq!(stacks.o_store_local(0), Err(Trap::StackUnderflow));
    stacks.push(StackData::Value(WrappedValue::Usize(1)));
    assert_eq!(stacks.o_store_local(1), Err(Trap::BadSlot));
    assert_eq!(stacks.o_store_local(usize::MAX), Err(Trap::BadSlot));
    assert_eq!(stacks.depth(), 1);
    let mut stacks = frame_of(1, &[]);
    stacks.push(StackData::Pointer(Address::StackLocal(9)));
    assert_eq!(stacks.o_store_local(0), Err(Trap::BadSlot));
    let mut stacks = frame_of(1, &[]);
    stacks.push(StackData::ArgCount(0));
    assert_eq!(stacks.o_store_local(0), Err(Trap::NotAValue));
    let mut stacks = frame_of(1, &[]);
    stacks.push(StackData::Absent);
    assert_eq!(stacks.o_store_local(0), Err(Trap::NotAValue));
}

#[test]
fn address_overflow_traps() {
    let mut stacks = Stacks::new();
    stacks.push(StackData::ArgCount(0));
    stacks.o_stackframe(0).unwrap();
    stacks.push(StackData::Pointer(Address::StaticFunc(1)));
    stacks.enter(usize::MAX).unwrap();
    assert_eq!(stacks.frame_pointer(), usize::MAX);
    assert_eq!(stacks.o_load_local(1), Err(Trap::AddressOverflow));
    stacks.push(StackData::ArgCount(0));
    assert_eq!(stacks.o_stackframe(1), Err(Trap::AddressOverflow));
    stacks.push(StackData::Pointer(Address::StaticFunc(1)));
    assert_eq!(stacks.enter(1), Err(Trap::AddressOverflow));
}

#[test]
fn binary_operator_on_the_stack() {
    let mut stacks = frame_of(1, &[WrappedValue::Usize(10)]);
    run(&mut stacks, &[OpCode::LoadLocal(0), OpCode::Usize(3), OpCode::BINOP(BinOp::Sub)]);
    assert_eq!(stacks.pop_stack_value(), Ok(WrappedValue::Usize(7)));
    run(&mut stacks, &[OpCode::SignedInteger(1), OpCode::UnsignedInteger(1)]);
    assert_eq!(stacks.o_binop(BinOp::Add), Err(Trap::TypeMismatch));
    assert_eq!(stacks.depth(), 2);
    let mut stacks = frame_of(1, &[]);
    stacks.push(StackData::Value(WrappedValue::Usize(1)));
    assert_eq!(stacks.o_binop(BinOp::Add), Err(Trap::StackUnderflow));
}

#[test]
fn tuple_is_built_field_by_field() {
    let mut stacks = frame_of(1, &[]);
    run(&mut stacks, &[OpCode::TUPLE(2)]);
    assert_eq!(
        stacks.entry(0),
        Some(StackData::Value(WrappedValue::Tuple(WrappedTuple {
            data: vec![WrappedValue::Absent, WrappedValue::Absent]
        })))
    );
    run(&mut stacks, &[OpCode::Bool(true), OpCode::TUPLE_ASSIGN(1)]);
    assert_eq!(
        stacks.pop_stack_value(),
        Ok(WrappedValue::Tuple(WrappedTuple {
            data: vec![WrappedValue::Absent, WrappedValue::Bool(true)]
        }))
    );
}

#[test]
fn tuple_traps() {
    let mut stacks = frame_of(1, &[]);
    run(&mut stacks, &[OpCode::TUPLE(2), OpCode::Usize(1)]);
    assert_eq!(stacks.o_tuple_assign(2), Err(Trap::IndexOutOfRange));
    run(&mut stacks, &[OpCode::Usize(1)]);
    assert_eq!(stacks.o_tuple_assign(0), Err(Trap::NotATuple));
    let mut stacks = frame_of(1, &[]);
    run(&mut stacks, &[OpCode::Usize(1)]);
    assert_eq!(stacks.o_tuple_assign(0), Err(Trap::StackUnderflow));
    assert_eq!(stacks.o_tuple_get(0), Err(Trap::NotAnAddress));
    run(&mut stacks, &[OpCode::LoadFunc(3)]);
    assert_eq!(stacks.o_tuple_get(0), Err(Trap::BadAddress));
    assert_eq!(stacks.o_tuple_set(0), Err(Trap::BadAddress));
    let mut stacks = frame_of(1, &[WrappedValue::Usize(4)]);
    run(&mut stacks, &[OpCode::Usize(1), OpCode::LoadLocal(0)]);
    assert_eq!(stacks.o_tuple_set(0), Err(Trap::NotATuple));
    stacks.execute(OpCode::TUPLE_GET(0)).unwrap();
    assert_eq!(stacks.pop_stack_value(), Err(Trap::NotATuple));
}

#[test]
fn a_written_field_is_seen_through_its_address() {
    let mut stacks = frame_of(1, &[]);
    run(&mut stacks, &[OpCode::TUPLE(3), OpCode::StoreLocal(0)]);
    // two addresses of the same field, taken before the write
    run(&mut stacks, &[OpCode::LoadLocal(0), OpCode::TUPLE_GET(2)]);
    run(&mut stacks, &[OpCode::LoadLocal(0), OpCode::TUPLE_GET(2)]);
    stacks.o_store_local(5).unwrap_err();
    run(&mut stacks, &[OpCode::SignedInteger(-4), OpCode::LoadLocal(0), OpCode::TUPLE_SET(2)]);
    assert_eq!(stacks.pop_stack_value(), Ok(WrappedValue::I64(-4)));
    run(&mut stacks, &[OpCode::SignedInteger(9), OpCode::LoadLocal(0), OpCode::TUPLE_SET(2)]);
    assert_eq!(stacks.pop_stack_value(), Ok(WrappedValue::I64(9)));
    assert_eq!(
        stacks.load(Address::StackComplex(0, 2)),
        Ok(StackCell { address: Address::StackComplex(0, 2), value: WrappedValue::I64(9) })
    );
    assert_eq!(stacks.load(Address::StackComplex(0, 3)), Err(Trap::IndexOutOfRange));
    assert_eq!(stacks.load(Address::StackComplex(1, 0)), Err(Trap::BadSlot));
    assert_eq!(stacks.load(Address::StackLocal(1)), Err(Trap::BadSlot));
}

#[test]
fn array_from_entries_keeps_their_order() {
    let mut stacks = frame_of(1, &[]);
    run(&mut stacks, &[OpCode::Usize(1), OpCode::Usize(2), OpCode::Usize(3), OpCode::VEC(3)]);
    assert_eq!(
        stacks.pop_stack_value(),
        Ok(WrappedValue::Array(vec![
            WrappedValue::Usize(1),
            WrappedValue::Usize(2),
            WrappedValue::Usize(3)
        ]))
    );
    run(&mut stacks, &[OpCode::VEC(0)]);
    assert_eq!(stacks.pop_stack_value(), Ok(WrappedValue::Array(vec![])));
    run(&mut stacks, &[OpCode::Usize(1)]);
    assert_eq!(stacks.o_vec(2), Err(Trap::StackUnderflow));
    run(&mut stacks, &[OpCode::ArgCount(0)]);
    assert_eq!(stacks.o_vec(2), Err(Trap::NotAValue));
    assert_eq!(stacks.depth(), 2);
}

#[test]
fn array_elements_are_read_and_written_in_place() {
    let mut stacks = frame_of(2, &[]);
    run(&mut stacks, &[OpCode::Usize(0), OpCode::Repeat(3), OpCode::StoreLocal(0)]);
    // array[1] = 5
    run(&mut stacks, &[OpCode::Usize(5), OpCode::Usize(1), OpCode::LoadLocal(0), OpCode::AssignIndex]);
    assert_eq!(stacks.depth(), 0);
    run(&mut stacks, &[OpCode::Usize(1), OpCode::LoadLocal(0), OpCode::GetIndex]);
    assert_eq!(stacks.pop_stack_value(), Ok(WrappedValue::Usize(5)));
    run(&mut stacks, &[OpCode::Usize(0), OpCode::LoadLocal(0), OpCode::GetIndex]);
    assert_eq!(stacks.pop_stack_value(), Ok(WrappedValue::Usize(0)));
    // out of range
    run(&mut stacks, &[OpCode::Usize(3), OpCode::LoadLocal(0)]);
    assert_eq!(stacks.o_get_index(), Err(Trap::IndexOutOfRange));
    run(&mut stacks, &[OpCode::Usize(9)]);
    assert_eq!(stacks.o_assign_index(), Err(Trap::NotAnAddress));
}

#[test]
fn array_in_a_tuple_field() {
    let mut stacks = frame_of(1, &[]);
    run(
        &mut stacks,
        &[
            OpCode::TUPLE(2),
            OpCode::Bool(false),
            OpCode::Repeat(2),
            OpCode::TUPLE_ASSIGN(1),
            OpCode::StoreLocal(0),
        ],
    );
    run(
        &mut stacks,
        &[OpCode::Bool(true), OpCode::Usize(1), OpCode::LoadLocal(0), OpCode::TUPLE_GET(1), OpCode::AssignIndex],
    );
    assert_eq!(
        stacks.frame(0),
        Some(WrappedValue::Tuple(WrappedTuple {
            data: vec![
                WrappedValue::Absent,
                WrappedValue::Array(vec![WrappedValue::Bool(false), WrappedValue::Bool(true)])
            ]
        }))
    );
    run(&mut stacks, &[OpCode::Usize(1), OpCode::LoadLocal(0), OpCode::TUPLE_GET(1), OpCode::GetIndex]);
    assert_eq!(stacks.pop_stack_value(), Ok(WrappedValue::Bool(true)));
    run(&mut stacks, &[OpCode::LoadLocal(0), OpCode::TUPLE_GET(1), OpCode::Len]);
    assert_eq!(stacks.pop_stack_value(), Ok(WrappedValue::Usize(2)));
    // field 0 holds no array
    run(&mut stacks, &[OpCode::Usize(0), OpCode::LoadLocal(0), OpCode::TUPLE_GET(0)]);
    assert_eq!(stacks.o_get_index(), Err(Trap::NotAnArray));
}

#[test]
fn array_traps() {
    let mut stacks = frame_of(1, &[WrappedValue::Usize(3)]);
    run(&mut stacks, &[OpCode::LoadLocal(0)]);
    assert_eq!(stacks.o_len(), Err(Trap::NotAnArray));
    run(&mut stacks, &[OpCode::StoreLocal(0)]);
    run(&mut stacks, &[OpCode::Bool(true), OpCode::LoadLocal(0)]);
    assert_eq!(stacks.o_get_index(), Err(Trap::NotAnIndex));
    run(&mut stacks, &[OpCode::StoreLocal(0), OpCode::StoreLocal(0)]);
    run(&mut stacks, &[OpCode::Usize(0), OpCode::LoadFunc(2)]);
    assert_eq!(stacks.o_get_index(), Err(Trap::BadAddress));
    assert_eq!(stacks.o_len(), Err(Trap::NotAnArray));
    let mut stacks = frame_of(1, &[]);
    assert_eq!(stacks.o_len(), Err(Trap::StackUnderflow));
    assert_eq!(stacks.o_repeat(1), Err(Trap::StackUnderflow));
    assert_eq!(stacks.o_get_index(), Err(Trap::StackUnderflow));
    assert_eq!(stacks.o_assign_index(), Err(Trap::StackUnderflow));
}

#[test]
fn borrow_and_dereference() {
    let mut stacks = frame_of(2, &[WrappedValue::Usize(3)]);
    run(&mut stacks, &[OpCode::LoadLocal(0), OpCode::BORROW(BorrowKind::Mut)]);
    assert_eq!(
        stacks.entry(0),
        Some(StackData::Value(WrappedValue::Address(Address::StackLocal(0))))
    );
    run(&mut stacks, &[OpCode::StoreLocal(1)]);
    // *slot1 = 8
    run(&mut stacks, &[OpCode::Usize(8), OpCode::LoadLocal(1), OpCode::DEREF_STORE]);
    assert_eq!(stacks.frame(0), Some(WrappedValue::Usize(8)));
    run(&mut stacks, &[OpCode::LoadLocal(1), OpCode::DEREF]);
    assert_eq!(stacks.entry(0), Some(StackData::Pointer(Address::StackLocal(0))));
    assert_eq!(stacks.pop_stack_value(), Ok(WrappedValue::Usize(8)));
}

#[test]
fn borrow_and_dereference_trap() {
    let mut stacks = frame_of(1, &[WrappedValue::Usize(3)]);
    assert_eq!(stacks.o_borrow(), Err(Trap::StackUnderflow));
    assert_eq!(stacks.o_deref(), Err(Trap::StackUnderflow));
    assert_eq!(stacks.o_deref_store(), Err(Trap::StackUnderflow));
    run(&mut stacks, &[OpCode::Usize(1)]);
    assert_eq!(stacks.o_borrow(), Err(Trap::NotAnAddress));
    assert_eq!(stacks.o_deref(), Err(Trap::NotAnAddress));
    run(&mut stacks, &[OpCode::LoadFunc(1)]);
    assert_eq!(stacks.o_deref(), Err(Trap::BadAddress));
    stacks.push(StackData::Value(WrappedValue::Address(Address::StackLocal(7))));
    assert_eq!(stacks.o_deref_store(), Err(Trap::BadSlot));
}

#[test]
fn markers_are_no_values() {
    let stacks = Stacks::new();
    assert_eq!(stacks.to_value(&StackData::ArgCount(1)), Err(Trap::NotAValue));
    assert_eq!(stacks.to_value(&StackData::Frame(1)), Err(Trap::NotAValue));
    assert_eq!(stacks.to_value(&StackData::Absent), Err(Trap::NotAValue));
    assert_eq!(
        stacks.to_value(&StackData::Pointer(Address::StaticFunc(4))),
        Ok(WrappedValue::Address(Address::StaticFunc(4)))
    );
    assert_eq!(stacks.to_value(&StackData::Value(WrappedValue::Absent)), Ok(WrappedValue::Absent));
    assert_eq!(StackData::ArgCount(1).unwrap_value(), Err(Trap::NotAValue));
    assert_eq!(StackData::Value(WrappedValue::Bool(true)).unwrap_value(), Ok(WrappedValue::Bool(true)));
    assert_eq!(StackData::ArgCount(1).unwrap_address(), Err(Trap::NotAnAddress));
    assert_eq!(
        StackData::Pointer(Address::StackLocal(2)).unwrap_address(),
        Ok(Address::StackLocal(2))
    );
    assert_eq!(WrappedValue::Usize(3).unwrap_usize(), Ok(3));
    assert_eq!(WrappedValue::U64(3).unwrap_usize(), Err(Trap::NotAnIndex));
    let mut value = WrappedValue::Tuple(WrappedTuple::with_size(2));
    value.unwrap_tuple().unwrap().data[1] = WrappedValue::Bool(true);
    assert_eq!(
        value,
        WrappedValue::Tuple(WrappedTuple { data: vec![WrappedValue::Absent, WrappedValue::Bool(true)] })
    );
    assert_eq!(WrappedValue::Usize(1).unwrap_tuple().err(), Some(Trap::NotATuple));
}

#[test]
fn conditions_and_guards() {
    let mut stacks = frame_of(1, &[WrappedValue::Bool(true)]);
    assert_eq!(stacks.o_condition(), Err(Trap::StackUnderflow));
    run(&mut stacks, &[OpCode::LoadLocal(0)]);
    assert_eq!(stacks.condition(), Ok(true));
    assert_eq!(stacks.depth(), 1);
    assert_eq!(stacks.o_guard(true), Ok(false));
    assert_eq!(stacks.depth(), 0);
    run(&mut stacks, &[OpCode::LoadLocal(0)]);
    assert_eq!(stacks.o_guard(false), Ok(true));
    run(&mut stacks, &[OpCode::Usize(1)]);
    assert_eq!(stacks.o_guard(true), Err(Trap::NotABool));
    assert_eq!(stacks.depth(), 1);
}

#[test]
fn instructions_that_the_stacks_do_not_execute() {
    let mut stacks = frame_of(1, &[]);
    for op in [
        OpCode::Noop,
        OpCode::Consume,
        OpCode::Pop,
        OpCode::RESUME,
        OpCode::TODO,
        OpCode::Static(1),
        OpCode::CBINOP(BinOp::Add),
        OpCode::_Goto(0),
        OpCode::Debug(1),
    ] {
        assert_eq!(stacks.execute(op), Err(Trap::Unsupported));
    }
    assert_eq!(stacks.execute(OpCode::Use), Ok(()));
    assert_eq!(stacks.execute(OpCode::RETURN_POINTER), Ok(()));
    assert_eq!(stacks.depth(), 0);
}

#[test]
fn a_return_needs_a_saved_frame_pointer() {
    let mut stacks = frame_of(1, &[]);
    assert_eq!(stacks.o_return(), Err(Trap::MissingFramePointer));
    assert_eq!(stacks.frame_pointer(), 0);
    stacks.push(StackData::Pointer(Address::StaticFunc(1)));
    stacks.enter(1).unwrap();
    stacks.push(StackData::Pointer(Address::StaticFunc(1)));
    stacks.enter(4).unwrap();
    assert_eq!(stacks.frame_pointer(), 5);
    assert_eq!(stacks.o_return(), Ok(()));
    assert_eq!(stacks.frame_pointer(), 1);
    assert_eq!(stacks.o_return(), Ok(()));
    assert_eq!(stacks.frame_pointer(), 0);
    assert_eq!(stacks.o_return(), Err(Trap::MissingFramePointer));
}

#[test]
fn a_frame_beyond_the_end_of_the_frame_stack() {
    let mut stacks = frame_of(1, &[WrappedValue::Usize(1)]);
    stacks.push(StackData::Value(WrappedValue::Bool(true)));
    stacks.push(StackData::ArgCount(1));
    stacks.push(StackData::Pointer(Address::StaticFunc(1)));
    stacks.enter(3).unwrap();
    stacks.o_stackframe(2).unwrap();
    assert_eq!(stacks.frame_len(), 5);
    assert_eq!(stacks.frame(0), Some(WrappedValue::Usize(1)));
    assert_eq!(stacks.frame(1), Some(WrappedValue::Absent));
    assert_eq!(stacks.frame(2), Some(WrappedValue::Absent));
    assert_eq!(stacks.frame(3), Some(WrappedValue::Bool(true)));
    assert_eq!(stacks.frame(4), Some(WrappedValue::Absent));
}

#[test]
fn an_argument_is_resolved_before_the_window_is_cleared() {
    // the first argument points into the window that the prologue claims
    let mut stacks = frame_of(2, &[WrappedValue::Usize(7), WrappedValue::Usize(8)]);
    stacks.push(StackData::Pointer(Address::StackLocal(1)));
    stacks.push(StackData::Pointer(Address::StackLocal(0)));
    stacks.push(StackData::ArgCount(2));
    stacks.o_stackframe(2).unwrap();
    assert_eq!(stacks.frame(0), Some(WrappedValue::Usize(8)));
    assert_eq!(stacks.frame(1), Some(WrappedValue::Usize(7)));
}
