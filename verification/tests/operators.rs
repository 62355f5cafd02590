use moss::mossc::binop::eval_binop;
use moss::mossc::bytecode::BinOp;
use moss::mossc::trap::Trap;
use moss::mossc::value::WrappedValue;

fn i(l: i64, op: BinOp, r: i64) -> Result<WrappedValue, Trap> {
    eval_binop(op, &WrappedValue::I64(l), &WrappedValue::I64(r))
}

fn u(l: u64, op: BinOp, r: u64) -> Result<WrappedValue, Trap> {
    eval_binop(op, &WrappedValue::U64(l), &WrappedValue::U64(r))
}

fn z(l: usize, op: BinOp, r: usize) -> Result<WrappedValue, Trap> {
    eval_binop(op, &WrappedValue::Usize(l), &WrappedValue::Usize(r))
}

fn b(l: bool, op: BinOp, r: bool) -> Result<WrappedValue, Trap> {
    eval_binop(op, &WrappedValue::Bool(l), &WrappedValue::Bool(r))
}

#[test]
fn signed_arithmetic() {
    assert_eq!(i(7, BinOp::Add, -9), Ok(WrappedValue::I64(-2)));
    assert_eq!(i(7, BinOp::Sub, 9), Ok(WrappedValue::I64(-2)));
    assert_eq!(i(-7, BinOp::Mul, 6), Ok(WrappedValue::I64(-42)));
    assert_eq!(i(7, BinOp::Div, 2), Ok(WrappedValue::I64(3)));
    assert_eq!(i(-7, BinOp::Div, 2), Ok(WrappedValue::I64(-3)));
    assert_eq!(i(7, BinOp::Div, -2), Ok(WrappedValue::I64(-3)));
    assert_eq!(i(-7, BinOp::Div, -2), Ok(WrappedValue::I64(3)));
    assert_eq!(i(7, BinOp::Rem, 2), Ok(WrappedValue::I64(1)));
    assert_eq!(i(-7, BinOp::Rem, 2), Ok(WrappedValue::I64(-1)));
    assert_eq!(i(7, BinOp::Rem, -2), Ok(WrappedValue::I64(1)));
    assert_eq!(i(-7, BinOp::Rem, -2), Ok(WrappedValue::I64(-1)));
    assert_eq!(i(0, BinOp::Div, 5), Ok(WrappedValue::I64(0)));
}

#[test]
fn signed_arithmetic_wraps() {
    assert_eq!(i(i64::MAX, BinOp::Add, 1), Ok(WrappedValue::I64(i64::MIN)));
    assert_eq!(i(i64::MIN, BinOp::Sub, 1), Ok(WrappedValue::I64(i64::MAX)));
    assert_eq!(i(i64::MAX, BinOp::Mul, 2), Ok(WrappedValue::I64(-2)));
    assert_eq!(i(i64::MIN, BinOp::Div, -1), Ok(WrappedValue::I64(i64::MIN)));
    assert_eq!(i(i64::MIN, BinOp::Rem, -1), Ok(WrappedValue::I64(0)));
}

#[test]
fn signed_bits_and_shifts() {
    assert_eq!(i(0b1100, BinOp::BitXor, 0b1010), Ok(WrappedValue::I64(0b0110)));
    assert_eq!(i(0b1100, BinOp::BitAnd, 0b1010), Ok(WrappedValue::I64(0b1000)));
    assert_eq!(i(0b1100, BinOp::BitOr, 0b1010), Ok(WrappedValue::I64(0b1110)));
    assert_eq!(i(-1, BinOp::BitAnd, 5), Ok(WrappedValue::I64(5)));
    assert_eq!(i(3, BinOp::Shl, 4), Ok(WrappedValue::I64(48)));
    assert_eq!(i(-16, BinOp::Shr, 2), Ok(WrappedValue::I64(-4)));
    assert_eq!(i(1, BinOp::Shl, 64), Ok(WrappedValue::I64(1)));
    assert_eq!(i(1, BinOp::Shl, 65), Ok(WrappedValue::I64(2)));
    assert_eq!(i(1, BinOp::Shl, 63), Ok(WrappedValue::I64(i64::MIN)));
}

#[test]
fn signed_comparisons() {
    assert_eq!(i(-1, BinOp::Lt, 0), Ok(WrappedValue::Bool(true)));
    assert_eq!(i(0, BinOp::Lt, 0), Ok(WrappedValue::Bool(false)));
    assert_eq!(i(0, BinOp::Le, 0), Ok(WrappedValue::Bool(true)));
    assert_eq!(i(1, BinOp::Gt, 0), Ok(WrappedValue::Bool(true)));
    assert_eq!(i(0, BinOp::Ge, 1), Ok(WrappedValue::Bool(false)));
    assert_eq!(i(4, BinOp::Eq, 4), Ok(WrappedValue::Bool(true)));
    assert_eq!(i(4, BinOp::Ne, 4), Ok(WrappedValue::Bool(false)));
}

#[test]
fn unsigned_arithmetic() {
    assert_eq!(u(7, BinOp::Add, 9), Ok(WrappedValue::U64(16)));
    assert_eq!(u(7, BinOp::Sub, 9), Ok(WrappedValue::U64(u64::MAX - 1)));
    assert_eq!(u(u64::MAX, BinOp::Add, 2), Ok(WrappedValue::U64(1)));
    assert_eq!(u(1 << 63, BinOp::Mul, 2), Ok(WrappedValue::U64(0)));
    assert_eq!(u(7, BinOp::Mul, 6), Ok(WrappedValue::U64(42)));
    assert_eq!(u(7, BinOp::Div, 2), Ok(WrappedValue::U64(3)));
    assert_eq!(u(7, BinOp::Rem, 2), Ok(WrappedValue::U64(1)));
    assert_eq!(u(1, BinOp::Shl, 70), Ok(WrappedValue::U64(64)));
    assert_eq!(u(64, BinOp::Shr, 3), Ok(WrappedValue::U64(8)));
    assert_eq!(u(6, BinOp::BitXor, 3), Ok(WrappedValue::U64(5)));
    assert_eq!(u(3, BinOp::Lt, 4), Ok(WrappedValue::Bool(true)));
}

#[test]
fn pointer_sized_arithmetic() {
    assert_eq!(z(10, BinOp::Add, 45), Ok(WrappedValue::Usize(55)));
    assert_eq!(z(10, BinOp::Sub, 1), Ok(WrappedValue::Usize(9)));
    assert_eq!(z(0, BinOp::Sub, 1), Ok(WrappedValue::Usize(usize::MAX)));
    assert_eq!(z(usize::MAX, BinOp::Mul, 2), Ok(WrappedValue::Usize(usize::MAX - 1)));
    assert_eq!(z(9, BinOp::Div, 4), Ok(WrappedValue::Usize(2)));
    assert_eq!(z(9, BinOp::Rem, 4), Ok(WrappedValue::Usize(1)));
    assert_eq!(z(1, BinOp::Shl, 3), Ok(WrappedValue::Usize(8)));
    assert_eq!(z(1, BinOp::Gt, 0), Ok(WrappedValue::Bool(true)));
    assert_eq!(z(0, BinOp::Gt, 0), Ok(WrappedValue::Bool(false)));
    assert_eq!(z(12, BinOp::BitAnd, 10), Ok(WrappedValue::Usize(8)));
    assert_eq!(z(12, BinOp::BitOr, 10), Ok(WrappedValue::Usize(14)));
}

#[test]
fn division_by_zero_traps() {
    assert_eq!(i(1, BinOp::Div, 0), Err(Trap::DivisionByZero));
    assert_eq!(i(1, BinOp::Rem, 0), Err(Trap::DivisionByZero));
    assert_eq!(u(1, BinOp::Div, 0), Err(Trap::DivisionByZero));
    assert_eq!(u(1, BinOp::Rem, 0), Err(Trap::DivisionByZero));
    assert_eq!(z(1, BinOp::Div, 0), Err(Trap::DivisionByZero));
    assert_eq!(z(1, BinOp::Rem, 0), Err(Trap::DivisionByZero));
}

#[test]
fn booleans_compare_and_combine() {
    assert_eq!(b(false, BinOp::Lt, true), Ok(WrappedValue::Bool(true)));
    assert_eq!(b(true, BinOp::Lt, false), Ok(WrappedValue::Bool(false)));
    assert_eq!(b(true, BinOp::Lt, true), Ok(WrappedValue::Bool(false)));
    assert_eq!(b(true, BinOp::Le, true), Ok(WrappedValue::Bool(true)));
    assert_eq!(b(true, BinOp::Le, false), Ok(WrappedValue::Bool(false)));
    assert_eq!(b(true, BinOp::Gt, false), Ok(WrappedValue::Bool(true)));
    assert_eq!(b(false, BinOp::Gt, false), Ok(WrappedValue::Bool(false)));
    assert_eq!(b(false, BinOp::Ge, false), Ok(WrappedValue::Bool(true)));
    assert_eq!(b(false, BinOp::Ge, true), Ok(WrappedValue::Bool(false)));
    assert_eq!(b(true, BinOp::Eq, true), Ok(WrappedValue::Bool(true)));
    assert_eq!(b(true, BinOp::Ne, true), Ok(WrappedValue::Bool(false)));
    assert_eq!(b(true, BinOp::BitOr, false), Ok(WrappedValue::Bool(true)));
    assert_eq!(b(true, BinOp::BitXor, true), Ok(WrappedValue::Bool(false)));
    assert_eq!(b(true, BinOp::BitAnd, false), Ok(WrappedValue::Bool(false)));
}

#[test]
fn booleans_have_no_arithmetic() {
    for op in [BinOp::Add, BinOp::Sub, BinOp::Mul, BinOp::Div, BinOp::Rem, BinOp::Shl, BinOp::Shr] {
        assert_eq!(b(true, op, false), Err(Trap::InvalidBoolOp));
    }
}

#[test]
fn mixed_operands_trap() {
    let values = [
        WrappedValue::I64(1),
        WrappedValue::U64(1),
        WrappedValue::Usize(1),
        WrappedValue::Bool(true),
    ];
    for (li, left) in values.iter().enumerate() {
        for (ri, right) in values.iter().enumerate() {
            if li != ri {
                assert_eq!(eval_binop(BinOp::Eq, left, right), Err(Trap::TypeMismatch));
                assert_eq!(eval_binop(BinOp::Add, left, right), Err(Trap::TypeMismatch));
            }
        }
    }
    assert_eq!(
        eval_binop(BinOp::Eq, &WrappedValue::Absent, &WrappedValue::Absent),
        Err(Trap::TypeMismatch)
    );
    assert_eq!(
        eval_binop(BinOp::Add, &WrappedValue::Array(vec![]), &WrappedValue::Array(vec![])),
        Err(Trap::TypeMismatch)
    );
}
