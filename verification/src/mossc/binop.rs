//! What the binary operators compute.
//!
//! Integer operands must have one type; the result of an arithmetic, bitwise or
//! shift operator has that type, and a comparison gives a boolean. Addition,
//! subtraction and multiplication wrap round; a shift moves by the amount reduced
//! modulo the width; division truncates towards zero and fails on a zero divisor
//! only. Booleans can be compared (`false < true`) and combined bitwise, nothing
//! else.

use vstd::prelude::*;
use crate::mossc::bytecode::BinOp;
use crate::mossc::trap::Trap;
use crate::mossc::value::{Value, WrappedValue};

verus! {

/// Division that truncates towards zero, on the integers. `d` is not zero.
pub open spec fn trunc_div(x: int, d: int) -> int {
    if x == 0 {
        0
    } else if x > 0 && d > 0 {
        x / d
    } else if x < 0 && d < 0 {
        (-x) / (-d)
    } else if x < 0 {
        -((-x) / d)
    } else {
        -(x / (-d))
    }
}

/// The remainder that goes with [`trunc_div`]: it has the sign of `x`.
pub open spec fn trunc_rem(x: int, d: int) -> int {
    if x == 0 {
        0
    } else if x > 0 && d > 0 {
        x % d
    } else if x < 0 && d < 0 {
        -((-x) % (-d))
    } else if x < 0 {
        -((-x) % d)
    } else {
        x % (-d)
    }
}

/// Truncating division is division: quotient and remainder make up the
/// dividend, the remainder is smaller than the divisor and has the sign of
/// the dividend, and the quotient is no larger than the dividend.
pub proof fn lemma_trunc_division(x: int, d: int)
    requires
        d != 0,
    ensures
        x == d * trunc_div(x, d) + trunc_rem(x, d),
        x >= 0 ==> 0 <= trunc_rem(x, d),
        x <= 0 ==> trunc_rem(x, d) <= 0,
        d > 0 ==> -d < trunc_rem(x, d) < d,
        d < 0 ==> d < trunc_rem(x, d) < -d,
        x >= 0 ==> -x <= trunc_div(x, d) <= x,
        x <= 0 ==> x <= trunc_div(x, d) <= -x,
{
    let a = if x >= 0 { x } else { -x };
    let b = if d > 0 { d } else { -d };
    lemma_quotient_bound(a, b);
    vstd::arithmetic::div_mod::lemma_fundamental_div_mod(a, b);
    let q = a / b;
    let r = a % b;
    assert(a == b * q + r);
    if x > 0 && d > 0 {
    } else if x < 0 && d < 0 {
        assert(d * q == -(b * q)) by (nonlinear_arith)
            requires
                d == -b,
        ;
    } else if x < 0 {
        assert(d * (-q) == -(b * q)) by (nonlinear_arith)
            requires
                d == b,
        ;
    } else if x > 0 {
        assert(d * (-q) == b * q) by (nonlinear_arith)
            requires
                d == -b,
        ;
    } else {
        assert(d * 0 == 0);
    }
}

/// A binary operator on two signed 64-bit integers.
pub open spec fn binop_i64(op: BinOp, l: i64, r: i64) -> Result<Value, Trap> {
    match op {
        BinOp::Add => Ok(Value::I64(l.wrapping_add(r))),
        BinOp::Sub => Ok(Value::I64(l.wrapping_sub(r))),
        BinOp::Mul => Ok(Value::I64(l.wrapping_mul(r))),
        BinOp::Div => if r == 0 {
            Err(Trap::DivisionByZero)
        } else if l == i64::MIN && r == -1 {
            Ok(Value::I64(i64::MIN))
        } else {
            Ok(Value::I64(trunc_div(l as int, r as int) as i64))
        },
        BinOp::Rem => if r == 0 {
            Err(Trap::DivisionByZero)
        } else if l == i64::MIN && r == -1 {
            Ok(Value::I64(0))
        } else {
            Ok(Value::I64(trunc_rem(l as int, r as int) as i64))
        },
        BinOp::BitXor => Ok(Value::I64(l ^ r)),
        BinOp::BitAnd => Ok(Value::I64(l & r)),
        BinOp::BitOr => Ok(Value::I64(l | r)),
        BinOp::Shl => Ok(Value::I64(l.wrapping_shl(r as u32))),
        BinOp::Shr => Ok(Value::I64(l.wrapping_shr(r as u32))),
        BinOp::Eq => Ok(Value::Bool(l == r)),
        BinOp::Ne => Ok(Value::Bool(l != r)),
        BinOp::Lt => Ok(Value::Bool(l < r)),
        BinOp::Le => Ok(Value::Bool(l <= r)),
        BinOp::Gt => Ok(Value::Bool(l > r)),
        BinOp::Ge => Ok(Value::Bool(l >= r)),
    }
}

/// A binary operator on two unsigned 64-bit integers.
pub open spec fn binop_u64(op: BinOp, l: u64, r: u64) -> Result<Value, Trap> {
    match op {
        BinOp::Add => Ok(Value::U64(l.wrapping_add(r))),
        BinOp::Sub => Ok(Value::U64(l.wrapping_sub(r))),
        BinOp::Mul => Ok(Value::U64(l.wrapping_mul(r))),
        BinOp::Div => if r == 0 {
            Err(Trap::DivisionByZero)
        } else {
            Ok(Value::U64(l / r))
        },
        BinOp::Rem => if r == 0 {
            Err(Trap::DivisionByZero)
        } else {
            Ok(Value::U64(l % r))
        },
        BinOp::BitXor => Ok(Value::U64(l ^ r)),
        BinOp::BitAnd => Ok(Value::U64(l & r)),
        BinOp::BitOr => Ok(Value::U64(l | r)),
        BinOp::Shl => Ok(Value::U64(l.wrapping_shl(r as u32))),
        BinOp::Shr => Ok(Value::U64(l.wrapping_shr(r as u32))),
        BinOp::Eq => Ok(Value::Bool(l == r)),
        BinOp::Ne => Ok(Value::Bool(l != r)),
        BinOp::Lt => Ok(Value::Bool(l < r)),
        BinOp::Le => Ok(Value::Bool(l <= r)),
        BinOp::Gt => Ok(Value::Bool(l > r)),
        BinOp::Ge => Ok(Value::Bool(l >= r)),
    }
}

/// A binary operator on two pointer-sized integers.
pub open spec fn binop_usize(op: BinOp, l: usize, r: usize) -> Result<Value, Trap> {
    match op {
        BinOp::Add => Ok(Value::Usize(l.wrapping_add(r))),
        BinOp::Sub => Ok(Value::Usize(l.wrapping_sub(r))),
        BinOp::Mul => Ok(Value::Usize(l.wrapping_mul(r))),
        BinOp::Div => if r == 0 {
            Err(Trap::DivisionByZero)
        } else {
            Ok(Value::Usize(l / r))
        },
        BinOp::Rem => if r == 0 {
            Err(Trap::DivisionByZero)
        } else {
            Ok(Value::Usize(l % r))
        },
        BinOp::BitXor => Ok(Value::Usize(l ^ r)),
        BinOp::BitAnd => Ok(Value::Usize(l & r)),
        BinOp::BitOr => Ok(Value::Usize(l | r)),
        BinOp::Shl => Ok(Value::Usize(l.wrapping_shl(r as u32))),
        BinOp::Shr => Ok(Value::Usize(l.wrapping_shr(r as u32))),
        BinOp::Eq => Ok(Value::Bool(l == r)),
        BinOp::Ne => Ok(Value::Bool(l != r)),
        BinOp::Lt => Ok(Value::Bool(l < r)),
        BinOp::Le => Ok(Value::Bool(l <= r)),
        BinOp::Gt => Ok(Value::Bool(l > r)),
        BinOp::Ge => Ok(Value::Bool(l >= r)),
    }
}

/// A binary operator on two booleans, ordered `false < true`.
pub open spec fn binop_bool(op: BinOp, l: bool, r: bool) -> Result<Value, Trap> {
    match op {
        BinOp::Eq => Ok(Value::Bool(l == r)),
        BinOp::Ne => Ok(Value::Bool(l != r)),
        BinOp::Lt => Ok(Value::Bool(!l && r)),
        BinOp::Le => Ok(Value::Bool(!l || r)),
        BinOp::Gt => Ok(Value::Bool(l && !r)),
        BinOp::Ge => Ok(Value::Bool(l || !r)),
        BinOp::BitOr => Ok(Value::Bool(l || r)),
        BinOp::BitXor => Ok(Value::Bool(l != r)),
        BinOp::BitAnd => Ok(Value::Bool(l && r)),
        BinOp::Add | BinOp::Sub | BinOp::Mul | BinOp::Div | BinOp::Rem | BinOp::Shl | BinOp::Shr => Err(
            Trap::InvalidBoolOp,
        ),
    }
}

/// The result of `op` on `left` and `right`, or the trap it ends in.
pub open spec fn binop(op: BinOp, left: Value, right: Value) -> Result<Value, Trap> {
    match (left, right) {
        (Value::I64(l), Value::I64(r)) => binop_i64(op, l, r),
        (Value::U64(l), Value::U64(r)) => binop_u64(op, l, r),
        (Value::Usize(l), Value::Usize(r)) => binop_usize(op, l, r),
        (Value::Bool(l), Value::Bool(r)) => binop_bool(op, l, r),
        _ => Err(Trap::TypeMismatch),
    }
}

/// Between natural numbers, a quotient is at most the dividend, and smaller
/// when the divisor is at least two; a remainder is smaller than the divisor.
proof fn lemma_quotient_bound(a: int, b: int)
    by (nonlinear_arith)
    requires
        a >= 0,
        b > 0,
    ensures
        0 <= a / b <= a,
        0 <= a % b < b,
        a > 0 && b >= 2 ==> a / b < a,
{
}

fn div_i64(l: i64, r: i64) -> (q: i64)
    requires
        r != 0,
    ensures
        q == (if l == i64::MIN && r == -1 {
            i64::MIN
        } else {
            trunc_div(l as int, r as int) as i64
        }),
{
    proof {
        let x = l as int;
        let d = r as int;
        if x > 0 && d > 0 {
            lemma_quotient_bound(x, d);
        } else if x < 0 && d < 0 {
            lemma_quotient_bound(-x, -d);
        } else if x < 0 {
            lemma_quotient_bound(-x, d);
        } else if x > 0 {
            lemma_quotient_bound(x, -d);
        }
    }
    match l.checked_div(r) {
        Some(q) => q,
        None => i64::MIN,
    }
}

fn rem_i64(l: i64, r: i64) -> (q: i64)
    requires
        r != 0,
    ensures
        q == (if l == i64::MIN && r == -1 {
            0
        } else {
            trunc_rem(l as int, r as int) as i64
        }),
{
    proof {
        let x = l as int;
        let d = r as int;
        if x > 0 && d > 0 {
            lemma_quotient_bound(x, d);
        } else if x < 0 && d < 0 {
            lemma_quotient_bound(-x, -d);
        } else if x < 0 {
            lemma_quotient_bound(-x, d);
        } else if x > 0 {
            lemma_quotient_bound(x, -d);
        }
    }
    match l.checked_rem(r) {
        Some(q) => q,
        None => 0,
    }
}

fn eval_i64(op: BinOp, l: i64, r: i64) -> (res: Result<WrappedValue, Trap>)
    ensures
        match binop_i64(op, l, r) {
            Ok(v) => res matches Ok(w) && w@ == v,
            Err(t) => res matches Err(e) && e == t,
        },
{
    match op {
        BinOp::Add => Ok(WrappedValue::I64(l.wrapping_add(r))),
        BinOp::Sub => Ok(WrappedValue::I64(l.wrapping_sub(r))),
        BinOp::Mul => Ok(WrappedValue::I64(l.wrapping_mul(r))),
        BinOp::Div => {
            if r == 0 {
                Err(Trap::DivisionByZero)
            } else {
                Ok(WrappedValue::I64(div_i64(l, r)))
            }
        },
        BinOp::Rem => {
            if r == 0 {
                Err(Trap::DivisionByZero)
            } else {
                Ok(WrappedValue::I64(rem_i64(l, r)))
            }
        },
        BinOp::BitXor => Ok(WrappedValue::I64(l ^ r)),
        BinOp::BitAnd => Ok(WrappedValue::I64(l & r)),
        BinOp::BitOr => Ok(WrappedValue::I64(l | r)),
        BinOp::Shl => Ok(WrappedValue::I64(l.wrapping_shl(#[verifier::truncate] (r as u32)))),
        BinOp::Shr => Ok(WrappedValue::I64(l.wrapping_shr(#[verifier::truncate] (r as u32)))),
        BinOp::Eq => Ok(WrappedValue::Bool(l == r)),
        BinOp::Ne => Ok(WrappedValue::Bool(l != r)),
        BinOp::Lt => Ok(WrappedValue::Bool(l < r)),
        BinOp::Le => Ok(WrappedValue::Bool(l <= r)),
        BinOp::Gt => Ok(WrappedValue::Bool(l > r)),
        BinOp::Ge => Ok(WrappedValue::Bool(l >= r)),
    }
}

fn eval_u64(op: BinOp, l: u64, r: u64) -> (res: Result<WrappedValue, Trap>)
    ensures
        match binop_u64(op, l, r) {
            Ok(v) => res matches Ok(w) && w@ == v,
            Err(t) => res matches Err(e) && e == t,
        },
{
    match op {
        BinOp::Add => Ok(WrappedValue::U64(l.wrapping_add(r))),
        BinOp::Sub => Ok(WrappedValue::U64(l.wrapping_sub(r))),
        BinOp::Mul => Ok(WrappedValue::U64(l.wrapping_mul(r))),
        BinOp::Div => {
            if r == 0 {
                Err(Trap::DivisionByZero)
            } else {
                Ok(WrappedValue::U64(l / r))
            }
        },
        BinOp::Rem => {
            if r == 0 {
                Err(Trap::DivisionByZero)
            } else {
                Ok(WrappedValue::U64(l % r))
            }
        },
        BinOp::BitXor => Ok(WrappedValue::U64(l ^ r)),
        BinOp::BitAnd => Ok(WrappedValue::U64(l & r)),
        BinOp::BitOr => Ok(WrappedValue::U64(l | r)),
        BinOp::Shl => Ok(WrappedValue::U64(l.wrapping_shl(#[verifier::truncate] (r as u32)))),
        BinOp::Shr => Ok(WrappedValue::U64(l.wrapping_shr(#[verifier::truncate] (r as u32)))),
        BinOp::Eq => Ok(WrappedValue::Bool(l == r)),
        BinOp::Ne => Ok(WrappedValue::Bool(l != r)),
        BinOp::Lt => Ok(WrappedValue::Bool(l < r)),
        BinOp::Le => Ok(WrappedValue::Bool(l <= r)),
        BinOp::Gt => Ok(WrappedValue::Bool(l > r)),
        BinOp::Ge => Ok(WrappedValue::Bool(l >= r)),
    }
}

fn eval_usize(op: BinOp, l: usize, r: usize) -> (res: Result<WrappedValue, Trap>)
    ensures
        match binop_usize(op, l, r) {
            Ok(v) => res matches Ok(w) && w@ == v,
            Err(t) => res matches Err(e) && e == t,
        },
{
    match op {
        BinOp::Add => Ok(WrappedValue::Usize(l.wrapping_add(r))),
        BinOp::Sub => Ok(WrappedValue::Usize(l.wrapping_sub(r))),
        BinOp::Mul => Ok(WrappedValue::Usize(l.wrapping_mul(r))),
        BinOp::Div => {
            if r == 0 {
                Err(Trap::DivisionByZero)
            } else {
                Ok(WrappedValue::Usize(l / r))
            }
        },
        BinOp::Rem => {
            if r == 0 {
                Err(Trap::DivisionByZero)
            } else {
                Ok(WrappedValue::Usize(l % r))
            }
        },
        BinOp::BitXor => Ok(WrappedValue::Usize(l ^ r)),
        BinOp::BitAnd => Ok(WrappedValue::Usize(l & r)),
        BinOp::BitOr => Ok(WrappedValue::Usize(l | r)),
        BinOp::Shl => Ok(WrappedValue::Usize(l.wrapping_shl(#[verifier::truncate] (r as u32)))),
        BinOp::Shr => Ok(WrappedValue::Usize(l.wrapping_shr(#[verifier::truncate] (r as u32)))),
        BinOp::Eq => Ok(WrappedValue::Bool(l == r)),
        BinOp::Ne => Ok(WrappedValue::Bool(l != r)),
        BinOp::Lt => Ok(WrappedValue::Bool(l < r)),
        BinOp::Le => Ok(WrappedValue::Bool(l <= r)),
        BinOp::Gt => Ok(WrappedValue::Bool(l > r)),
        BinOp::Ge => Ok(WrappedValue::Bool(l >= r)),
    }
}

fn eval_bool(op: BinOp, l: bool, r: bool) -> (res: Result<WrappedValue, Trap>)
    ensures
        match binop_bool(op, l, r) {
            Ok(v) => res matches Ok(w) && w@ == v,
            Err(t) => res matches Err(e) && e == t,
        },
{
    match op {
        BinOp::Eq => Ok(WrappedValue::Bool(l == r)),
        BinOp::Ne => Ok(WrappedValue::Bool(l != r)),
        BinOp::Lt => Ok(WrappedValue::Bool(!l && r)),
        BinOp::Le => Ok(WrappedValue::Bool(!l || r)),
        BinOp::Gt => Ok(WrappedValue::Bool(l && !r)),
        BinOp::Ge => Ok(WrappedValue::Bool(l || !r)),
        BinOp::BitOr => Ok(WrappedValue::Bool(l || r)),
        BinOp::BitXor => Ok(WrappedValue::Bool(l != r)),
        BinOp::BitAnd => Ok(WrappedValue::Bool(l && r)),
        _ => Err(Trap::InvalidBoolOp),
    }
}

/// Applies `op` to two values.
pub fn eval_binop(op: BinOp, left: &WrappedValue, right: &WrappedValue) -> (res: Result<
    WrappedValue,
    Trap,
>)
    ensures
        match binop(op, left@, right@) {
            Ok(v) => res matches Ok(w) && w@ == v,
            Err(t) => res matches Err(e) && e == t,
        },
{
    match (left, right) {
        (WrappedValue::I64(l), WrappedValue::I64(r)) => eval_i64(op, *l, *r),
        (WrappedValue::U64(l), WrappedValue::U64(r)) => eval_u64(op, *l, *r),
        (WrappedValue::Usize(l), WrappedValue::Usize(r)) => eval_usize(op, *l, *r),
        (WrappedValue::Bool(l), WrappedValue::Bool(r)) => eval_bool(op, *l, *r),
        _ => Err(Trap::TypeMismatch),
    }
}

} // verus!
