//! The two stacks as mathematics, and what each instruction does to them.
//!
//! The operand stack holds entries, its top at the end of the sequence. The frame
//! stack is one flat sequence of values for all live calls; the frame pointer is
//! the base of the current call's window, and the frame-pointer stack holds the
//! bases of the callers. An instruction either changes the stacks as stated here
//! or ends in a trap and changes nothing.

use vstd::prelude::*;
use crate::mossc::binop::binop;
use crate::mossc::bytecode::{BinOp, OpCode};
use crate::mossc::trap::Trap;
use crate::mossc::value::{Address, Entry, Value, absent_values, repeated};

verus! {

/// The operand stack, the frame stack, the frame pointer and the frame-pointer stack.
pub struct Memory {
    pub stack: Seq<Entry>,
    pub frames: Seq<Value>,
    pub fp: usize,
    pub saved: Seq<usize>,
}

/// The frame stack after a prologue claimed the window of `size` slots at `fp`:
/// the arguments in order from the base, absent values in the rest of the window,
/// every slot outside the window as it was, and absent where the stack had to grow.
pub open spec fn claim(frames: Seq<Value>, fp: int, size: int, args: Seq<Value>) -> Seq<Value> {
    Seq::new(
        (if frames.len() >= fp + size { frames.len() as int } else { fp + size }) as nat,
        |i: int|
            if fp <= i < fp + args.len() {
                args[i - fp]
            } else if fp <= i < fp + size {
                Value::Absent
            } else if i < frames.len() {
                frames[i]
            } else {
                Value::Absent
            },
    )
}

impl Memory {
    /// Both stacks empty, the frame pointer at zero.
    pub open spec fn empty() -> Memory {
        Memory { stack: Seq::empty(), frames: Seq::empty(), fp: 0, saved: Seq::empty() }
    }

    /// The entry `depth` places below the top of the operand stack.
    pub open spec fn peek(self, depth: int) -> Entry {
        self.stack[self.stack.len() - 1 - depth]
    }

    /// With `e` pushed on the operand stack.
    pub open spec fn push(self, e: Entry) -> Memory {
        Memory { stack: self.stack.push(e), ..self }
    }

    /// With the top `n` entries of the operand stack removed.
    pub open spec fn drop(self, n: int) -> Memory {
        Memory { stack: self.stack.take(self.stack.len() - n), ..self }
    }

    /// With the frame slot `slot` holding `v`.
    pub open spec fn write(self, slot: int, v: Value) -> Memory {
        Memory { frames: self.frames.update(slot, v), ..self }
    }

    /// What lies at an address.
    pub open spec fn read(self, a: Address) -> Result<Value, Trap> {
        match a {
            Address::StackLocal(i) => if i < self.frames.len() {
                Ok(self.frames[i as int])
            } else {
                Err(Trap::BadSlot)
            },
            Address::StackComplex(i, j) => if i < self.frames.len() {
                match self.frames[i as int] {
                    Value::Tuple(fields) => if j < fields.len() {
                        Ok(fields[j as int])
                    } else {
                        Err(Trap::IndexOutOfRange)
                    },
                    _ => Err(Trap::NotATuple),
                }
            } else {
                Err(Trap::BadSlot)
            },
            Address::StaticFunc(id) => Ok(Value::Address(Address::StaticFunc(id))),
        }
    }

    /// The value that an operand-stack entry stands for: an eager value is itself,
    /// an address is what lies there now, and a marker is no value.
    pub open spec fn resolve(self, e: Entry) -> Result<Value, Trap> {
        match e {
            Entry::Value(v) => Ok(v),
            Entry::Pointer(a) => self.read(a),
            _ => Err(Trap::NotAValue),
        }
    }

    /// The values of several entries, in their order; the trap of the first that has none.
    pub open spec fn resolve_all(self, es: Seq<Entry>) -> Result<Seq<Value>, Trap>
        decreases es.len(),
    {
        if es.len() == 0 {
            Ok(Seq::empty())
        } else {
            match self.resolve_all(es.drop_last()) {
                Err(t) => Err(t),
                Ok(vs) => match self.resolve(es.last()) {
                    Err(t) => Err(t),
                    Ok(v) => Ok(vs.push(v)),
                },
            }
        }
    }

    /// The top entry popped and resolved.
    pub open spec fn pop_value(self) -> Result<(Memory, Value), Trap> {
        if self.stack.len() < 1 {
            Err(Trap::StackUnderflow)
        } else {
            match self.resolve(self.peek(0)) {
                Err(t) => Err(t),
                Ok(v) => Ok((self.drop(1), v)),
            }
        }
    }

    /// The frame slot of a local, if its index fits the machine word.
    pub open spec fn local_slot(self, idx: usize) -> Result<usize, Trap> {
        if self.fp + idx > usize::MAX {
            Err(Trap::AddressOverflow)
        } else {
            Ok((self.fp + idx) as usize)
        }
    }

    /// Local load: the address of the slot is pushed, not its value.
    pub open spec fn load_local(self, idx: usize) -> Result<Memory, Trap> {
        match self.local_slot(idx) {
            Err(t) => Err(t),
            Ok(slot) => Ok(self.push(Entry::Pointer(Address::StackLocal(slot)))),
        }
    }

    /// Local store: the top entry is popped, resolved and written to the slot.
    pub open spec fn store_local(self, idx: usize) -> Result<Memory, Trap> {
        if self.stack.len() < 1 {
            Err(Trap::StackUnderflow)
        } else {
            match self.resolve(self.peek(0)) {
                Err(t) => Err(t),
                Ok(v) => match self.local_slot(idx) {
                    Err(t) => Err(t),
                    Ok(slot) => if slot >= self.frames.len() {
                        Err(Trap::BadSlot)
                    } else {
                        Ok(self.drop(1).write(slot as int, v))
                    },
                },
            }
        }
    }

    /// Binary operator: the right operand is on top, the left one below it.
    pub open spec fn binary(self, op: BinOp) -> Result<Memory, Trap> {
        if self.stack.len() < 2 {
            Err(Trap::StackUnderflow)
        } else {
            match self.resolve(self.peek(0)) {
                Err(t) => Err(t),
                Ok(right) => match self.resolve(self.peek(1)) {
                    Err(t) => Err(t),
                    Ok(left) => match binop(op, left, right) {
                        Err(t) => Err(t),
                        Ok(v) => Ok(self.drop(2).push(Entry::Value(v))),
                    },
                },
            }
        }
    }

    /// Tuple construction: a tuple of `n` absent fields is pushed.
    pub open spec fn tuple(self, n: usize) -> Result<Memory, Trap> {
        Ok(self.push(Entry::Value(Value::Tuple(absent_values(n as nat)))))
    }

    /// Field assignment while a tuple is built: the top entry is popped and
    /// resolved, and becomes field `idx` of the tuple that is then on top.
    pub open spec fn tuple_assign(self, idx: usize) -> Result<Memory, Trap> {
        if self.stack.len() < 2 {
            Err(Trap::StackUnderflow)
        } else {
            match self.resolve(self.peek(0)) {
                Err(t) => Err(t),
                Ok(v) => match self.peek(1) {
                    Entry::Value(Value::Tuple(fields)) => if idx < fields.len() {
                        Ok(
                            self.drop(2).push(
                                Entry::Value(Value::Tuple(fields.update(idx as int, v))),
                            ),
                        )
                    } else {
                        Err(Trap::IndexOutOfRange)
                    },
                    _ => Err(Trap::NotATuple),
                },
            }
        }
    }

    /// Field read: the address of a slot on top becomes the address of field
    /// `idx` of the tuple in that slot. Nothing is loaded yet.
    pub open spec fn tuple_get(self, idx: usize) -> Result<Memory, Trap> {
        if self.stack.len() < 1 {
            Err(Trap::StackUnderflow)
        } else {
            match self.peek(0) {
                Entry::Pointer(Address::StackLocal(slot)) => Ok(
                    self.drop(1).push(Entry::Pointer(Address::StackComplex(slot, idx))),
                ),
                Entry::Pointer(_) => Err(Trap::BadAddress),
                _ => Err(Trap::NotAnAddress),
            }
        }
    }

    /// Field write: the address of a slot is on top and an entry below it; the
    /// entry is resolved and becomes field `idx` of the tuple in the slot.
    pub open spec fn tuple_set(self, idx: usize) -> Result<Memory, Trap> {
        if self.stack.len() < 2 {
            Err(Trap::StackUnderflow)
        } else {
            match self.peek(0) {
                Entry::Pointer(a) => match self.resolve(self.peek(1)) {
                    Err(t) => Err(t),
                    Ok(v) => match a {
                        Address::StackLocal(slot) => if slot >= self.frames.len() {
                            Err(Trap::BadSlot)
                        } else {
                            match self.frames[slot as int] {
                                Value::Tuple(fields) => if idx < fields.len() {
                                    Ok(
                                        self.drop(2).write(
                                            slot as int,
                                            Value::Tuple(fields.update(idx as int, v)),
                                        ),
                                    )
                                } else {
                                    Err(Trap::IndexOutOfRange)
                                },
                                _ => Err(Trap::NotATuple),
                            }
                        },
                        _ => Err(Trap::BadAddress),
                    },
                },
                _ => Err(Trap::NotAnAddress),
            }
        }
    }

    /// Array construction from `n` entries: the deepest becomes element 0.
    pub open spec fn vec(self, n: usize) -> Result<Memory, Trap> {
        if self.stack.len() < n {
            Err(Trap::StackUnderflow)
        } else {
            match self.resolve_all(self.stack.skip(self.stack.len() - n)) {
                Err(t) => Err(t),
                Ok(vs) => Ok(self.drop(n as int).push(Entry::Value(Value::Array(vs)))),
            }
        }
    }

    /// Array construction by repetition: `n` copies of the resolved top entry.
    pub open spec fn repeat(self, n: usize) -> Result<Memory, Trap> {
        if self.stack.len() < 1 {
            Err(Trap::StackUnderflow)
        } else {
            match self.resolve(self.peek(0)) {
                Err(t) => Err(t),
                Ok(v) => Ok(self.drop(1).push(Entry::Value(Value::Array(repeated(v, n as nat))))),
            }
        }
    }

    /// Length query: the resolved top entry must be an array.
    pub open spec fn len(self) -> Result<Memory, Trap> {
        if self.stack.len() < 1 {
            Err(Trap::StackUnderflow)
        } else {
            match self.resolve(self.peek(0)) {
                Err(t) => Err(t),
                Ok(Value::Array(elems)) => Ok(
                    self.drop(1).push(Entry::Value(Value::Usize(elems.len() as usize))),
                ),
                Ok(_) => Err(Trap::NotAnArray),
            }
        }
    }

    /// The array at an address that element access accepts: a slot, or a field
    /// of the tuple in a slot.
    pub open spec fn array_at(self, a: Address) -> Result<Seq<Value>, Trap> {
        match a {
            Address::StaticFunc(_) => Err(Trap::BadAddress),
            _ => match self.read(a) {
                Err(t) => Err(t),
                Ok(Value::Array(elems)) => Ok(elems),
                Ok(_) => Err(Trap::NotAnArray),
            },
        }
    }

    /// With the array at `a` replaced by `elems`. `a` is an address at which
    /// `array_at` finds an array.
    pub open spec fn write_array(self, a: Address, elems: Seq<Value>) -> Memory {
        match a {
            Address::StackLocal(slot) => self.write(slot as int, Value::Array(elems)),
            Address::StackComplex(slot, field) => self.write(
                slot as int,
                Value::Tuple(
                    self.frames[slot as int]->Tuple_0.update(field as int, Value::Array(elems)),
                ),
            ),
            Address::StaticFunc(_) => self,
        }
    }

    /// The index for an element access: the entry must resolve to a pointer-sized integer.
    pub open spec fn resolve_index(self, e: Entry) -> Result<usize, Trap> {
        match self.resolve(e) {
            Err(t) => Err(t),
            Ok(Value::Usize(i)) => Ok(i),
            Ok(_) => Err(Trap::NotAnIndex),
        }
    }

    /// Element read: the address of the array is on top, the index below it.
    /// The element is pushed as a value.
    pub open spec fn get_index(self) -> Result<Memory, Trap> {
        if self.stack.len() < 2 {
            Err(Trap::StackUnderflow)
        } else {
            match self.peek(0) {
                Entry::Pointer(a) => match self.resolve_index(self.peek(1)) {
                    Err(t) => Err(t),
                    Ok(i) => match self.array_at(a) {
                        Err(t) => Err(t),
                        Ok(elems) => if i < elems.len() {
                            Ok(self.drop(2).push(Entry::Value(elems[i as int])))
                        } else {
                            Err(Trap::IndexOutOfRange)
                        },
                    },
                },
                _ => Err(Trap::NotAnAddress),
            }
        }
    }

    /// Element write: the address of the array is on top, the index below it,
    /// and the new element below that. The array changes in place.
    pub open spec fn assign_index(self) -> Result<Memory, Trap> {
        if self.stack.len() < 3 {
            Err(Trap::StackUnderflow)
        } else {
            match self.peek(0) {
                Entry::Pointer(a) => match self.resolve_index(self.peek(1)) {
                    Err(t) => Err(t),
                    Ok(i) => match self.resolve(self.peek(2)) {
                        Err(t) => Err(t),
                        Ok(v) => match self.array_at(a) {
                            Err(t) => Err(t),
                            Ok(elems) => if i < elems.len() {
                                Ok(self.drop(3).write_array(a, elems.update(i as int, v)))
                            } else {
                                Err(Trap::IndexOutOfRange)
                            },
                        },
                    },
                },
                _ => Err(Trap::NotAnAddress),
            }
        }
    }

    /// Take-address-of: the address on top becomes a value.
    pub open spec fn borrow(self) -> Result<Memory, Trap> {
        if self.stack.len() < 1 {
            Err(Trap::StackUnderflow)
        } else {
            match self.peek(0) {
                Entry::Pointer(a) => Ok(self.drop(1).push(Entry::Value(Value::Address(a)))),
                _ => Err(Trap::NotAnAddress),
            }
        }
    }

    /// The slot that a resolved entry points to, for the two dereferencing instructions.
    pub open spec fn resolve_target(self, e: Entry) -> Result<Address, Trap> {
        match self.resolve(e) {
            Err(t) => Err(t),
            Ok(Value::Address(Address::StackLocal(slot))) => Ok(Address::StackLocal(slot)),
            Ok(Value::Address(_)) => Err(Trap::BadAddress),
            Ok(_) => Err(Trap::NotAnAddress),
        }
    }

    /// Dereference: the address value on top becomes a lazy entry again.
    pub open spec fn deref(self) -> Result<Memory, Trap> {
        if self.stack.len() < 1 {
            Err(Trap::StackUnderflow)
        } else {
            match self.resolve_target(self.peek(0)) {
                Err(t) => Err(t),
                Ok(a) => Ok(self.drop(1).push(Entry::Pointer(a))),
            }
        }
    }

    /// Store through an address: the address value is on top, the entry to store below it.
    pub open spec fn deref_store(self) -> Result<Memory, Trap> {
        if self.stack.len() < 2 {
            Err(Trap::StackUnderflow)
        } else {
            match self.resolve_target(self.peek(0)) {
                Err(t) => Err(t),
                Ok(a) => match self.resolve(self.peek(1)) {
                    Err(t) => Err(t),
                    Ok(v) => if a->StackLocal_0 >= self.frames.len() {
                        Err(Trap::BadSlot)
                    } else {
                        Ok(self.drop(2).write(a->StackLocal_0 as int, v))
                    },
                },
            }
        }
    }

    /// The number of arguments that the marker on top announces.
    pub open spec fn arg_count(self) -> Result<usize, Trap> {
        if self.stack.len() < 1 {
            Err(Trap::MissingArgCount)
        } else {
            match self.peek(0) {
                Entry::ArgCount(n) => Ok(n),
                _ => Err(Trap::MissingArgCount),
            }
        }
    }

    /// The entries of the `n` arguments under the marker, the first argument first.
    pub open spec fn arg_entries(self, n: usize) -> Seq<Entry> {
        self.stack.subrange(self.stack.len() - 1 - n, self.stack.len() - 1)
    }

    /// Function prologue. The marker and the `n` arguments under it are consumed.
    /// The window of `size` slots at the frame pointer is claimed: argument `i`,
    /// resolved against the frame stack as it was, goes to slot `i` of the window,
    /// and every other slot of the window becomes absent.
    pub open spec fn prologue(self, size: usize) -> Result<Memory, Trap> {
        match self.arg_count() {
            Err(t) => Err(t),
            Ok(n) => if n > size {
                Err(Trap::TooManyArguments)
            } else if self.fp + size > usize::MAX {
                Err(Trap::AddressOverflow)
            } else if self.stack.len() - 1 < n {
                Err(Trap::StackUnderflow)
            } else {
                match self.resolve_all(self.arg_entries(n)) {
                    Err(t) => Err(t),
                    Ok(args) => Ok(
                        Memory {
                            stack: self.stack.take(self.stack.len() - 1 - n),
                            frames: claim(self.frames, self.fp as int, size as int, args),
                            ..self
                        },
                    ),
                }
            },
        }
    }

    /// The callee of a call: the top entry must resolve to the address of a function.
    pub open spec fn callee(self) -> Result<u64, Trap> {
        if self.stack.len() < 1 {
            Err(Trap::StackUnderflow)
        } else {
            match self.resolve(self.peek(0)) {
                Err(t) => Err(t),
                Ok(Value::Address(Address::StaticFunc(id))) => Ok(id),
                Ok(_) => Err(Trap::NotCallable),
            }
        }
    }

    /// The stacks when a call enters its callee: the callee's address is popped,
    /// the frame pointer is saved, and moves up by `frame_size`, the frame size
    /// that the callee declares.
    pub open spec fn enter(self, frame_size: usize) -> Result<Memory, Trap> {
        match self.callee() {
            Err(t) => Err(t),
            Ok(_) => if self.fp + frame_size > usize::MAX {
                Err(Trap::AddressOverflow)
            } else {
                Ok(
                    Memory {
                        stack: self.stack.drop_last(),
                        fp: (self.fp + frame_size) as usize,
                        saved: self.saved.push(self.fp),
                        ..self
                    },
                )
            },
        }
    }

    /// The stacks when a callee returns: the caller's frame pointer is restored.
    pub open spec fn leave(self) -> Result<Memory, Trap> {
        if self.saved.len() < 1 {
            Err(Trap::MissingFramePointer)
        } else {
            Ok(Memory { fp: self.saved.last(), saved: self.saved.drop_last(), ..self })
        }
    }

    /// The condition of a conditional jump or a guard: the top entry is popped,
    /// and must resolve to a boolean.
    pub open spec fn condition(self) -> Result<(Memory, bool), Trap> {
        if self.stack.len() < 1 {
            Err(Trap::StackUnderflow)
        } else {
            match self.resolve(self.peek(0)) {
                Err(t) => Err(t),
                Ok(Value::Bool(b)) => Ok((self.drop(1), b)),
                Ok(_) => Err(Trap::NotABool),
            }
        }
    }

    /// The argument that an intrinsic sees when it is called: the entry under the
    /// argument-count marker, once the callee's address is gone. Given the stacks
    /// before the call, with the callee's address still on top.
    pub open spec fn intrinsic_argument(self) -> Result<Value, Trap> {
        if self.stack.len() < 3 {
            Err(Trap::StackUnderflow)
        } else {
            self.resolve(self.peek(2))
        }
    }

    /// What an instruction that is no jump, call, return or guard does to the stacks.
    pub open spec fn apply(self, op: OpCode) -> Result<Memory, Trap> {
        match op {
            OpCode::StackFrame(size) => self.prologue(size),
            OpCode::RETURN_POINTER => Ok(self),
            OpCode::Use => Ok(self),
            OpCode::LoadFunc(id) => Ok(self.push(Entry::Pointer(Address::StaticFunc(id)))),
            OpCode::ArgCount(n) => Ok(self.push(Entry::ArgCount(n))),
            OpCode::TUPLE(n) => self.tuple(n),
            OpCode::TUPLE_ASSIGN(idx) => self.tuple_assign(idx),
            OpCode::TUPLE_GET(idx) => self.tuple_get(idx),
            OpCode::TUPLE_SET(idx) => self.tuple_set(idx),
            OpCode::VEC(n) => self.vec(n),
            OpCode::Repeat(n) => self.repeat(n),
            OpCode::AssignIndex => self.assign_index(),
            OpCode::GetIndex => self.get_index(),
            OpCode::Len => self.len(),
            OpCode::SignedInteger(n) => Ok(self.push(Entry::Value(Value::I64(n)))),
            OpCode::UnsignedInteger(n) => Ok(self.push(Entry::Value(Value::U64(n)))),
            OpCode::Usize(n) => Ok(self.push(Entry::Value(Value::Usize(n)))),
            OpCode::Bool(b) => Ok(self.push(Entry::Value(Value::Bool(b)))),
            OpCode::StoreLocal(idx) => self.store_local(idx),
            OpCode::LoadLocal(idx) => self.load_local(idx),
            OpCode::BINOP(op) => self.binary(op),
            OpCode::BORROW(_) => self.borrow(),
            OpCode::DEREF => self.deref(),
            OpCode::DEREF_STORE => self.deref_store(),
            _ => Err(Trap::Unsupported),
        }
    }
}

/// How a call on the stacks ended: done as `expected` says, or refused with the
/// trap that `expected` names and nothing changed.
pub open spec fn effect(
    expected: Result<Memory, Trap>,
    before: Memory,
    after: Memory,
    r: Result<(), Trap>,
) -> bool {
    match expected {
        Ok(m) => r is Ok && after == m,
        Err(t) => r == Err::<(), Trap>(t) && after == before,
    }
}

/// Resolving a prefix of entries that all have values gives a prefix of the values;
/// where the prefix fails, the whole fails in the same way.
pub proof fn lemma_resolve_all_prefix(m: Memory, es: Seq<Entry>, k: int)
    requires
        0 <= k <= es.len(),
    ensures
        m.resolve_all(es.take(k)) matches Err(t) ==> m.resolve_all(es) == Err::<Seq<Value>, Trap>(t),
        m.resolve_all(es) matches Ok(vs) ==> m.resolve_all(es.take(k)) == Ok::<Seq<Value>, Trap>(
            vs.take(k),
        ),
        m.resolve_all(es) matches Ok(vs) ==> vs.len() == es.len(),
    decreases es.len(),
{
    if k == es.len() {
        assert(es.take(k) =~= es);
        if es.len() > 0 {
            lemma_resolve_all_prefix(m, es.drop_last(), k - 1);
        }
        if let Ok(vs) = m.resolve_all(es) {
            assert(vs.take(k) =~= vs);
        }
    } else {
        lemma_resolve_all_prefix(m, es.drop_last(), k);
        assert(es.drop_last().take(k) =~= es.take(k));
        if let Ok(vs) = m.resolve_all(es) {
            let ws = m.resolve_all(es.drop_last())->Ok_0;
            assert(vs.take(k) =~= ws.take(k));
        }
    }
}

/// Resolving several entries resolves each of them, in their order.
pub proof fn lemma_resolve_all_each(m: Memory, es: Seq<Entry>)
    ensures
        m.resolve_all(es) matches Ok(vs) ==> vs.len() == es.len() && forall|i: int|
            0 <= i < es.len() ==> m.resolve(#[trigger] es[i]) == Ok::<Value, Trap>(vs[i]),
    decreases es.len(),
{
    if es.len() > 0 {
        lemma_resolve_all_each(m, es.drop_last());
        if let Ok(vs) = m.resolve_all(es) {
            let ws = m.resolve_all(es.drop_last())->Ok_0;
            assert forall|i: int| 0 <= i < es.len() implies m.resolve(#[trigger] es[i]) == Ok::<
                Value,
                Trap,
            >(vs[i]) by {
                if i < es.len() - 1 {
                    assert(es.drop_last()[i] == es[i]);
                    assert(vs[i] == ws[i]);
                }
            }
        }
    }
}

/// The traps that resolving an entry can end in.
pub open spec fn is_load_trap(t: Trap) -> bool {
    t == Trap::NotAValue || t == Trap::BadSlot || t == Trap::NotATuple || t == Trap::IndexOutOfRange
}

/// Resolving several entries ends in no trap that resolving one of them
/// could not end in.
pub proof fn lemma_resolve_all_traps(m: Memory, es: Seq<Entry>)
    ensures
        m.resolve_all(es) matches Err(t) ==> is_load_trap(t),
    decreases es.len(),
{
    if es.len() > 0 {
        lemma_resolve_all_traps(m, es.drop_last());
    }
}

/// No instruction on the stacks ends in a trap that belongs to calls,
/// returns, jumps or replay.
pub proof fn lemma_apply_traps(m: Memory, op: OpCode)
    ensures
        m.apply(op) matches Err(t) ==> t != Trap::MissingTrace && t != Trap::MissingFramePointer
            && t != Trap::MissingFrameSize && t != Trap::BadJump && t != Trap::NotCallable
            && t != Trap::NotABool,
{
    match op {
        OpCode::StackFrame(size) => {
            if m.arg_count() is Ok {
                lemma_resolve_all_traps(m, m.arg_entries(m.arg_count()->Ok_0));
            }
        },
        OpCode::VEC(n) => {
            lemma_resolve_all_traps(m, m.stack.skip(m.stack.len() - n));
        },
        _ => {},
    }
}

} // verus!
