//! The two stacks of the machine, and the instructions that work on them.

use vstd::prelude::*;
use crate::mossc::binop::eval_binop;
use crate::mossc::bytecode::{BinOp, FuncId, OpCode};
use crate::mossc::memory::{Memory, claim, effect, lemma_resolve_all_prefix};
use crate::mossc::trap::Trap;
use crate::mossc::value::{
    Address, Entry, StackCell, StackData, Value, WrappedTuple, WrappedValue, entries_view,
    lemma_values_view, lemma_view_variant, repeated, values_view,
};

verus! {

broadcast use {lemma_values_view, lemma_view_variant};

/// The operand stack, the frame stack, the frame pointer and the frame-pointer stack.
pub struct Stacks {
    stack: Vec<StackData>,
    frames: Vec<WrappedValue>,
    fp: usize,
    saved: Vec<usize>,
}

impl View for Stacks {
    type V = Memory;

    closed spec fn view(&self) -> Memory {
        Memory {
            stack: entries_view(self.stack@),
            frames: values_view(self.frames@),
            fp: self.fp,
            saved: self.saved@,
        }
    }
}

impl Stacks {
    /// Empty stacks, with the frame pointer at zero.
    pub fn new() -> (r: Self)
        ensures
            r@ == Memory::empty(),
    {
        let r = Stacks { stack: Vec::new(), frames: Vec::new(), fp: 0, saved: Vec::new() };
        assert(r@.stack =~= Seq::empty());
        assert(r@.frames =~= Seq::empty());
        r
    }

    /// The frame pointer.
    pub fn frame_pointer(&self) -> (r: usize)
        ensures
            r == self@.fp,
    {
        self.fp
    }

    /// The number of entries on the operand stack.
    pub fn depth(&self) -> (r: usize)
        ensures
            r == self@.stack.len(),
    {
        self.stack.len()
    }

    /// The number of slots of the frame stack.
    pub fn frame_len(&self) -> (r: usize)
        ensures
            r == self@.frames.len(),
    {
        self.frames.len()
    }

    /// A copy of the value in a frame slot, if there is such a slot.
    pub fn frame(&self, slot: usize) -> (r: Option<WrappedValue>)
        ensures
            match r {
                Some(v) => slot < self@.frames.len() && v@ == self@.frames[slot as int],
                None => slot >= self@.frames.len(),
            },
    {
        if slot < self.frames.len() {
            Some(self.frames[slot].clone())
        } else {
            None
        }
    }

    /// A copy of the entry `depth` places below the top, if the stack is that deep.
    pub fn entry(&self, depth: usize) -> (r: Option<StackData>)
        ensures
            match r {
                Some(e) => depth < self@.stack.len() && e@ == self@.peek(depth as int),
                None => depth >= self@.stack.len(),
            },
    {
        if depth < self.stack.len() {
            Some(self.stack[self.stack.len() - 1 - depth].clone())
        } else {
            None
        }
    }

    /// Pushes an entry on the operand stack.
    pub fn push(&mut self, e: StackData)
        ensures
            final(self)@ == old(self)@.push(e@),
    {
        self.stack.push(e);
        assert(self@.stack =~= old(self)@.stack.push(e@));
    }

    fn discard(&mut self, n: usize)
        requires
            n <= old(self)@.stack.len(),
        ensures
            final(self)@ == old(self)@.drop(n as int),
            final(self).stack@ == old(self).stack@.take(old(self).stack@.len() - n),
            final(self).frames == old(self).frames,
    {
        let keep = self.stack.len() - n;
        self.stack.truncate(keep);
        assert(self@.stack =~= old(self)@.stack.take(old(self)@.stack.len() - n));
    }

    fn set_frame(&mut self, slot: usize, v: WrappedValue)
        requires
            slot < old(self)@.frames.len(),
        ensures
            final(self)@ == old(self)@.write(slot as int, v@),
    {
        self.frames[slot] = v;
        assert(self@.frames =~= old(self)@.frames.update(slot as int, v@));
    }

    /// The value at an address, together with the address.
    pub fn load(&self, address: Address) -> (r: Result<StackCell, Trap>)
        ensures
            match self@.read(address) {
                Ok(v) => r matches Ok(cell) && cell@ == (address, v),
                Err(t) => r matches Err(e) && e == t,
            },
    {
        match address {
            Address::StackLocal(i) => {
                if i < self.frames.len() {
                    Ok(StackCell { address, value: self.frames[i].clone() })
                } else {
                    Err(Trap::BadSlot)
                }
            },
            Address::StackComplex(i, j) => {
                if i < self.frames.len() {
                    match &self.frames[i] {
                        WrappedValue::Tuple(t) => {
                            if j < t.data.len() {
                                Ok(StackCell { address, value: t.data[j].clone() })
                            } else {
                                Err(Trap::IndexOutOfRange)
                            }
                        },
                        _ => Err(Trap::NotATuple),
                    }
                } else {
                    Err(Trap::BadSlot)
                }
            },
            Address::StaticFunc(id) => Ok(
                StackCell { address, value: WrappedValue::Address(Address::StaticFunc(id)) },
            ),
        }
    }

    /// Resolves an operand-stack entry to a value.
    pub fn to_value(&self, data: &StackData) -> (r: Result<WrappedValue, Trap>)
        ensures
            match self@.resolve(data@) {
                Ok(v) => r matches Ok(w) && w@ == v,
                Err(t) => r matches Err(e) && e == t,
            },
    {
        match data {
            StackData::Value(v) => Ok(v.clone()),
            StackData::Pointer(a) => {
                match self.load(*a) {
                    Ok(cell) => Ok(cell.value),
                    Err(t) => Err(t),
                }
            },
            _ => Err(Trap::NotAValue),
        }
    }

    /// Resolves the entry `depth` places below the top. The stack is that deep.
    fn value_at(&self, depth: usize) -> (r: Result<WrappedValue, Trap>)
        requires
            depth < self@.stack.len(),
        ensures
            match self@.resolve(self@.peek(depth as int)) {
                Ok(v) => r matches Ok(w) && w@ == v,
                Err(t) => r matches Err(e) && e == t,
            },
    {
        self.to_value(&self.stack[self.stack.len() - 1 - depth])
    }

    /// Pops the top entry and resolves it.
    pub fn pop_stack_value(&mut self) -> (r: Result<WrappedValue, Trap>)
        ensures
            match old(self)@.pop_value() {
                Ok((m, v)) => r matches Ok(w) && w@ == v && final(self)@ == m,
                Err(t) => r matches Err(e) && e == t && final(self)@ == old(self)@,
            },
    {
        if self.stack.len() == 0 {
            return Err(Trap::StackUnderflow);
        }
        match self.value_at(0) {
            Ok(v) => {
                self.discard(1);
                Ok(v)
            },
            Err(t) => Err(t),
        }
    }
}

impl Stacks {
    /// Local load.
    pub fn o_load_local(&mut self, idx: usize) -> (r: Result<(), Trap>)
        ensures
            effect(old(self)@.load_local(idx), old(self)@, final(self)@, r),
    {
        match self.fp.checked_add(idx) {
            Some(slot) => {
                self.push(StackData::Pointer(Address::StackLocal(slot)));
                Ok(())
            },
            None => Err(Trap::AddressOverflow),
        }
    }

    /// Local store.
    pub fn o_store_local(&mut self, idx: usize) -> (r: Result<(), Trap>)
        ensures
            effect(old(self)@.store_local(idx), old(self)@, final(self)@, r),
    {
        if self.stack.len() < 1 {
            return Err(Trap::StackUnderflow);
        }
        let val = match self.value_at(0) {
            Ok(v) => v,
            Err(t) => { return Err(t); },
        };
        let slot = match self.fp.checked_add(idx) {
            Some(slot) => slot,
            None => { return Err(Trap::AddressOverflow); },
        };
        if slot >= self.frames.len() {
            return Err(Trap::BadSlot);
        }
        self.discard(1);
        self.set_frame(slot, val);
        Ok(())
    }

    /// Binary operator.
    pub fn o_binop(&mut self, op: BinOp) -> (r: Result<(), Trap>)
        ensures
            effect(old(self)@.binary(op), old(self)@, final(self)@, r),
    {
        if self.stack.len() < 2 {
            return Err(Trap::StackUnderflow);
        }
        let right = match self.value_at(0) {
            Ok(v) => v,
            Err(t) => { return Err(t); },
        };
        let left = match self.value_at(1) {
            Ok(v) => v,
            Err(t) => { return Err(t); },
        };
        let val = match eval_binop(op, &left, &right) {
            Ok(v) => v,
            Err(t) => { return Err(t); },
        };
        self.discard(2);
        self.push(StackData::Value(val));
        Ok(())
    }

    /// Tuple construction.
    pub fn o_tuple(&mut self, size: usize) -> (r: Result<(), Trap>)
        ensures
            effect(old(self)@.tuple(size), old(self)@, final(self)@, r),
    {
        self.push(StackData::Value(WrappedValue::Tuple(WrappedTuple::with_size(size))));
        Ok(())
    }

    /// Field assignment while a tuple is built.
    pub fn o_tuple_assign(&mut self, idx: usize) -> (r: Result<(), Trap>)
        ensures
            effect(old(self)@.tuple_assign(idx), old(self)@, final(self)@, r),
    {
        let n = self.stack.len();
        if n < 2 {
            return Err(Trap::StackUnderflow);
        }
        let value = match self.value_at(0) {
            Ok(v) => v,
            Err(t) => { return Err(t); },
        };
        match &self.stack[n - 2] {
            StackData::Value(WrappedValue::Tuple(t)) => {
                if idx >= t.data.len() {
                    return Err(Trap::IndexOutOfRange);
                }
            },
            _ => { return Err(Trap::NotATuple); },
        }
        let ghost fields = old(self)@.peek(1)->Value_0->Tuple_0;
        self.discard(1);
        match &mut self.stack[n - 2] {
            StackData::Value(WrappedValue::Tuple(t)) => {
                t.data[idx] = value;
            },
            _ => {},
        }
        assert(self@.stack =~= old(self)@.drop(2).push(
            Entry::Value(Value::Tuple(fields.update(idx as int, value@))),
        ).stack) by {
            assert(self.stack[n - 2]@->Value_0->Tuple_0 =~= fields.update(idx as int, value@));
        }
        Ok(())
    }

    /// Field read.
    pub fn o_tuple_get(&mut self, idx: usize) -> (r: Result<(), Trap>)
        ensures
            effect(old(self)@.tuple_get(idx), old(self)@, final(self)@, r),
    {
        let n = self.stack.len();
        if n < 1 {
            return Err(Trap::StackUnderflow);
        }
        let slot = match &self.stack[n - 1] {
            StackData::Pointer(Address::StackLocal(slot)) => *slot,
            StackData::Pointer(_) => { return Err(Trap::BadAddress); },
            _ => { return Err(Trap::NotAnAddress); },
        };
        self.discard(1);
        self.push(StackData::Pointer(Address::StackComplex(slot, idx)));
        Ok(())
    }

    /// Field write.
    pub fn o_tuple_set(&mut self, idx: usize) -> (r: Result<(), Trap>)
        ensures
            effect(old(self)@.tuple_set(idx), old(self)@, final(self)@, r),
    {
        let n = self.stack.len();
        if n < 2 {
            return Err(Trap::StackUnderflow);
        }
        let address = match &self.stack[n - 1] {
            StackData::Pointer(a) => *a,
            _ => { return Err(Trap::NotAnAddress); },
        };
        let value = match self.value_at(1) {
            Ok(v) => v,
            Err(t) => { return Err(t); },
        };
        let slot = match address {
            Address::StackLocal(slot) => slot,
            _ => { return Err(Trap::BadAddress); },
        };
        if slot >= self.frames.len() {
            return Err(Trap::BadSlot);
        }
        match &self.frames[slot] {
            WrappedValue::Tuple(t) => {
                if idx >= t.data.len() {
                    return Err(Trap::IndexOutOfRange);
                }
            },
            _ => { return Err(Trap::NotATuple); },
        }
        let ghost fields = old(self)@.frames[slot as int]->Tuple_0;
        self.discard(2);
        match &mut self.frames[slot] {
            WrappedValue::Tuple(t) => {
                t.data[idx] = value;
            },
            _ => {},
        }
        assert(self@.frames =~= old(self)@.frames.update(
            slot as int,
            Value::Tuple(fields.update(idx as int, value@)),
        )) by {
            assert(self.frames[slot as int]@->Tuple_0 =~= fields.update(idx as int, value@));
        }
        Ok(())
    }
}

impl Stacks {
    /// Resolves the `n` entries of the operand stack that start at index `from`,
    /// counted from the bottom.
    fn values_from(&self, from: usize, n: usize) -> (r: Result<Vec<WrappedValue>, Trap>)
        requires
            from + n <= self@.stack.len(),
        ensures
            match self@.resolve_all(self@.stack.subrange(from as int, from + n)) {
                Ok(vs) => r matches Ok(w) && values_view(w@) == vs,
                Err(t) => r matches Err(e) && e == t,
            },
    {
        let ghost es = self@.stack.subrange(from as int, from + n);
        let mut out: Vec<WrappedValue> = Vec::new();
        let mut i: usize = 0;
        assert(es.take(0) =~= Seq::<Entry>::empty());
        assert(values_view(out@) =~= Seq::<Value>::empty());
        while i < n
            invariant
                i <= n,
                from + n <= self@.stack.len(),
                self@.stack.len() == self.stack.len(),
                es == self@.stack.subrange(from as int, from + n),
                self@.resolve_all(es.take(i as int)) == Ok::<Seq<Value>, Trap>(values_view(out@)),
            decreases n - i,
        {
            proof {
                assert(es.take(i + 1).drop_last() =~= es.take(i as int));
                assert(es.take(i + 1).last() == self@.stack[from + i]);
                lemma_resolve_all_prefix(self@, es, i + 1);
            }
            match self.to_value(&self.stack[from + i]) {
                Ok(v) => {
                    let ghost before = values_view(out@);
                    out.push(v);
                    assert(values_view(out@) =~= before.push(v@));
                },
                Err(t) => {
                    assert(self@.resolve_all(es.take(i + 1)) == Err::<Seq<Value>, Trap>(t));
                    return Err(t);
                },
            }
            i += 1;
        }
        assert(es.take(n as int) =~= es);
        Ok(out)
    }

    /// Array construction from `n` entries.
    pub fn o_vec(&mut self, size: usize) -> (r: Result<(), Trap>)
        ensures
            effect(old(self)@.vec(size), old(self)@, final(self)@, r),
    {
        let n = self.stack.len();
        if n < size {
            return Err(Trap::StackUnderflow);
        }
        assert(self@.stack.skip(n - size) =~= self@.stack.subrange(n - size, n as int));
        let array = match self.values_from(n - size, size) {
            Ok(a) => a,
            Err(t) => { return Err(t); },
        };
        self.discard(size);
        self.push(StackData::Value(WrappedValue::Array(array)));
        Ok(())
    }

    /// Array construction by repetition.
    pub fn o_repeat(&mut self, size: usize) -> (r: Result<(), Trap>)
        ensures
            effect(old(self)@.repeat(size), old(self)@, final(self)@, r),
    {
        if self.stack.len() < 1 {
            return Err(Trap::StackUnderflow);
        }
        let val = match self.value_at(0) {
            Ok(v) => v,
            Err(t) => { return Err(t); },
        };
        let mut array: Vec<WrappedValue> = Vec::new();
        let mut i: usize = 0;
        while i < size
            invariant
                i <= size,
                array.len() == i,
                forall|k: int| 0 <= k < i ==> array[k]@ == val@,
            decreases size - i,
        {
            array.push(val.clone());
            i += 1;
        }
        assert(values_view(array@) =~= repeated(val@, size as nat));
        self.discard(1);
        self.push(StackData::Value(WrappedValue::Array(array)));
        Ok(())
    }

    /// Length query.
    pub fn o_len(&mut self) -> (r: Result<(), Trap>)
        ensures
            effect(old(self)@.len(), old(self)@, final(self)@, r),
    {
        if self.stack.len() < 1 {
            return Err(Trap::StackUnderflow);
        }
        let v = match self.value_at(0) {
            Ok(v) => v,
            Err(t) => { return Err(t); },
        };
        let len = match &v {
            WrappedValue::Array(array) => array.len(),
            _ => { return Err(Trap::NotAnArray); },
        };
        self.discard(1);
        self.push(StackData::Value(WrappedValue::Usize(len)));
        Ok(())
    }

    /// The array at an address, to read.
    fn array_at(&self, a: Address) -> (r: Result<&Vec<WrappedValue>, Trap>)
        ensures
            match self@.array_at(a) {
                Ok(elems) => r matches Ok(v) && values_view(v@) == elems,
                Err(t) => r matches Err(e) && e == t,
            },
    {
        match a {
            Address::StackLocal(slot) => {
                if slot >= self.frames.len() {
                    return Err(Trap::BadSlot);
                }
                match &self.frames[slot] {
                    WrappedValue::Array(array) => Ok(array),
                    _ => Err(Trap::NotAnArray),
                }
            },
            Address::StackComplex(slot, field) => {
                if slot >= self.frames.len() {
                    return Err(Trap::BadSlot);
                }
                match &self.frames[slot] {
                    WrappedValue::Tuple(t) => {
                        if field >= t.data.len() {
                            return Err(Trap::IndexOutOfRange);
                        }
                        match &t.data[field] {
                            WrappedValue::Array(array) => Ok(array),
                            _ => Err(Trap::NotAnArray),
                        }
                    },
                    _ => Err(Trap::NotATuple),
                }
            },
            Address::StaticFunc(_) => Err(Trap::BadAddress),
        }
    }

    /// Resolves the entry `depth` places below the top to an index.
    fn index_at(&self, depth: usize) -> (r: Result<usize, Trap>)
        requires
            depth < self@.stack.len(),
        ensures
            r == self@.resolve_index(self@.peek(depth as int)),
    {
        match self.value_at(depth) {
            Ok(v) => v.unwrap_usize(),
            Err(t) => Err(t),
        }
    }

    /// Element read.
    pub fn o_get_index(&mut self) -> (r: Result<(), Trap>)
        ensures
            effect(old(self)@.get_index(), old(self)@, final(self)@, r),
    {
        let n = self.stack.len();
        if n < 2 {
            return Err(Trap::StackUnderflow);
        }
        let address = match &self.stack[n - 1] {
            StackData::Pointer(a) => *a,
            _ => { return Err(Trap::NotAnAddress); },
        };
        let index = match self.index_at(1) {
            Ok(i) => i,
            Err(t) => { return Err(t); },
        };
        let val = match self.array_at(address) {
            Ok(array) => {
                if index >= array.len() {
                    return Err(Trap::IndexOutOfRange);
                }
                array[index].clone()
            },
            Err(t) => { return Err(t); },
        };
        self.discard(2);
        self.push(StackData::Value(val));
        Ok(())
    }

    /// Element write.
    pub fn o_assign_index(&mut self) -> (r: Result<(), Trap>)
        ensures
            effect(old(self)@.assign_index(), old(self)@, final(self)@, r),
    {
        let n = self.stack.len();
        if n < 3 {
            return Err(Trap::StackUnderflow);
        }
        let address = match &self.stack[n - 1] {
            StackData::Pointer(a) => *a,
            _ => { return Err(Trap::NotAnAddress); },
        };
        let index = match self.index_at(1) {
            Ok(i) => i,
            Err(t) => { return Err(t); },
        };
        let value = match self.value_at(2) {
            Ok(v) => v,
            Err(t) => { return Err(t); },
        };
        match self.array_at(address) {
            Ok(array) => {
                if index >= array.len() {
                    return Err(Trap::IndexOutOfRange);
                }
            },
            Err(t) => { return Err(t); },
        }
        let ghost elems = old(self)@.array_at(address)->Ok_0;
        self.discard(3);
        match address {
            Address::StackLocal(slot) => {
                match &mut self.frames[slot] {
                    WrappedValue::Array(array) => {
                        array[index] = value;
                    },
                    _ => {},
                }
                assert(self@.frames =~= old(self)@.frames.update(
                    slot as int,
                    Value::Array(elems.update(index as int, value@)),
                )) by {
                    assert(self.frames[slot as int]@->Array_0 =~= elems.update(
                        index as int,
                        value@,
                    ));
                }
            },
            Address::StackComplex(slot, field) => {
                let ghost fields = old(self)@.frames[slot as int]->Tuple_0;
                match &mut self.frames[slot] {
                    WrappedValue::Tuple(t) => {
                        match &mut t.data[field] {
                            WrappedValue::Array(array) => {
                                array[index] = value;
                            },
                            _ => {},
                        }
                    },
                    _ => {},
                }
                assert(self@.frames =~= old(self)@.frames.update(
                    slot as int,
                    Value::Tuple(
                        fields.update(
                            field as int,
                            Value::Array(elems.update(index as int, value@)),
                        ),
                    ),
                )) by {
                    let t = self.frames[slot as int]->Tuple_0;
                    assert(t.data[field as int]@->Array_0 =~= elems.update(index as int, value@));
                    assert(self.frames[slot as int]@->Tuple_0 =~= fields.update(
                        field as int,
                        Value::Array(elems.update(index as int, value@)),
                    ));
                }
            },
            Address::StaticFunc(_) => {},
        }
        Ok(())
    }

    /// Take-address-of.
    pub fn o_borrow(&mut self) -> (r: Result<(), Trap>)
        ensures
            effect(old(self)@.borrow(), old(self)@, final(self)@, r),
    {
        let n = self.stack.len();
        if n < 1 {
            return Err(Trap::StackUnderflow);
        }
        let address = match &self.stack[n - 1] {
            StackData::Pointer(a) => *a,
            _ => { return Err(Trap::NotAnAddress); },
        };
        self.discard(1);
        self.push(StackData::Value(WrappedValue::Address(address)));
        Ok(())
    }

    /// Resolves the entry `depth` places below the top to the slot it points to.
    fn target_at(&self, depth: usize) -> (r: Result<Address, Trap>)
        requires
            depth < self@.stack.len(),
        ensures
            r == self@.resolve_target(self@.peek(depth as int)),
    {
        match self.value_at(depth) {
            Ok(WrappedValue::Address(Address::StackLocal(slot))) => Ok(Address::StackLocal(slot)),
            Ok(WrappedValue::Address(_)) => Err(Trap::BadAddress),
            Ok(_) => Err(Trap::NotAnAddress),
            Err(t) => Err(t),
        }
    }

    /// Dereference.
    pub fn o_deref(&mut self) -> (r: Result<(), Trap>)
        ensures
            effect(old(self)@.deref(), old(self)@, final(self)@, r),
    {
        if self.stack.len() < 1 {
            return Err(Trap::StackUnderflow);
        }
        let target = match self.target_at(0) {
            Ok(a) => a,
            Err(t) => { return Err(t); },
        };
        self.discard(1);
        self.push(StackData::Pointer(target));
        Ok(())
    }

    /// Store through an address.
    pub fn o_deref_store(&mut self) -> (r: Result<(), Trap>)
        ensures
            effect(old(self)@.deref_store(), old(self)@, final(self)@, r),
    {
        if self.stack.len() < 2 {
            return Err(Trap::StackUnderflow);
        }
        let slot = match self.target_at(0) {
            Ok(Address::StackLocal(slot)) => slot,
            Ok(_) => { return Err(Trap::BadAddress); },
            Err(t) => { return Err(t); },
        };
        let value = match self.value_at(1) {
            Ok(v) => v,
            Err(t) => { return Err(t); },
        };
        if slot >= self.frames.len() {
            return Err(Trap::BadSlot);
        }
        self.discard(2);
        self.set_frame(slot, value);
        Ok(())
    }
}

impl Stacks {
    /// Function prologue: claims the window of `func_stacksize` slots at the
    /// frame pointer and moves the arguments into it.
    pub fn o_stackframe(&mut self, func_stacksize: usize) -> (r: Result<(), Trap>)
        ensures
            effect(old(self)@.prologue(func_stacksize), old(self)@, final(self)@, r),
    {
        let len = self.stack.len();
        if len < 1 {
            return Err(Trap::MissingArgCount);
        }
        let n = match &self.stack[len - 1] {
            StackData::ArgCount(n) => *n,
            _ => { return Err(Trap::MissingArgCount); },
        };
        if n > func_stacksize {
            return Err(Trap::TooManyArguments);
        }
        let end = match self.fp.checked_add(func_stacksize) {
            Some(end) => end,
            None => { return Err(Trap::AddressOverflow); },
        };
        if len - 1 < n {
            return Err(Trap::StackUnderflow);
        }
        let mut args = match self.values_from(len - 1 - n, n) {
            Ok(a) => a,
            Err(t) => { return Err(t); },
        };
        let ghost arg_values = values_view(args@);
        let ghost target = claim(
            old(self)@.frames,
            self.fp as int,
            func_stacksize as int,
            arg_values,
        );
        proof {
            lemma_resolve_all_prefix(old(self)@, old(self)@.arg_entries(n), 0);
        }
        self.discard(n + 1);
        // acquire space on the frame stack
        while self.frames.len() < end
            invariant
                self.stack@ == old(self).stack@.take(len - 1 - n),
                self.fp == old(self).fp,
                self.saved@ == old(self).saved@,
                old(self).frames@.len() <= self.frames@.len(),
                self.frames@.len() <= target.len(),
                forall|k: int| 0 <= k < old(self).frames@.len() ==> self.frames[k] == old(self).frames[k],
                forall|k: int| old(self).frames@.len() <= k < self.frames@.len() ==> self.frames[k] is Absent,
                target.len() == (if old(self).frames@.len() >= end { old(self).frames@.len() } else { end as nat }),
            decreases end - self.frames.len(),
        {
            self.frames.push(WrappedValue::Absent);
        }
        let fp = self.fp;
        let mut i: usize = func_stacksize;
        while i > n
            invariant
                n <= i <= func_stacksize,
                fp + func_stacksize == end,
                end <= self.frames@.len(),
                self.frames@.len() == target.len(),
                self.stack@ == old(self).stack@.take(len - 1 - n),
                self.fp == fp,
                self.saved@ == old(self).saved@,
                forall|k: int| 0 <= k < self.frames@.len() && !(fp <= k < end) ==> self.frames[k]@ == target[k],
                forall|k: int| fp + i <= k < end ==> self.frames[k] is Absent,
            decreases i,
        {
            i -= 1;
            self.frames[fp + i] = WrappedValue::Absent;
        }
        while i > 0
            invariant
                i <= n,
                n <= func_stacksize,
                args@.len() == i,
                values_view(args@) == arg_values.take(i as int),
                arg_values.len() == n,
                fp + func_stacksize == end,
                end <= self.frames@.len(),
                self.frames@.len() == target.len(),
                self.stack@ == old(self).stack@.take(len - 1 - n),
                self.fp == fp,
                self.saved@ == old(self).saved@,
                forall|k: int| 0 <= k < self.frames@.len() && !(fp <= k < end) ==> self.frames[k]@ == target[k],
                forall|k: int| fp + n <= k < end ==> self.frames[k] is Absent,
                forall|k: int| fp + i <= k < fp + n ==> self.frames[k]@ == arg_values[k - fp],
            decreases i,
        {
            i -= 1;
            let ghost before = args@;
            let v = args.pop().unwrap();
            assert(values_view(args@) =~= arg_values.take(i as int));
            assert(v@ == values_view(before)[i as int]);
            self.frames[fp + i] = v;
        }
        assert(self@.frames =~= target);
        assert(self@.stack =~= old(self)@.stack.take(len - 1 - n));
        Ok(())
    }

    /// The end of a call: the caller's frame pointer is restored.
    pub fn o_return(&mut self) -> (r: Result<(), Trap>)
        ensures
            effect(old(self)@.leave(), old(self)@, final(self)@, r),
    {
        match self.saved.pop() {
            Some(old_pointer) => {
                self.fp = old_pointer;
                Ok(())
            },
            None => Err(Trap::MissingFramePointer),
        }
    }

    /// The condition of a conditional jump or a guard, read without popping it.
    pub fn condition(&self) -> (r: Result<bool, Trap>)
        ensures
            match self@.condition() {
                Ok((_, b)) => r == Ok::<bool, Trap>(b),
                Err(t) => r == Err::<bool, Trap>(t),
            },
    {
        if self.stack.len() < 1 {
            return Err(Trap::StackUnderflow);
        }
        match self.value_at(0) {
            Ok(WrappedValue::Bool(b)) => Ok(b),
            Ok(_) => Err(Trap::NotABool),
            Err(t) => Err(t),
        }
    }

    /// Pops the condition of a conditional jump or a guard.
    pub fn o_condition(&mut self) -> (r: Result<bool, Trap>)
        ensures
            match old(self)@.condition() {
                Ok((m, b)) => r == Ok::<bool, Trap>(b) && final(self)@ == m,
                Err(t) => r == Err::<bool, Trap>(t) && final(self)@ == old(self)@,
            },
    {
        if self.stack.len() < 1 {
            return Err(Trap::StackUnderflow);
        }
        match self.value_at(0) {
            Ok(WrappedValue::Bool(b)) => {
                self.discard(1);
                Ok(b)
            },
            Ok(_) => Err(Trap::NotABool),
            Err(t) => Err(t),
        }
    }

    /// The outcome of a guard: whether the condition on top of the operand stack,
    /// once popped, differs from what the guard expects.
    pub fn o_guard(&mut self, expected: bool) -> (r: Result<bool, Trap>)
        ensures
            match old(self)@.condition() {
                Ok((m, b)) => r == Ok::<bool, Trap>(b != expected) && final(self)@ == m,
                Err(t) => r == Err::<bool, Trap>(t) && final(self)@ == old(self)@,
            },
    {
        match self.o_condition() {
            Ok(b) => Ok(b != expected),
            Err(t) => Err(t),
        }
    }

    /// The function that the call on top of the operand stack names.
    pub fn callee(&self) -> (r: Result<FuncId, Trap>)
        ensures
            r == self@.callee(),
    {
        if self.stack.len() < 1 {
            return Err(Trap::StackUnderflow);
        }
        match self.value_at(0) {
            Ok(WrappedValue::Address(Address::StaticFunc(id))) => Ok(id),
            Ok(_) => Err(Trap::NotCallable),
            Err(t) => Err(t),
        }
    }

    /// Enters a callee: pops its address, saves the frame pointer and moves it
    /// up by `frame_size`, the frame size that the callee declares.
    pub fn enter(&mut self, frame_size: usize) -> (r: Result<(), Trap>)
        ensures
            effect(old(self)@.enter(frame_size), old(self)@, final(self)@, r),
    {
        match self.callee() {
            Ok(_) => {},
            Err(t) => { return Err(t); },
        }
        let next = match self.fp.checked_add(frame_size) {
            Some(next) => next,
            None => { return Err(Trap::AddressOverflow); },
        };
        self.discard(1);
        self.saved.push(self.fp);
        self.fp = next;
        assert(self@.stack =~= old(self)@.stack.drop_last());
        Ok(())
    }

    /// The argument that an intrinsic sees, read before the call is entered.
    pub fn intrinsic_argument(&self) -> (r: Result<WrappedValue, Trap>)
        ensures
            match self@.intrinsic_argument() {
                Ok(v) => r matches Ok(w) && w@ == v,
                Err(t) => r matches Err(e) && e == t,
            },
    {
        if self.stack.len() < 3 {
            return Err(Trap::StackUnderflow);
        }
        self.value_at(2)
    }

    /// Executes an instruction that is no jump, call, return or guard.
    pub fn execute(&mut self, opcode: OpCode) -> (r: Result<(), Trap>)
        ensures
            effect(old(self)@.apply(opcode), old(self)@, final(self)@, r),
    {
        match opcode {
            OpCode::StackFrame(size) => self.o_stackframe(size),
            OpCode::RETURN_POINTER => Ok(()),
            OpCode::Use => Ok(()),
            OpCode::LoadFunc(id) => {
                self.push(StackData::Pointer(Address::StaticFunc(id)));
                Ok(())
            },
            OpCode::ArgCount(n) => {
                self.push(StackData::ArgCount(n));
                Ok(())
            },
            OpCode::TUPLE(n) => self.o_tuple(n),
            OpCode::TUPLE_ASSIGN(idx) => self.o_tuple_assign(idx),
            OpCode::TUPLE_GET(idx) => self.o_tuple_get(idx),
            OpCode::TUPLE_SET(idx) => self.o_tuple_set(idx),
            OpCode::VEC(n) => self.o_vec(n),
            OpCode::Repeat(n) => self.o_repeat(n),
            OpCode::AssignIndex => self.o_assign_index(),
            OpCode::GetIndex => self.o_get_index(),
            OpCode::Len => self.o_len(),
            OpCode::SignedInteger(n) => {
                self.push(StackData::Value(WrappedValue::I64(n)));
                Ok(())
            },
            OpCode::UnsignedInteger(n) => {
                self.push(StackData::Value(WrappedValue::U64(n)));
                Ok(())
            },
            OpCode::Usize(n) => {
                self.push(StackData::Value(WrappedValue::Usize(n)));
                Ok(())
            },
            OpCode::Bool(b) => {
                self.push(StackData::Value(WrappedValue::Bool(b)));
                Ok(())
            },
            OpCode::StoreLocal(idx) => self.o_store_local(idx),
            OpCode::LoadLocal(idx) => self.o_load_local(idx),
            OpCode::BINOP(op) => self.o_binop(op),
            OpCode::BORROW(_) => self.o_borrow(),
            OpCode::DEREF => self.o_deref(),
            OpCode::DEREF_STORE => self.o_deref_store(),
            _ => Err(Trap::Unsupported),
        }
    }
}

} // verus!
