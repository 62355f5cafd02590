//! Values, addresses and operand-stack entries, each with its mathematical model.

use vstd::prelude::*;
use crate::mossc::bytecode::FuncId;
use crate::mossc::trap::Trap;

verus! {

/// A reference into the frame stack, or to a function. It never owns what it names.
#[derive(Clone, Copy, Debug, PartialEq, Eq, Structural)]
pub enum Address {
    /// A slot of the frame stack, by absolute index.
    StackLocal(usize),
    /// A field of the tuple that occupies a slot: (slot, field).
    StackComplex(usize, usize),
    /// A function, as a callable value.
    StaticFunc(FuncId),
}

/// The mathematical model of a [`WrappedValue`]: aggregates are sequences.
pub enum Value {
    Absent,
    StackReference(usize),
    I64(i64),
    U64(u64),
    Usize(usize),
    Bool(bool),
    Address(Address),
    Tuple(Seq<Value>),
    Array(Seq<Value>),
}

/// The mathematical model of a [`StackData`].
pub enum Entry {
    Absent,
    Pointer(Address),
    Value(Value),
    Frame(usize),
    ArgCount(usize),
}

/// A tagged value of the machine.
#[derive(Debug, PartialEq, Eq)]
pub enum WrappedValue {
    /// Nothing yet: what a fresh frame slot or tuple field holds.
    Absent,
    StackReference(usize),
    I64(i64),
    U64(u64),
    Usize(usize),
    Bool(bool),
    Address(Address),
    Tuple(WrappedTuple),
    Array(Vec<WrappedValue>),
}

/// A fixed-length sequence of values, addressed by index.
#[derive(Debug, PartialEq, Eq)]
pub struct WrappedTuple {
    pub data: Vec<WrappedValue>,
}

/// What the operand stack holds.
#[derive(Debug, PartialEq, Eq)]
pub enum StackData {
    Absent,
    /// A value that is loaded only when it is consumed.
    Pointer(Address),
    /// A value, there and then.
    Value(WrappedValue),
    /// A frame size, kept by the tracing engine.
    Frame(usize),
    /// The number of arguments of the call that follows.
    ArgCount(usize),
}

/// An address together with the value that was found there.
#[derive(Debug, PartialEq, Eq)]
pub struct StackCell {
    pub address: Address,
    pub value: WrappedValue,
}

/// The models of the elements of `v`, in order.
pub open spec fn values_view(v: Seq<WrappedValue>) -> Seq<Value>
    decreases v,
{
    Seq::new(v.len(), |i: int| if 0 <= i < v.len() { v[i]@ } else { Value::Absent })
}

impl View for WrappedValue {
    type V = Value;

    open spec fn view(&self) -> Value
        decreases self,
    {
        match self {
            WrappedValue::Absent => Value::Absent,
            WrappedValue::StackReference(i) => Value::StackReference(*i),
            WrappedValue::I64(n) => Value::I64(*n),
            WrappedValue::U64(n) => Value::U64(*n),
            WrappedValue::Usize(n) => Value::Usize(*n),
            WrappedValue::Bool(b) => Value::Bool(*b),
            WrappedValue::Address(a) => Value::Address(*a),
            WrappedValue::Tuple(t) => Value::Tuple(values_view(t.data@)),
            WrappedValue::Array(v) => Value::Array(values_view(v@)),
        }
    }
}

impl View for WrappedTuple {
    type V = Seq<Value>;

    open spec fn view(&self) -> Seq<Value> {
        values_view(self.data@)
    }
}

impl View for StackData {
    type V = Entry;

    open spec fn view(&self) -> Entry {
        match self {
            StackData::Absent => Entry::Absent,
            StackData::Pointer(a) => Entry::Pointer(*a),
            StackData::Value(v) => Entry::Value(v@),
            StackData::Frame(n) => Entry::Frame(*n),
            StackData::ArgCount(n) => Entry::ArgCount(*n),
        }
    }
}

impl View for StackCell {
    type V = (Address, Value);

    open spec fn view(&self) -> (Address, Value) {
        (self.address, self.value@)
    }
}

/// The models of the entries of `s`, in order.
pub open spec fn entries_view(s: Seq<StackData>) -> Seq<Entry> {
    Seq::new(s.len(), |i: int| s[i]@)
}

/// `values_view` keeps the length and models each element.
pub broadcast proof fn lemma_values_view(v: Seq<WrappedValue>)
    ensures
        #![trigger values_view(v)]
        values_view(v).len() == v.len(),
        forall|i: int| 0 <= i < v.len() ==> #[trigger] values_view(v)[i] == v[i]@,
{
}

/// The model of a value has the variant of the value.
pub broadcast proof fn lemma_view_variant(v: WrappedValue)
    ensures
        #![trigger v@]
        v is Absent <==> v@ is Absent,
        v matches WrappedValue::StackReference(i) ==> v@ == Value::StackReference(i),
        v matches WrappedValue::I64(n) ==> v@ == Value::I64(n),
        v matches WrappedValue::U64(n) ==> v@ == Value::U64(n),
        v matches WrappedValue::Usize(n) ==> v@ == Value::Usize(n),
        v matches WrappedValue::Bool(b) ==> v@ == Value::Bool(b),
        v matches WrappedValue::Address(a) ==> v@ == Value::Address(a),
        v matches WrappedValue::Tuple(t) ==> v@ == Value::Tuple(values_view(t.data@)),
        v matches WrappedValue::Array(a) ==> v@ == Value::Array(values_view(a@)),
{
}

/// `n` absent values.
pub open spec fn absent_values(n: nat) -> Seq<Value> {
    Seq::new(n, |i: int| Value::Absent)
}

/// `n` copies of `v`.
pub open spec fn repeated(v: Value, n: nat) -> Seq<Value> {
    Seq::new(n, |i: int| v)
}

fn clone_values(v: &Vec<WrappedValue>) -> (r: Vec<WrappedValue>)
    ensures
        values_view(r@) == values_view(v@),
    decreases v,
{
    let mut out: Vec<WrappedValue> = Vec::new();
    let mut i: usize = 0;
    while i < v.len()
        invariant
            i <= v.len(),
            out.len() == i,
            forall|k: int| 0 <= k < i ==> out[k]@ == v[k]@,
        decreases v.len() - i,
    {
        let c = v[i].clone();
        out.push(c);
        i += 1;
    }
    assert(values_view(out@) =~= values_view(v@));
    out
}

impl Clone for WrappedValue {
    /// A deep copy: the same model.
    fn clone(&self) -> (r: Self)
        ensures
            r@ == self@,
        decreases self,
    {
        match self {
            WrappedValue::Absent => WrappedValue::Absent,
            WrappedValue::StackReference(i) => WrappedValue::StackReference(*i),
            WrappedValue::I64(n) => WrappedValue::I64(*n),
            WrappedValue::U64(n) => WrappedValue::U64(*n),
            WrappedValue::Usize(n) => WrappedValue::Usize(*n),
            WrappedValue::Bool(b) => WrappedValue::Bool(*b),
            WrappedValue::Address(a) => WrappedValue::Address(*a),
            WrappedValue::Tuple(t) => WrappedValue::Tuple(WrappedTuple { data: clone_values(&t.data) }),
            WrappedValue::Array(a) => WrappedValue::Array(clone_values(a)),
        }
    }
}

impl Clone for WrappedTuple {
    fn clone(&self) -> (r: Self)
        ensures
            r@ == self@,
    {
        WrappedTuple { data: clone_values(&self.data) }
    }
}

impl Clone for StackData {
    fn clone(&self) -> (r: Self)
        ensures
            r@ == self@,
    {
        match self {
            StackData::Absent => StackData::Absent,
            StackData::Pointer(a) => StackData::Pointer(*a),
            StackData::Value(v) => StackData::Value(v.clone()),
            StackData::Frame(n) => StackData::Frame(*n),
            StackData::ArgCount(n) => StackData::ArgCount(*n),
        }
    }
}

impl Clone for StackCell {
    fn clone(&self) -> (r: Self)
        ensures
            r@ == self@,
    {
        StackCell { address: self.address, value: self.value.clone() }
    }
}

impl StackData {
    /// The value of an eager entry; any other entry is no value.
    pub fn unwrap_value(&self) -> (r: Result<WrappedValue, Trap>)
        ensures
            match self@ {
                Entry::Value(v) => r matches Ok(w) && w@ == v,
                _ => r == Err::<WrappedValue, Trap>(Trap::NotAValue),
            },
    {
        match self {
            StackData::Value(value) => Ok(value.clone()),
            _ => Err(Trap::NotAValue),
        }
    }

    /// The address of a lazy entry; any other entry is no address.
    pub fn unwrap_address(&self) -> (r: Result<Address, Trap>)
        ensures
            match self@ {
                Entry::Pointer(a) => r == Ok::<Address, Trap>(a),
                _ => r == Err::<Address, Trap>(Trap::NotAnAddress),
            },
    {
        match self {
            StackData::Pointer(address) => Ok(*address),
            _ => Err(Trap::NotAnAddress),
        }
    }
}

impl WrappedValue {
    /// The number in a pointer-sized integer; any other value is no index.
    pub fn unwrap_usize(&self) -> (r: Result<usize, Trap>)
        ensures
            match self@ {
                Value::Usize(n) => r == Ok::<usize, Trap>(n),
                _ => r == Err::<usize, Trap>(Trap::NotAnIndex),
            },
    {
        match self {
            WrappedValue::Usize(size) => Ok(*size),
            _ => Err(Trap::NotAnIndex),
        }
    }

    /// The tuple in a tuple value, to read or to change; any other value is no tuple.
    pub fn unwrap_tuple(&mut self) -> (r: Result<&mut WrappedTuple, Trap>)
        ensures
            match old(self)@ {
                Value::Tuple(fields) => r matches Ok(t) && t@ == fields
                    && final(self)@ == Value::Tuple(final(t)@),
                _ => r matches Err(e) && e == Trap::NotATuple && final(self)@ == old(self)@,
            },
    {
        match self {
            WrappedValue::Tuple(tuple) => Ok(tuple),
            _ => Err(Trap::NotATuple),
        }
    }
}

impl WrappedTuple {
    /// A tuple of `size` absent fields.
    pub fn with_size(size: usize) -> (r: Self)
        ensures
            r@ == absent_values(size as nat),
    {
        let mut v: Vec<WrappedValue> = Vec::new();
        let mut i: usize = 0;
        while i < size
            invariant
                i <= size,
                v.len() == i,
                forall|k: int| 0 <= k < i ==> v[k] is Absent,
            decreases size - i,
        {
            v.push(WrappedValue::Absent);
            i += 1;
        }
        assert(values_view(v@) =~= absent_values(size as nat));
        WrappedTuple { data: v }
    }
}

} // verus!
