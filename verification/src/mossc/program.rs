//! The program store: the code of each function that has been compiled, and
//! the names of the functions that the host provides.

use std::collections::BTreeMap;
use vstd::prelude::*;
use crate::mossc::bytecode::{FuncId, Function, OpCode};

verus! {

/// What the machine does, beyond an ordinary call, when a host function is called.
#[derive(Clone, Copy, Debug, PartialEq, Eq, Structural)]
pub enum Intrinsic {
    /// Writes its argument, a pointer-sized integer, as a line of its own.
    Out,
    /// Writes the character whose code is its argument.
    Print,
    /// Marks the head of a loop; its argument names the loop.
    MergePoint,
    /// A name that the machine does not know: an ordinary call.
    Other,
}

/// The intrinsic that a name stands for.
pub open spec fn intrinsic_of(name: Seq<char>) -> Intrinsic {
    if name == "out"@ {
        Intrinsic::Out
    } else if name == "print"@ {
        Intrinsic::Print
    } else if name == "met_merge_point"@ {
        Intrinsic::MergePoint
    } else {
        Intrinsic::Other
    }
}

/// Whether two strings hold the same characters.
pub fn same_name(a: &str, b: &str) -> (r: bool)
    ensures
        r == (a@ == b@),
{
    let n = a.unicode_len();
    if n != b.unicode_len() {
        return false;
    }
    let mut i: usize = 0;
    while i < n
        invariant
            i <= n,
            n == a@.len(),
            n == b@.len(),
            forall|k: int| 0 <= k < i ==> a@[k] == b@[k],
        decreases n - i,
    {
        if a.get_char(i) != b.get_char(i) {
            return false;
        }
        i += 1;
    }
    assert(a@ =~= b@);
    true
}

impl Intrinsic {
    /// The intrinsic behind a name.
    pub fn from_name(name: &str) -> (r: Intrinsic)
        ensures
            r == intrinsic_of(name@),
    {
        if same_name(name, "out") {
            Intrinsic::Out
        } else if same_name(name, "print") {
            Intrinsic::Print
        } else if same_name(name, "met_merge_point") {
            Intrinsic::MergePoint
        } else {
            Intrinsic::Other
        }
    }
}

/// The mathematical model of a [`Program`].
pub struct ProgramView {
    /// The code of each function that is in the store.
    pub functions: Map<FuncId, Seq<OpCode>>,
    /// The name of each function that the host provides.
    pub internals: Map<FuncId, Seq<char>>,
}

impl ProgramView {
    /// Whether every function is short enough for program counters to count
    /// its instructions. The model of every store is.
    pub open spec fn wf(self) -> bool {
        forall|id: FuncId| #[trigger]
            self.functions.contains_key(id) ==> self.functions[id].len() <= usize::MAX
    }

    /// The intrinsic behind a function, if the host provides it.
    pub open spec fn intrinsic(self, id: FuncId) -> Option<Intrinsic> {
        if self.internals.contains_key(id) {
            Some(intrinsic_of(self.internals[id]))
        } else {
            None
        }
    }
}

/// The program store. A function enters it once and is never changed.
pub struct Program {
    pub krates: BTreeMap<FuncId, Function>,
    pub internals: BTreeMap<FuncId, String>,
}

impl View for Program {
    type V = ProgramView;

    open spec fn view(&self) -> ProgramView {
        ProgramView {
            functions: Map::new(
                |id: FuncId| self.krates@.contains_key(id),
                |id: FuncId| self.krates@[id]@,
            ),
            internals: Map::new(
                |id: FuncId| self.internals@.contains_key(id),
                |id: FuncId| self.internals@[id]@,
            ),
        }
    }
}

/// Program counters can count the instructions of every function of a store.
pub proof fn lemma_program_is_countable(program: Program)
    ensures
        program@.wf(),
{
    assert forall|id: FuncId| #[trigger] program@.functions.contains_key(id) implies program@.functions[id].len()
        <= usize::MAX by {
        let code = program.krates@[id];
        assert(code@.len() == code.len());
    }
}

impl Program {
    /// An empty store.
    pub fn new() -> (r: Program)
        ensures
            r@.functions == Map::<FuncId, Seq<OpCode>>::empty(),
            r@.internals == Map::<FuncId, Seq<char>>::empty(),
    {
        let r = Program { krates: BTreeMap::new(), internals: BTreeMap::new() };
        assert(r@.functions =~= Map::<FuncId, Seq<OpCode>>::empty());
        assert(r@.internals =~= Map::<FuncId, Seq<char>>::empty());
        r
    }

    /// The code of a function, if the store holds it.
    pub fn get_func(&self, def_id: FuncId) -> (r: Option<&Function>)
        ensures
            match r {
                Some(f) => self@.functions.contains_key(def_id) && f@ == self@.functions[def_id],
                None => !self@.functions.contains_key(def_id),
            },
    {
        self.krates.get(&def_id)
    }

    /// Puts the code of a function into the store, unless the store holds the
    /// function already. Says whether it did.
    pub fn insert(&mut self, def_id: FuncId, function: Function) -> (fresh: bool)
        ensures
            fresh == !old(self)@.functions.contains_key(def_id),
            fresh ==> final(self)@.functions == old(self)@.functions.insert(def_id, function@),
            !fresh ==> final(self)@.functions == old(self)@.functions,
            final(self)@.internals == old(self)@.internals,
    {
        if self.krates.contains_key(&def_id) {
            false
        } else {
            self.krates.insert(def_id, function);
            assert(self@.functions =~= old(self)@.functions.insert(def_id, function@));
            true
        }
    }

    /// Marks a function as provided by the host, under a name.
    pub fn add_intrinsic(&mut self, def_id: FuncId, name: String)
        ensures
            final(self)@.internals == old(self)@.internals.insert(def_id, name@),
            final(self)@.functions == old(self)@.functions,
    {
        self.internals.insert(def_id, name);
        assert(self@.internals =~= old(self)@.internals.insert(def_id, name@));
    }

    /// The intrinsic behind a function, if the host provides it.
    pub fn is_intrinsic(&self, def_id: FuncId) -> (r: Option<Intrinsic>)
        ensures
            r == self@.intrinsic(def_id),
    {
        match self.internals.get(&def_id) {
            Some(name) => Some(Intrinsic::from_name(name.as_str())),
            None => None,
        }
    }
}

} // verus!
