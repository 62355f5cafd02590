//! The tracing engine: which loops are hot, the trace that is being recorded,
//! and the traces that are ready to be replayed.
//!
//! A loop is named by the key that its merge point hands over. A key is cold
//! while its visits are counted, is recorded once the count passes
//! [`HOT_LOOP`], and is compiled when the recording comes back to the merge
//! point it started at. At most one recording runs at a time; a recording
//! that meets another merge point, or leaves its function, is dropped.
//! A key that is compiled stays compiled, with the trace it got.

use std::collections::BTreeMap;
use vstd::prelude::*;
use crate::mossc::bytecode::{FuncId, Guard, OpCode};

verus! {

/// The number of visits after which a loop counts as hot.
pub const HOT_LOOP: usize = 5;

/// The number of instructions that a trace stays below.
pub const MAX_TRACE: usize = usize::MAX;

/// A visit of a merge point: the call of the merge-point intrinsic at `pc` of
/// `func`, a function whose frame has `frame_size` slots, with `key` as its
/// argument.
#[derive(Clone, Copy, Debug, PartialEq, Eq)]
pub struct Visit {
    pub key: usize,
    pub func: FuncId,
    pub pc: usize,
    pub frame_size: usize,
}

/// A finished trace.
pub struct Trace {
    /// The function that the trace was recorded in.
    pub func: FuncId,
    /// The program counter of the merge-point call that the trace starts
    /// after and ends with.
    pub site: usize,
    /// The frame size of the function.
    pub frame_size: usize,
    /// The recorded instructions.
    pub ops: Vec<OpCode>,
    /// For each recorded instruction, the program counter of the instruction
    /// that it was recorded from.
    pub path: Vec<usize>,
}

/// The mathematical model of a [`Trace`].
pub struct TraceView {
    pub func: FuncId,
    pub site: usize,
    pub frame_size: usize,
    pub ops: Seq<OpCode>,
    pub path: Seq<usize>,
}

impl View for Trace {
    type V = TraceView;

    open spec fn view(&self) -> TraceView {
        TraceView {
            func: self.func,
            site: self.site,
            frame_size: self.frame_size,
            ops: self.ops@,
            path: self.path@,
        }
    }
}

/// The mathematical model of the trace that is being recorded.
pub struct Recording {
    /// The key of the merge point where the recording started.
    pub key: usize,
    /// The call depth of the function that is being recorded.
    pub depth: nat,
    /// The function that is being recorded.
    pub func: FuncId,
    /// The program counter of the merge-point call where the recording started.
    pub site: usize,
    /// The frame size of the function.
    pub frame_size: usize,
    /// What has been recorded so far.
    pub buffer: Seq<OpCode>,
    /// For each recorded instruction, the program counter of the instruction
    /// that it was recorded from.
    pub path: Seq<usize>,
}

impl Recording {
    /// The trace that the recording becomes when it is back at its merge point.
    pub open spec fn finished(self) -> TraceView {
        TraceView {
            func: self.func,
            site: self.site,
            frame_size: self.frame_size,
            ops: self.buffer,
            path: self.path,
        }
    }
}

impl TraceView {
    /// Whether a visit is one that replays the trace: it is made by the call
    /// that the trace was recorded at, from a frame of the size it was
    /// recorded with.
    pub open spec fn fits(self, visit: Visit) -> bool {
        self.func == visit.func && self.site == visit.pc && self.frame_size == visit.frame_size
    }
}

/// The mathematical model of the tracing engine.
pub struct JitView {
    /// Whether the engine is switched on. It never changes.
    pub enabled: bool,
    /// The number of visits of each cold key that has been visited.
    pub counters: Map<usize, usize>,
    /// The recording, while there is one.
    pub recording: Option<Recording>,
    /// The compiled traces.
    pub traces: Map<usize, TraceView>,
}

/// What a recording keeps of an instruction that the general loop executed:
/// nothing of an unconditional jump, a guard for a conditional jump, and any
/// other instruction as it is. `taken` is the condition that a conditional
/// jump found. The two instructions that belong to traces alone are not
/// executed by the general loop, and not kept.
pub open spec fn recorded(op: OpCode, func: FuncId, pc: usize, taken: bool) -> Option<OpCode> {
    match op {
        OpCode::JUMP(_) | OpCode::JUMP_REL(_) | OpCode::Guard(_) | OpCode::Debug(_) => None,
        OpCode::JUMP_IF(_) | OpCode::JUMP_REL_IF(_) => Some(
            OpCode::Guard(Guard { expected: taken, recovery: func, pc: pc }),
        ),
        _ => Some(op),
    }
}

/// Whether an instruction ends the recording of the function that executes it:
/// a return leaves the loop, and a prologue starts the function anew.
pub open spec fn ends_recording(op: OpCode) -> bool {
    op is RETURN || op is StackFrame
}

impl JitView {
    /// The engine at the start: nothing counted, recorded or compiled.
    pub open spec fn new(enabled: bool) -> JitView {
        JitView {
            enabled,
            counters: Map::empty(),
            recording: None,
            traces: Map::empty(),
        }
    }

    /// Whether a key is cold: its visits are being counted, or it is being recorded.
    pub open spec fn is_cold(self, key: usize) -> bool {
        self.counters.contains_key(key) || (self.recording matches Some(r) && r.key == key)
    }

    /// Whether a key is compiled: it has a trace.
    pub open spec fn is_compiled(self, key: usize) -> bool {
        self.traces.contains_key(key)
    }

    /// No key is cold and compiled at once, and nothing is counted while a
    /// recording runs.
    pub open spec fn wf(self) -> bool {
        &&& forall|key: usize| !(self.is_cold(key) && #[trigger] self.is_compiled(key))
        &&& self.recording is Some ==> self.counters == Map::<usize, usize>::empty()
    }

    /// Whether `later` has every trace of `self`, unchanged.
    pub open spec fn traces_kept_by(self, later: JitView) -> bool {
        forall|key: usize| #[trigger]
            self.traces.contains_key(key) ==> later.traces.contains_key(key) && later.traces[key]
                == self.traces[key]
    }

    /// The number of visits counted for a key.
    pub open spec fn count(self, key: usize) -> usize {
        if self.counters.contains_key(key) {
            self.counters[key]
        } else {
            0
        }
    }

    /// Whether the instructions of the function at call depth `depth` are being recorded.
    pub open spec fn records_at(self, depth: nat) -> bool {
        self.recording matches Some(r) && r.depth == depth
    }

    /// The engine after the general loop executed `op` at `pc` of `func`, at
    /// call depth `depth`. A recording that would get longer than a trace
    /// can be is dropped.
    pub open spec fn observe(
        self,
        depth: nat,
        func: FuncId,
        pc: usize,
        op: OpCode,
        taken: bool,
    ) -> JitView {
        if self.records_at(depth) {
            if ends_recording(op) {
                JitView { recording: None, ..self }
            } else {
                match recorded(op, func, pc, taken) {
                    None => self,
                    Some(kept) => {
                        let r = self.recording->Some_0;
                        if r.buffer.len() + 1 < MAX_TRACE {
                            JitView {
                                recording: Some(
                                    Recording {
                                        buffer: r.buffer.push(kept),
                                        path: r.path.push(pc),
                                        ..r
                                    },
                                ),
                                ..self
                            }
                        } else {
                            JitView { recording: None, ..self }
                        }
                    },
                }
            }
        } else {
            self
        }
    }

    /// Whether a visit, made at call depth `depth`, closes the recording: it
    /// is made by the call that the recording started at, in the same call,
    /// with the same key.
    pub open spec fn closes(self, visit: Visit, depth: nat) -> bool {
        &&& self.recording matches Some(r)
        &&& r.key == visit.key
        &&& r.depth == depth
        &&& r.func == visit.func
        &&& r.site == visit.pc
    }

    /// The engine after a visit of a merge point, made at call depth `depth`;
    /// and whether the visitor goes on in the trace of the key.
    ///
    /// A key that has a trace is never counted or recorded again: its trace is
    /// replayed, provided the visit is made by the call that the trace was
    /// recorded at, from a frame of the size it was recorded with. A recording
    /// that comes back to the merge point it started at becomes the trace of
    /// its key. Every other visit drops the recording, if there is one, and is
    /// counted; the visit that takes the count past [`HOT_LOOP`] clears all
    /// counts and starts a recording.
    pub open spec fn merge_point(self, visit: Visit, depth: nat) -> (JitView, bool) {
        if !self.enabled {
            (self, false)
        } else if self.traces.contains_key(visit.key) {
            (JitView { recording: None, ..self }, self.traces[visit.key].fits(visit))
        } else if self.closes(visit, depth) {
            (
                JitView {
                    recording: None,
                    traces: self.traces.insert(visit.key, self.recording->Some_0.finished()),
                    ..self
                },
                false,
            )
        } else if self.count(visit.key) >= HOT_LOOP {
            (
                JitView {
                    counters: Map::empty(),
                    recording: Some(
                        Recording {
                            key: visit.key,
                            depth,
                            func: visit.func,
                            site: visit.pc,
                            frame_size: visit.frame_size,
                            buffer: Seq::empty(),
                            path: Seq::empty(),
                        },
                    ),
                    ..self
                },
                false,
            )
        } else {
            (
                JitView {
                    counters: self.counters.insert(
                        visit.key,
                        (self.count(visit.key) + 1) as usize,
                    ),
                    recording: None,
                    ..self
                },
                false,
            )
        }
    }

    /// The program counter that the instruction of the trace of `key` that
    /// replay executes at `index` was recorded at.
    pub open spec fn trace_pc(self, key: usize, index: usize) -> Option<usize> {
        match self.trace_op(key, index) {
            Some((_, i)) => if i < self.traces[key].path.len() {
                Some(self.traces[key].path[i as int])
            } else {
                None
            },
            None => None,
        }
    }

    /// The instruction of the trace of `key` that replay executes at `index`,
    /// with the index it has in the trace: past the end, replay starts over.
    pub open spec fn trace_op(self, key: usize, index: usize) -> Option<(OpCode, usize)> {
        if self.traces.contains_key(key) && self.traces[key].ops.len() > 0 {
            let ops = self.traces[key].ops;
            let i = if index < ops.len() { index } else { 0 };
            Some((ops[i as int], i))
        } else {
            None
        }
    }
}

/// Taking note of an instruction changes neither the traces nor the counts,
/// and starts no recording.
pub proof fn lemma_observe_keeps(
    jit: JitView,
    depth: nat,
    func: FuncId,
    pc: usize,
    op: OpCode,
    taken: bool,
)
    ensures
        ({
            let seen = jit.observe(depth, func, pc, op, taken);
            &&& seen.traces == jit.traces
            &&& seen.counters == jit.counters
            &&& seen.enabled == jit.enabled
            &&& seen.recording matches Some(r) ==> jit.recording is Some
                && jit.recording->Some_0.key == r.key && jit.recording->Some_0.depth == r.depth
                && jit.recording->Some_0.func == r.func && jit.recording->Some_0.site == r.site
                && jit.recording->Some_0.frame_size == r.frame_size
            &&& jit.wf() ==> seen.wf()
        }),
{
    let seen = jit.observe(depth, func, pc, op, taken);
    if jit.wf() {
        assert forall|key: usize| !(seen.is_cold(key) && #[trigger] seen.is_compiled(key)) by {
            assert(!(jit.is_cold(key) && jit.is_compiled(key)));
        }
    }
}

/// A visit of a merge point keeps every trace as it is, and leaves no key both
/// cold and compiled. The visit of a compiled key changes no count and no
/// trace, and the key is not cold afterwards: it is never counted or recorded again.
pub proof fn lemma_merge_point_keeps(jit: JitView, visit: Visit, depth: nat)
    ensures
        ({
            let key = visit.key;
            let (after, dispatch) = jit.merge_point(visit, depth);
            &&& jit.traces_kept_by(after)
            &&& after.enabled == jit.enabled
            &&& jit.wf() ==> after.wf()
            &&& jit.wf() && jit.is_compiled(key) ==> after.counters == jit.counters
                && after.traces == jit.traces && !after.is_cold(key)
            &&& dispatch ==> jit.enabled && jit.is_compiled(key) && jit.traces[key].fits(visit)
        }),
{
    let key = visit.key;
    let (after, dispatch) = jit.merge_point(visit, depth);
    if jit.wf() {
        assert forall|k: usize| !(after.is_cold(k) && #[trigger] after.is_compiled(k)) by {
            assert(!(jit.is_cold(k) && jit.is_compiled(k)));
            assert(!(jit.is_cold(key) && jit.is_compiled(key)));
        }
    }
}

/// The trace that is being recorded.
struct ActiveTrace {
    key: usize,
    depth: usize,
    func: FuncId,
    site: usize,
    frame_size: usize,
    buffer: Vec<OpCode>,
    path: Vec<usize>,
}

/// The tracing engine.
pub struct Jit {
    enabled: bool,
    trace_counter: BTreeMap<usize, usize>,
    active_trace: Option<ActiveTrace>,
    traces: BTreeMap<usize, Trace>,
}

impl View for Jit {
    type V = JitView;

    closed spec fn view(&self) -> JitView {
        JitView {
            enabled: self.enabled,
            counters: self.trace_counter@,
            recording: match self.active_trace {
                Some(a) => Some(
                    Recording {
                        key: a.key,
                        depth: a.depth as nat,
                        func: a.func,
                        site: a.site,
                        frame_size: a.frame_size,
                        buffer: a.buffer@,
                        path: a.path@,
                    },
                ),
                None => None,
            },
            traces: Map::new(
                |key: usize| self.traces@.contains_key(key),
                |key: usize| self.traces@[key]@,
            ),
        }
    }
}

impl Jit {
    /// An engine that has seen nothing yet.
    pub fn new(enabled: bool) -> (r: Jit)
        ensures
            r@ == JitView::new(enabled),
    {
        let r = Jit {
            enabled,
            trace_counter: BTreeMap::new(),
            active_trace: None,
            traces: BTreeMap::new(),
        };
        assert(r@.traces =~= Map::<usize, TraceView>::empty());
        r
    }

    /// Whether a trace is being recorded.
    pub fn is_tracing(&self) -> (r: bool)
        ensures
            r == self@.recording is Some,
    {
        self.active_trace.is_some()
    }

    /// The number of compiled traces.
    pub fn traces_len(&self) -> (r: usize)
        ensures
            r == self@.traces.dom().len(),
    {
        proof {
            assert(self@.traces.dom() =~= self.traces@.dom());
        }
        self.traces.len()
    }

    /// The instructions of the trace of a key, if the key is compiled.
    pub fn trace(&self, key: usize) -> (r: Option<Vec<OpCode>>)
        ensures
            match r {
                Some(ops) => self@.traces.contains_key(key) && ops@ == self@.traces[key].ops,
                None => !self@.traces.contains_key(key),
            },
    {
        match self.traces.get(&key) {
            Some(t) => Some(t.ops.clone()),
            None => None,
        }
    }

    /// Whether the instructions of the function at call depth `depth` are being recorded.
    pub fn records_at(&self, depth: usize) -> (r: bool)
        ensures
            r == self@.records_at(depth as nat),
    {
        match &self.active_trace {
            Some(a) => a.depth == depth,
            None => false,
        }
    }

    /// Takes note of an instruction that the general loop executed.
    pub fn observe(&mut self, depth: usize, func: FuncId, pc: usize, op: OpCode, taken: bool)
        ensures
            final(self)@ == old(self)@.observe(depth as nat, func, pc, op, taken),
    {
        if !self.records_at(depth) {
            return ;
        }
        match op {
            OpCode::RETURN | OpCode::StackFrame(_) => {
                self.active_trace = None;
            },
            OpCode::JUMP(_) | OpCode::JUMP_REL(_) | OpCode::Guard(_) | OpCode::Debug(_) => {},
            OpCode::JUMP_IF(_) | OpCode::JUMP_REL_IF(_) => {
                self.keep(OpCode::Guard(Guard { expected: taken, recovery: func, pc: pc }), pc);
            },
            _ => {
                self.keep(op, pc);
            },
        }
    }

    fn keep(&mut self, op: OpCode, pc: usize)
        requires
            old(self)@.recording is Some,
        ensures
            final(self)@ == (if old(self)@.recording->Some_0.buffer.len() + 1 < MAX_TRACE {
                JitView {
                    recording: Some(
                        Recording {
                            buffer: old(self)@.recording->Some_0.buffer.push(op),
                            path: old(self)@.recording->Some_0.path.push(pc),
                            ..old(self)@.recording->Some_0
                        },
                    ),
                    ..old(self)@
                }
            } else {
                JitView { recording: None, ..old(self)@ }
            }),
    {
        let full = match &self.active_trace {
            Some(a) => a.buffer.len() >= MAX_TRACE - 1,
            None => true,
        };
        if full {
            self.active_trace = None;
            return ;
        }
        match &mut self.active_trace {
            Some(a) => {
                a.buffer.push(op);
                a.path.push(pc);
            },
            None => {},
        }
    }

    /// Handles a visit of a merge point. Says whether the visitor goes on in a trace.
    pub fn met_merge_point(&mut self, visit: Visit, depth: usize) -> (dispatch: bool)
        ensures
            (final(self)@, dispatch) == old(self)@.merge_point(visit, depth as nat),
    {
        if !self.enabled {
            return false;
        }
        match self.traces.get(&visit.key) {
            Some(t) => {
                let fits = t.func == visit.func && t.site == visit.pc && t.frame_size
                    == visit.frame_size;
                self.active_trace = None;
                return fits;
            },
            None => {},
        }
        let finished = match &self.active_trace {
            Some(a) => a.key == visit.key && a.depth == depth && a.func == visit.func
                && a.site == visit.pc,
            None => false,
        };
        if finished {
            let mut taken: Option<ActiveTrace> = None;
            std::mem::swap(&mut self.active_trace, &mut taken);
            match taken {
                Some(a) => {
                    self.traces.insert(
                        visit.key,
                        Trace {
                            func: a.func,
                            site: a.site,
                            frame_size: a.frame_size,
                            ops: a.buffer,
                            path: a.path,
                        },
                    );
                },
                None => {},
            }
            assert(self@.traces =~= old(self)@.traces.insert(
                visit.key,
                old(self)@.recording->Some_0.finished(),
            ));
            return false;
        }
        let count = match self.trace_counter.get(&visit.key) {
            Some(c) => *c,
            None => 0,
        };
        if count >= HOT_LOOP {
            self.trace_counter.clear();
            self.active_trace = Some(
                ActiveTrace {
                    key: visit.key,
                    depth,
                    func: visit.func,
                    site: visit.pc,
                    frame_size: visit.frame_size,
                    buffer: Vec::new(),
                    path: Vec::new(),
                },
            );
        } else {
            self.trace_counter.insert(visit.key, count + 1);
            self.active_trace = None;
        }
        false
    }

    /// Where the instruction that replay executes next was recorded: the
    /// function, and the program counter in it.
    pub fn trace_location(&self, key: usize, index: usize) -> (r: Option<(FuncId, usize)>)
        ensures
            match self@.trace_pc(key, index) {
                Some(pc) => r == Some((self@.traces[key].func, pc)),
                None => r is None,
            },
    {
        match self.traces.get(&key) {
            Some(t) => {
                if t.ops.len() == 0 {
                    None
                } else {
                    let i = if index < t.ops.len() { index } else { 0 };
                    if i < t.path.len() {
                        Some((t.func, t.path[i]))
                    } else {
                        None
                    }
                }
            },
            None => None,
        }
    }

    /// The instruction that replay executes next, its index, and the frame size
    /// that the trace was recorded with.
    pub fn trace_op(&self, key: usize, index: usize) -> (r: Option<(OpCode, usize, usize)>)
        ensures
            match self@.trace_op(key, index) {
                Some((op, i)) => r == Some((op, i, self@.traces[key].frame_size)) && i
                    < usize::MAX,
                None => r is None,
            },
    {
        match self.traces.get(&key) {
            Some(t) => {
                if t.ops.len() == 0 {
                    None
                } else {
                    let i = if index < t.ops.len() { index } else { 0 };
                    Some((t.ops[i], i, t.frame_size))
                }
            },
            None => None,
        }
    }
}

} // verus!
