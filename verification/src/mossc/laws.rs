//! What holds of the machine whatever program it runs.

use vstd::prelude::*;
use crate::mossc::bytecode::{FuncId, OpCode};
use crate::mossc::jit::{
    JitView, MAX_TRACE, Recording, ends_recording, lemma_merge_point_keeps, lemma_observe_keeps,
    recorded,
};
use crate::mossc::machine::{Control, Mode, State, Step, entry_of, jump_target};
use crate::mossc::memory::{Memory, lemma_resolve_all_each};
use crate::mossc::program::ProgramView;
use crate::mossc::trap::Trap;
use crate::mossc::value::{Address, Entry, Value};

verus! {

/// Arguments arrive in the order in which they were pushed. After a prologue
/// that found `n` arguments under the marker, slot `i` of the new frame holds
/// argument `i`, the first one pushed being argument 0, with the value it had
/// when the prologue began; the other slots of the frame are absent, the frame
/// stack is otherwise as it was, and the operand stack has lost the marker and
/// the arguments and nothing else; the frame stack has grown to the end of
/// the frame, if it was shorter. This holds for every `n`, zero included.
pub proof fn lemma_arguments_arrive_in_order(m: Memory, size: usize)
    requires
        m.prologue(size) is Ok,
    ensures
        ({
            let after = m.prologue(size)->Ok_0;
            let n = m.arg_count()->Ok_0;
            &&& m.arg_count() is Ok
            &&& n <= size
            &&& m.fp + size <= usize::MAX
            &&& after.frames.len() == (if m.frames.len() >= m.fp + size {
                m.frames.len() as int
            } else {
                m.fp + size
            })
            &&& forall|i: int|
                0 <= i < n ==> m.resolve(m.arg_entries(n)[i]) == Ok::<Value, Trap>(
                    #[trigger] after.frames[m.fp + i],
                )
            &&& forall|i: int| n <= i < size ==> #[trigger] after.frames[m.fp + i] == Value::Absent
            &&& forall|j: int|
                0 <= j < m.frames.len() && !(m.fp <= j < m.fp + size) ==> #[trigger] after.frames[j]
                    == m.frames[j]
            &&& after.stack == m.stack.take(m.stack.len() - 1 - n)
            &&& after.fp == m.fp
            &&& after.saved == m.saved
        }),
{
    let n = m.arg_count()->Ok_0;
    lemma_resolve_all_each(m, m.arg_entries(n));
}

/// A field that was written is what a load of the field finds. After the
/// field-write instruction put a value into field `idx` of the tuple in a
/// slot, the address of that field, which is what the field-read instruction
/// computes from the address of the slot, resolves to the value written.
pub proof fn lemma_field_write_is_seen(m: Memory, idx: usize)
    requires
        m.tuple_set(idx) is Ok,
    ensures
        ({
            let after = m.tuple_set(idx)->Ok_0;
            let slot = m.peek(0)->Pointer_0->StackLocal_0;
            let field = Address::StackComplex(slot, idx);
            &&& m.peek(0) == Entry::Pointer(Address::StackLocal(slot))
            &&& after.read(field) == m.resolve(m.peek(1))
            &&& after.read(field) is Ok
            &&& after.push(Entry::Pointer(Address::StackLocal(slot))).tuple_get(idx) == Ok::<
                Memory,
                Trap,
            >(after.push(Entry::Pointer(field)))
            &&& after.push(Entry::Pointer(field)).pop_value() == Ok::<(Memory, Value), Trap>(
                (after, m.resolve(m.peek(1))->Ok_0),
            )
        }),
{
    let after = m.tuple_set(idx)->Ok_0;
    let slot = m.peek(0)->Pointer_0->StackLocal_0;
    let field = Address::StackComplex(slot, idx);
    let pushed = after.push(Entry::Pointer(Address::StackLocal(slot)));
    assert(pushed.drop(1).stack =~= after.stack);
    assert(pushed.drop(1).push(Entry::Pointer(field)) == after.push(Entry::Pointer(field)));
    let loaded = after.push(Entry::Pointer(field));
    assert(loaded.drop(1).stack =~= after.stack);
    assert(loaded.drop(1) == after);
}

/// An element that was written through the address of a tuple field is what
/// a load through that address finds. After the element-write instruction
/// changed element `i` of the array in field `field` of the tuple in `slot`,
/// the address of that field resolves to the array with the new element, and
/// every other field of the tuple is as it was.
pub proof fn lemma_element_write_is_seen(m: Memory, slot: usize, field: usize)
    requires
        m.assign_index() is Ok,
        m.peek(0) == Entry::Pointer(Address::StackComplex(slot, field)),
    ensures
        ({
            let after = m.assign_index()->Ok_0;
            let a = Address::StackComplex(slot, field);
            let i = m.resolve_index(m.peek(1))->Ok_0;
            let v = m.resolve(m.peek(2))->Ok_0;
            let elems = m.array_at(a)->Ok_0;
            &&& i < elems.len()
            &&& after.read(a) == Ok::<Value, Trap>(Value::Array(elems.update(i as int, v)))
            &&& after.array_at(a)->Ok_0[i as int] == v
            &&& forall|other: usize|
                other != field ==> after.read(Address::StackComplex(slot, other)) == m.read(
                    Address::StackComplex(slot, other),
                )
        }),
{
}

/// A call moves the frame pointer by the frame size that the callee
/// declares. Where the machine stands before a call, in the general loop or
/// in replay, and the step goes on: the callee is the function whose
/// address was on top of the operand stack, its first instruction declares
/// a frame size, the frame pointer has moved up by that size, the old one
/// is saved, the address is popped, and the callee is about to start.
/// Where the store lacks the callee, the step says so and changes nothing.
pub proof fn lemma_call_moves_by_callee_frame(p: ProgramView, s: State)
    requires
        !s.done,
        s.instruction(p) == Some(OpCode::Call),
    ensures
        s.step(p).1 is Continue ==> {
            let callee = s.mem.callee()->Ok_0;
            let after = s.step(p).0;
            &&& s.mem.callee() is Ok
            &&& p.functions.contains_key(callee)
            &&& p.functions[callee].len() > 0
            &&& p.functions[callee][0] is StackFrame
            &&& after.mem.fp == s.mem.fp + p.functions[callee][0]->StackFrame_0
            &&& after.mem.saved == s.mem.saved.push(s.mem.fp)
            &&& after.mem.stack == s.mem.stack.drop_last()
            &&& after.mem.frames == s.mem.frames
            &&& after.control == entry_of(callee)
            &&& after.callers.len() == s.callers.len() + 1
        },
        s.mem.callee() is Ok && !p.functions.contains_key(s.mem.callee()->Ok_0) && (
        s.control.mode is Replay || s.control.frame_size is Some) ==> s.step(p) == (
            s,
            Step::Missing(s.mem.callee()->Ok_0),
        ),
{
}

/// The tracing engine of a machine that is about to start is well formed.
pub proof fn lemma_initial_engine_is_well_formed(entry: FuncId, tracing: bool)
    ensures
        State::initial(entry, tracing).jit.wf(),
{
}

/// A step keeps every trace as it is, and keeps the tracing engine well formed.
pub proof fn lemma_step_keeps_traces(p: ProgramView, s: State)
    ensures
        s.jit.traces_kept_by(s.step(p).0.jit),
        s.jit.wf() ==> s.step(p).0.jit.wf(),
        s.step(p).0.jit.enabled == s.jit.enabled,
{
    let c = s.control;
    if !s.done && c.mode is Baseline && p.functions.contains_key(c.func) && c.pc
        < p.functions[c.func].len() {
        let op = p.functions[c.func][c.pc as int];
        let taken = s.mem.condition()->Ok_0.1;
        lemma_observe_keeps(s.jit, s.depth(), c.func, c.pc, op, false);
        lemma_observe_keeps(s.jit, s.depth(), c.func, c.pc, op, taken);
        if op is Call && c.frame_size is Some {
            let size = c.frame_size->Some_0;
            if s.call_parts(p) is Ok && s.call_parts(p)->Ok_0.key is Some {
                let key = s.call_parts(p)->Ok_0.key->Some_0;
                let seen = s.jit.observe(s.depth(), c.func, c.pc, OpCode::Call, false);
                lemma_merge_point_keeps(seen, s.visit(key), s.depth());
            }
        }
    }
}

/// A loop that has a trace never goes back to being counted or recorded.
/// From a machine whose engine is well formed, as it is at the start, however
/// many steps are made and whatever they do, guard failures included: the
/// engine stays well formed, so no key is cold and compiled at once; and a
/// key that has a trace keeps that very trace. So such a key is not cold in
/// any later state.
pub proof fn lemma_compiled_stays_compiled(p: ProgramView, s: State, fuel: nat, key: usize)
    requires
        s.jit.wf(),
        s.jit.is_compiled(key),
    ensures
        ({
            let last = s.run(p, fuel).0;
            &&& last.jit.wf()
            &&& last.jit.is_compiled(key)
            &&& last.jit.traces[key] == s.jit.traces[key]
            &&& !last.jit.is_cold(key)
        }),
    decreases fuel,
{
    if fuel > 0 {
        lemma_step_keeps_traces(p, s);
        let (next, how) = s.step(p);
        assert(s.jit.traces.contains_key(key));
        match how {
            Step::Continue | Step::GuardFailed(_) => {
                lemma_compiled_stays_compiled(p, next, (fuel - 1) as nat, key);
            },
            _ => {},
        }
    }
    let last = s.run(p, fuel).0;
    assert(!(last.jit.is_cold(key) && last.jit.is_compiled(key)));
}

/// Whether two machines agree in all that a program can see or change: the
/// stacks, where each call stands, what has been written, and whether the
/// run is over. Only their tracing engines may differ.
pub open spec fn same_run(a: State, b: State) -> bool {
    &&& a.mem == b.mem
    &&& a.control == b.control
    &&& a.callers == b.callers
    &&& a.output == b.output
    &&& a.done == b.done
}

/// Whether no call of the machine, current or waiting, is in replay.
pub open spec fn all_baseline(s: State) -> bool {
    &&& s.control.mode is Baseline
    &&& forall|i: int| 0 <= i < s.callers.len() ==> (#[trigger] s.callers[i]).mode is Baseline
}

/// Whether no loop gets hot within `fuel` steps: no recording runs in any
/// state that the machine goes through.
pub open spec fn stays_cold(p: ProgramView, s: State, fuel: nat) -> bool {
    forall|k: nat| k <= fuel ==> (#[trigger] s.run(p, k)).0.jit.recording is None
}

/// Whether the tracing engine has done nothing that shows: no trace is
/// compiled and none is being recorded.
pub open spec fn untraced(jit: JitView) -> bool {
    &&& jit.recording is None
    &&& forall|key: usize| !#[trigger] jit.traces.contains_key(key)
}

/// One step of a machine that traces and of one that does not, from states
/// that agree, where the step starts no recording.
proof fn lemma_cold_step(p: ProgramView, a: State, b: State)
    requires
        same_run(a, b),
        all_baseline(a),
        untraced(a.jit),
        !b.jit.enabled,
        b.jit.recording is None,
        a.step(p).0.jit.recording is None,
    ensures
        a.step(p).1 == b.step(p).1,
        same_run(a.step(p).0, b.step(p).0),
        all_baseline(a.step(p).0),
        untraced(a.step(p).0.jit),
        b.step(p).0.jit == b.jit,
{
    let c = a.control;
    let (a2, how) = a.step(p);
    if !a.done && p.functions.contains_key(c.func) && c.pc < p.functions[c.func].len() {
        let op = p.functions[c.func][c.pc as int];
        let taken = a.mem.condition()->Ok_0.1;
        lemma_observe_keeps(a.jit, a.depth(), c.func, c.pc, op, false);
        lemma_observe_keeps(a.jit, a.depth(), c.func, c.pc, op, taken);
        if op is Call && c.frame_size is Some {
            let size = c.frame_size->Some_0;
            if a.call_parts(p) is Ok && a.call_parts(p)->Ok_0.key is Some {
                let key = a.call_parts(p)->Ok_0.key->Some_0;
                let seen = a.jit.observe(a.depth(), c.func, c.pc, OpCode::Call, false);
                lemma_merge_point_keeps(seen, a.visit(key), a.depth());
            }
        }
        if how is Continue {
            assert forall|i: int| 0 <= i < a2.callers.len() implies (#[trigger] a2.callers[i]).mode is Baseline by {
                if i < a.callers.len() {
                    assert(a.callers[i].mode is Baseline);
                }
            }
        }
    }
}

/// Tracing is transparent while no loop gets hot, step for step. Take a machine whose
/// tracing engine is on and one whose engine is off, in states that agree,
/// with no trace compiled or being recorded and no call in replay: such are
/// the two machines at the start of a program. If no loop of the program
/// reaches the threshold within `fuel` steps, then after these steps the two
/// machines still agree, in their stacks, in where each call stands and in
/// all they have written, and their runs have ended in the same way.
pub proof fn lemma_tracing_is_transparent_while_cold(p: ProgramView, a: State, b: State, fuel: nat)
    requires
        same_run(a, b),
        all_baseline(a),
        untraced(a.jit),
        !b.jit.enabled,
        b.jit.recording is None,
        stays_cold(p, a, fuel),
    ensures
        a.run(p, fuel).1 == b.run(p, fuel).1,
        same_run(a.run(p, fuel).0, b.run(p, fuel).0),
    decreases fuel,
{
    if fuel > 0 {
        let (a2, how) = a.step(p);
        assert(a.run(p, 1).0 == a2) by {
            assert(a2.run(p, 0) == (a2, Step::Continue));
        }
        assert(a2.jit.recording is None);
        lemma_cold_step(p, a, b);
        let b2 = b.step(p).0;
        match how {
            Step::Continue | Step::GuardFailed(_) => {
                assert forall|k: nat| k <= fuel - 1 implies (#[trigger] a2.run(p, k)).0.jit.recording is None by {
                    assert(a.run(p, k + 1) == a2.run(p, k));
                }
                lemma_tracing_is_transparent_while_cold(p, a2, b2, (fuel - 1) as nat);
            },
            _ => {},
        }
    }
}

/// Tracing is transparent for a program none of whose loops gets hot: run
/// from the start with the engine on and with the engine off, it writes the
/// same, ends in the same way, and leaves the stacks in the same state.
pub proof fn lemma_cold_program_runs_alike(p: ProgramView, entry: FuncId, fuel: nat)
    requires
        stays_cold(p, State::initial(entry, true), fuel),
    ensures
        State::initial(entry, true).run(p, fuel).1 == State::initial(entry, false).run(p, fuel).1,
        same_run(
            State::initial(entry, true).run(p, fuel).0,
            State::initial(entry, false).run(p, fuel).0,
        ),
{
    lemma_tracing_is_transparent_while_cold(
        p,
        State::initial(entry, true),
        State::initial(entry, false),
        fuel,
    );
}

/// Whether the trace instruction `kept` stands for the instruction `src` of a
/// function: it is `src` itself, or it is a guard and `src` is a conditional
/// jump. The instructions that no recording keeps stand for nothing.
pub open spec fn stands_for(kept: OpCode, src: OpCode) -> bool {
    &&& !ends_recording(src)
    &&& recorded(src, 0, 0, true) is Some
    &&& if src is JUMP_IF || src is JUMP_REL_IF {
        kept is Guard
    } else {
        kept == src
    }
}

/// Whether a machine in replay, `s`, and a machine in the general loop, `b`,
/// stand before the same instruction with the same stacks: what `s` is about
/// to replay stands for the instruction that `b` is about to execute, a jump
/// that `b` may take stays in its function, and `b` has the frame size that
/// the trace was recorded with.
pub open spec fn replays(p: ProgramView, s: State, b: State) -> bool {
    let c = b.control;
    &&& !s.done
    &&& !b.done
    &&& s.control.mode is Replay
    &&& c.mode is Baseline
    &&& s.jit.trace_op(s.control.mode->key, s.control.mode->index) is Some
    &&& p.functions.contains_key(c.func)
    &&& c.pc < p.functions[c.func].len()
    &&& stands_for(
        s.jit.trace_op(s.control.mode->key, s.control.mode->index)->Some_0.0,
        p.functions[c.func][c.pc as int],
    )
    &&& jump_target(p.functions[c.func].len(), c.pc, p.functions[c.func][c.pc as int]) is Err
        ==> !(p.functions[c.func][c.pc as int] is JUMP_IF || p.functions[c.func][c.pc as int] is JUMP_REL_IF)
    &&& c.frame_size == Some(s.jit.traces[s.control.mode->key].frame_size)
    &&& b.mem == s.mem
    &&& b.output == s.output
    &&& b.callers.len() == s.callers.len()
}

/// Whether the instruction that `s` is about to replay, if it is a guard, was
/// recorded where `b` stands.
pub open spec fn recovers_to(s: State, b: State) -> bool {
    s.jit.trace_op(s.control.mode->key, s.control.mode->index)->Some_0.0 matches OpCode::Guard(g)
        ==> g.recovery == b.control.func && g.pc == b.control.pc
}

/// What a recording keeps of an instruction stands for that instruction, and
/// a guard that it keeps was recorded where the instruction stands.
pub proof fn lemma_recorded_stands_for(src: OpCode, func: FuncId, pc: usize, taken: bool)
    requires
        !ends_recording(src),
        recorded(src, func, pc, taken) is Some,
    ensures
        stands_for(recorded(src, func, pc, taken)->Some_0, src),
        recorded(src, func, pc, taken)->Some_0 matches OpCode::Guard(g) ==> g.recovery == func
            && g.pc == pc && g.expected == taken,
{
}

/// A recording keeps what runs. Where the general loop executes an
/// instruction of the function that is being recorded, and the step goes on:
/// a return or a prologue ends the recording; an unconditional jump leaves
/// it as it is; any other instruction but a call adds one instruction to it,
/// which stands for the one that was executed, and which, if that was a
/// conditional jump, is a guard that expects the condition that was found and
/// recovers to that jump. A call adds itself; if it then visits the merge
/// point that the recording started at, the recording with the call at its
/// end becomes the trace of the key, and where it visits another merge
/// point the recording is dropped. All this of a recording that has not
/// grown as long as a trace can be.
pub proof fn lemma_recording_keeps_what_runs(p: ProgramView, s: State)
    requires
        !s.done,
        s.control.mode is Baseline,
        s.jit.records_at(s.depth()),
        s.jit.recording->Some_0.buffer.len() + 1 < MAX_TRACE,
        s.jit.wf(),
        s.step(p).1 is Continue,
    ensures
        ({
            let c = s.control;
            let op = p.functions[c.func][c.pc as int];
            let before = s.jit.recording->Some_0;
            let after = s.step(p).0.jit;
            &&& ends_recording(op) ==> after.recording is None
            &&& op is JUMP || op is JUMP_REL ==> after.recording == s.jit.recording
            &&& !ends_recording(op) && !(op is JUMP) && !(op is JUMP_REL) && !(op is Call) ==> {
                &&& after.recording is Some
                &&& after.recording->Some_0.key == before.key
                &&& after.recording->Some_0.depth == before.depth
                &&& after.recording->Some_0.frame_size == before.frame_size
                &&& after.recording->Some_0.path == before.path.push(c.pc)
                &&& after.recording->Some_0.buffer.len() == before.buffer.len() + 1
                &&& after.recording->Some_0.buffer.drop_last() == before.buffer
                &&& stands_for(after.recording->Some_0.buffer.last(), op)
                &&& after.recording->Some_0.buffer.last() matches OpCode::Guard(g) ==> g.recovery
                    == c.func && g.pc == c.pc && s.mem.condition() == Ok::<(Memory, bool), Trap>(
                    (s.step(p).0.mem, g.expected),
                )
            }
            &&& op is Call ==> {
                let with_call = Recording {
                    buffer: before.buffer.push(OpCode::Call),
                    path: before.path.push(c.pc),
                    ..before
                };
                ||| after.recording == Some(with_call)
                ||| after.recording is None && after.traces == s.jit.traces
                ||| after.recording is None && c.pc == before.site && c.func == before.func
                    && after.traces == s.jit.traces.insert(before.key, with_call.finished())
            }
        }),
{
    let c = s.control;
    let op = p.functions[c.func][c.pc as int];
    let before = s.jit.recording->Some_0;
    let after = s.step(p).0.jit;
    if !ends_recording(op) && !(op is JUMP) && !(op is JUMP_REL) && !(op is Call) {
        assert(after.recording->Some_0.buffer.drop_last() =~= before.buffer);
    }
}

/// Replay does to the stacks what the general loop does. Where a machine in
/// replay and a machine in the general loop stand before the same instruction
/// with the same stacks, and the replayed instruction is no guard that fails:
/// a step of each leaves them with the same operand stack, frame stack,
/// frame pointer and saved frame pointers, the same output and the same call
/// depth, and after a call at the start of the same callee; and where one
/// traps, the other traps in the same way.
pub proof fn lemma_replay_matches_general_loop(p: ProgramView, s: State, b: State)
    requires
        replays(p, s, b),
        !(s.step(p).1 is GuardFailed),
    ensures
        s.step(p).1 == b.step(p).1,
        s.step(p).0.mem == b.step(p).0.mem,
        s.step(p).0.output == b.step(p).0.output,
        s.step(p).0.callers.len() == b.step(p).0.callers.len(),
        p.functions[b.control.func][b.control.pc as int] is Call && s.step(p).1 is Continue
            ==> s.step(p).0.control == b.step(p).0.control,
{
}

/// A failed guard hands over to the general loop as if the trace had never
/// been taken. Where a machine in replay and a machine in the general loop
/// stand before the same conditional jump with the same stacks and the same
/// waiting callers, and the guard, recorded at that jump, fails: the machine
/// that was in replay now is in the general loop at that very jump, with the
/// condition back on the operand stack; and its next step leaves it where the
/// step of the other machine leaves that one.
pub proof fn lemma_guard_failure_recovers(p: ProgramView, s: State, b: State)
    requires
        replays(p, s, b),
        recovers_to(s, b),
        s.step(p).1 is GuardFailed,
        b.callers == s.callers,
        b.control.frame_size == s.control.frame_size,
    ensures
        ({
            let d = s.step(p).0;
            &&& d.control == b.control
            &&& d.mem.condition() == b.mem.condition()
            &&& d.output == b.output
            &&& d.callers == b.callers
            &&& d.step(p).1 == b.step(p).1
            &&& same_run(d.step(p).0, b.step(p).0)
        }),
{
    let d = s.step(p).0;
    let popped = s.mem.condition()->Ok_0.0;
    let actual = s.mem.condition()->Ok_0.1;
    assert(popped.push(Entry::Value(Value::Bool(actual))).drop(1).stack =~= popped.stack);
}

/// Where the general loop stands after it made `hops` unconditional jumps,
/// starting at `pc`; nowhere, if one of the instructions on that way is no
/// unconditional jump or leads out of the function.
pub open spec fn after_jumps(code: Seq<OpCode>, pc: usize, hops: nat) -> Option<usize>
    decreases hops,
{
    if hops == 0 {
        Some(pc)
    } else if pc < code.len() && (code[pc as int] is JUMP || code[pc as int] is JUMP_REL)
        && jump_target(code.len(), pc, code[pc as int]) is Ok {
        after_jumps(code, jump_target(code.len(), pc, code[pc as int])->Ok_0, (hops - 1) as nat)
    } else {
        None
    }
}

/// Where the general loop stands after the instruction at `pc`, if that one
/// goes the way that the trace instruction `kept` took: a conditional jump is
/// taken if the guard expects so, and every other instruction leads to the
/// next one.
pub open spec fn successor(code: Seq<OpCode>, pc: usize, kept: OpCode) -> Option<usize> {
    if (code[pc as int] is JUMP_IF || code[pc as int] is JUMP_REL_IF) && kept is Guard
        && kept->Guard_0.expected {
        match jump_target(code.len(), pc, code[pc as int]) {
            Ok(target) => Some(target),
            Err(_) => None,
        }
    } else if pc < usize::MAX {
        Some((pc + 1) as usize)
    } else {
        None
    }
}

/// Whether the `n` instructions of the trace of `key` from index `from` on
/// were recorded along a path through `func`: instruction `j` stands for the
/// instruction of `func` at `path[j]`, which is no call, and from there the
/// general loop, going the way the trace went and then making `hops[j]`
/// unconditional jumps, comes to `path[j + 1]`.
pub open spec fn follows(
    p: ProgramView,
    jit: JitView,
    key: usize,
    from: int,
    func: FuncId,
    path: Seq<usize>,
    hops: Seq<nat>,
    n: nat,
) -> bool {
    &&& jit.traces.contains_key(key)
    &&& p.functions.contains_key(func)
    &&& path.len() == n + 1
    &&& hops.len() == n
    &&& 0 <= from
    &&& from + n <= jit.traces[key].ops.len()
    &&& from + n <= usize::MAX
    &&& forall|j: int|
        0 <= j < n ==> {
            let kept = #[trigger] jit.traces[key].ops[from + j];
            let code = p.functions[func];
            &&& path[j] < code.len()
            &&& stands_for(kept, code[path[j] as int])
            &&& !(code[path[j] as int] is Call)
            &&& successor(code, path[j], kept) is Some
            &&& after_jumps(code, successor(code, path[j], kept)->Some_0, hops[j]) == Some(
                path[j + 1],
            )
        }
}

/// The number of steps that the general loop makes along a path: one for
/// each instruction, and one for each unconditional jump between them.
pub open spec fn steps_along(hops: Seq<nat>) -> nat
    decreases hops.len(),
{
    if hops.len() == 0 {
        0
    } else {
        1 + hops[0] + steps_along(hops.skip(1))
    }
}

/// Whether no guard fails in the first `n` steps of a machine.
pub open spec fn no_guard_fails(p: ProgramView, s: State, n: nat) -> bool {
    forall|k: nat| k < n ==> !((#[trigger] s.run(p, k)).0.step(p).1 is GuardFailed)
}

/// A run of `a + b` steps is a run of `a` steps and then, if the machine still
/// runs, a run of `b` steps.
pub proof fn lemma_run_split(p: ProgramView, s: State, a: nat, b: nat)
    ensures
        s.run(p, a + b) == (if s.run(p, a).1 is Continue {
            s.run(p, a).0.run(p, b)
        } else {
            s.run(p, a)
        }),
    decreases a,
{
    if a > 0 {
        let (next, how) = s.step(p);
        match how {
            Step::Continue | Step::GuardFailed(_) => {
                lemma_run_split(p, next, (a - 1) as nat, b);
                assert(a - 1 + b == (a + b) - 1);
            },
            _ => {},
        }
    } else {
        assert(0 + b == b);
    }
}

/// Unconditional jumps move the general loop and change nothing else.
pub proof fn lemma_jumps_only_move(p: ProgramView, b: State, hops: nat)
    requires
        !b.done,
        b.control.mode is Baseline,
        p.functions.contains_key(b.control.func),
        after_jumps(p.functions[b.control.func], b.control.pc, hops) is Some,
    ensures
        b.run(p, hops) == (
            State {
                control: Control {
                    pc: after_jumps(p.functions[b.control.func], b.control.pc, hops)->Some_0,
                    ..b.control
                },
                ..b
            },
            Step::Continue,
        ),
    decreases hops,
{
    if hops > 0 {
        let c = b.control;
        let op = p.functions[c.func][c.pc as int];
        lemma_observe_keeps(b.jit, b.depth(), c.func, c.pc, op, false);
        let next = b.step(p).0;
        assert(next.jit == b.jit);
        lemma_jumps_only_move(p, next, (hops - 1) as nat);
    }
}

/// Replaying a trace does to the stacks what the general loop does along the
/// path that the trace was recorded on. Take a machine in replay and a
/// machine in the general loop with the same stacks, the same callers and
/// the same output, the first before `n` instructions of a trace, none of
/// them a call, the second at the start of the path through its function
/// that these instructions follow. If no guard fails, then after the `n`
/// steps of replay, and the steps that the general loop needs for the path,
/// the two machines have the same operand stack, frame stack, frame pointer
/// and saved frame pointers and the same output, neither has touched its
/// callers, replay has moved on by `n` instructions and the general loop
/// stands at the end of the path; or both were stopped by the same trap,
/// with the same stacks.
pub proof fn lemma_replay_follows_general_loop(
    p: ProgramView,
    s: State,
    b: State,
    key: usize,
    from: usize,
    path: Seq<usize>,
    hops: Seq<nat>,
    n: nat,
)
    requires
        !s.done,
        !b.done,
        s.control.mode == (Mode::Replay { key, index: from }),
        b.control.mode is Baseline,
        follows(p, s.jit, key, from as int, b.control.func, path, hops, n),
        b.control.pc == path[0],
        b.mem == s.mem,
        b.output == s.output,
        b.callers == s.callers,
        no_guard_fails(p, s, n),
    ensures
        ({
            let (s2, hs) = s.run(p, n);
            let (b2, hb) = b.run(p, steps_along(hops));
            &&& hs == hb
            &&& s2.mem == b2.mem
            &&& s2.output == b2.output
            &&& s2.callers == s.callers
            &&& b2.callers == b.callers
            &&& hs is Continue ==> s2.control.mode == (Mode::Replay { key, index: (from + n) as usize })
                && b2.control.pc == path[n as int] && b2.control.func == b.control.func
        }),
    decreases n,
{
    if n > 0 {
        let ops = s.jit.traces[key].ops;
        let code = p.functions[b.control.func];
        assert(stands_for(ops[from + 0], code[path[0] as int]));
        assert(s.run(p, 0).0 == s);
        let (s1, hs) = s.step(p);
        let (b1, hb) = b.step(p);
        assert(hs == hb);
        let rest = steps_along(hops.skip(1));
        assert(steps_along(hops) == 1 + hops[0] + rest);
        if hs is Continue {
            assert(s1.jit == s.jit);
            assert(b1.control.pc == successor(code, path[0], ops[from + 0])->Some_0);
            lemma_jumps_only_move(p, b1, hops[0]);
            let b1j = b1.run(p, hops[0]).0;
            lemma_run_split(p, b1, hops[0], rest);
            assert(b.run(p, steps_along(hops)) == b1.run(p, hops[0] + rest));
            assert(b.run(p, steps_along(hops)) == b1j.run(p, rest));
            let path1 = path.skip(1);
            let hops1 = hops.skip(1);
            assert forall|j: int| 0 <= j < n - 1 implies ({
                let kept = #[trigger] s1.jit.traces[key].ops[from + 1 + j];
                &&& path1[j] < code.len()
                &&& stands_for(kept, code[path1[j] as int])
                &&& !(code[path1[j] as int] is Call)
                &&& successor(code, path1[j], kept) is Some
                &&& after_jumps(code, successor(code, path1[j], kept)->Some_0, hops1[j]) == Some(
                    path1[j + 1],
                )
            }) by {
                assert(stands_for(ops[from + (j + 1)], code[path[j + 1] as int]));
            }
            assert forall|k: nat| k < n - 1 implies !((#[trigger] s1.run(p, k)).0.step(p).1 is GuardFailed) by {
                assert(s.run(p, k + 1) == s1.run(p, k));
            }
            lemma_replay_follows_general_loop(
                p,
                s1,
                b1j,
                key,
                (from + 1) as usize,
                path1,
                hops1,
                (n - 1) as nat,
            );
        }
    } else {
        assert(steps_along(hops) == 0);
    }
}

/// The frame stack is never shrunk: no instruction makes it shorter.
pub proof fn lemma_frames_never_shrink(m: Memory, op: OpCode)
    requires
        m.apply(op) is Ok,
    ensures
        m.apply(op)->Ok_0.frames.len() >= m.frames.len(),
{
}

/// The frame stack is never shrunk by a step, whichever loop makes it.
pub proof fn lemma_step_keeps_frames(p: ProgramView, s: State)
    ensures
        s.step(p).0.mem.frames.len() >= s.mem.frames.len(),
{
    let c = s.control;
    if !s.done {
        match c.mode {
            Mode::Baseline => {
                if p.functions.contains_key(c.func) && c.pc < p.functions[c.func].len() {
                    let op = p.functions[c.func][c.pc as int];
                    if s.mem.apply(op) is Ok {
                        lemma_frames_never_shrink(s.mem, op);
                    }
                }
            },
            Mode::Replay { key, index } => {
                if s.jit.trace_op(key, index) is Some {
                    let op = s.jit.trace_op(key, index)->Some_0.0;
                    if s.mem.apply(op) is Ok {
                        lemma_frames_never_shrink(s.mem, op);
                    }
                }
            },
        }
    }
}

} // verus!
