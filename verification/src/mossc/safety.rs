//! What holds of every state that the machine can reach, and what it rules out.

use vstd::prelude::*;
use crate::mossc::bytecode::{FuncId, Guard, OpCode};
use crate::mossc::jit::{JitView, ends_recording, lemma_merge_point_keeps, lemma_observe_keeps};
use crate::mossc::machine::{Control, Mode, State, Step};
use crate::mossc::memory::lemma_apply_traps;
use crate::mossc::program::ProgramView;
use crate::mossc::trap::Trap;
use crate::mossc::value::{Entry, Value};

verus! {

/// Whether an instruction is a conditional jump.
pub open spec fn is_conditional_jump(op: OpCode) -> bool {
    op is JUMP_IF || op is JUMP_REL_IF
}

/// Whether a guard recovers to a conditional jump of the program.
pub open spec fn guard_ok(p: ProgramView, guard: Guard) -> bool {
    &&& p.functions.contains_key(guard.recovery)
    &&& guard.pc < p.functions[guard.recovery].len()
    &&& is_conditional_jump(p.functions[guard.recovery][guard.pc as int])
}

/// Whether an instruction can stand in a trace: it is no jump, no return, no
/// prologue and no marker, and if it is a guard, the guard recovers to a
/// conditional jump of the program.
pub open spec fn kept_ok(p: ProgramView, op: OpCode) -> bool {
    &&& !(op is JUMP)
    &&& !(op is JUMP_REL)
    &&& !is_conditional_jump(op)
    &&& !ends_recording(op)
    &&& !(op is Debug)
    &&& op matches OpCode::Guard(guard) ==> guard_ok(p, guard)
}

/// Whether every one of some instructions can stand in a trace.
pub open spec fn all_kept_ok(p: ProgramView, ops: Seq<OpCode>) -> bool {
    forall|j: int| 0 <= j < ops.len() ==> kept_ok(p, #[trigger] ops[j])
}

/// Whether a call that is in replay replays a trace that is there, with the
/// frame size that the trace was recorded with.
pub open spec fn control_ok(jit: JitView, c: Control) -> bool {
    c.mode matches Mode::Replay { key, index } ==> jit.traces.contains_key(key) && c.frame_size
        == Some(jit.traces[key].frame_size)
}

/// Whether every function of `p` is in `q`, with the same code, and every
/// host function of `p` is one of `q`, under the same name.
pub open spec fn extends(q: ProgramView, p: ProgramView) -> bool {
    &&& forall|id: FuncId| #[trigger]
        p.functions.contains_key(id) ==> q.functions.contains_key(id) && q.functions[id]
            == p.functions[id]
    &&& forall|id: FuncId| #[trigger]
        p.internals.contains_key(id) ==> q.internals.contains_key(id) && q.internals[id]
            == p.internals[id]
}

/// Whether a state is one that the machine can be in, while it runs `p`:
/// the tracing engine is well formed; every trace, and the recording, holds
/// only what can stand in a trace, and no trace is empty; every call in
/// replay replays a trace that is there; and a frame pointer is saved for
/// every call that waits.
pub open spec fn well_formed(p: ProgramView, s: State) -> bool {
    &&& s.jit.wf()
    &&& forall|key: usize| #[trigger]
        s.jit.traces.contains_key(key) ==> s.jit.traces[key].ops.len() > 0 && all_kept_ok(
            p,
            s.jit.traces[key].ops,
        )
    &&& s.jit.recording matches Some(r) ==> all_kept_ok(p, r.buffer)
    &&& control_ok(s.jit, s.control)
    &&& forall|i: int| 0 <= i < s.callers.len() ==> control_ok(s.jit, #[trigger] s.callers[i])
    &&& s.mem.saved.len() == s.callers.len()
}

/// The machine starts in a well-formed state.
pub proof fn lemma_initial_state_is_well_formed(p: ProgramView, entry: FuncId, tracing: bool)
    ensures
        well_formed(p, State::initial(entry, tracing)),
{
}

/// A state stays well formed when functions are added to the program.
pub proof fn lemma_loading_keeps_well_formed(p: ProgramView, q: ProgramView, s: State)
    requires
        well_formed(p, s),
        extends(q, p),
    ensures
        well_formed(q, s),
{
    assert forall|key: usize| #[trigger] s.jit.traces.contains_key(key) implies all_kept_ok(
        q,
        s.jit.traces[key].ops,
    ) by {
        let ops = s.jit.traces[key].ops;
        assert(all_kept_ok(p, ops));
        assert forall|j: int| 0 <= j < ops.len() implies kept_ok(q, #[trigger] ops[j]) by {
            assert(kept_ok(p, ops[j]));
        }
    }
    if let Some(r) = s.jit.recording {
        assert forall|j: int| 0 <= j < r.buffer.len() implies kept_ok(q, #[trigger] r.buffer[j]) by {
            assert(kept_ok(p, r.buffer[j]));
        }
    }
}

/// A step of the general loop keeps the state well formed.
proof fn lemma_baseline_step_keeps_well_formed(p: ProgramView, s: State)
    requires
        well_formed(p, s),
        !s.done,
        s.control.mode is Baseline,
    ensures
        well_formed(p, s.step(p).0),
{
    let c = s.control;
    let (t, how) = s.step(p);
    if p.functions.contains_key(c.func) && c.pc < p.functions[c.func].len() && !(how is Trapped) {
        let op = p.functions[c.func][c.pc as int];
        let taken = s.mem.condition()->Ok_0.1;
        lemma_observe_keeps(s.jit, s.depth(), c.func, c.pc, op, false);
        lemma_observe_keeps(s.jit, s.depth(), c.func, c.pc, op, taken);
        let seen = if is_conditional_jump(op) {
            s.jit.observe(s.depth(), c.func, c.pc, op, taken)
        } else {
            s.jit.observe(s.depth(), c.func, c.pc, op, false)
        };
        // the recording holds only what can stand in a trace
        if let Some(r) = seen.recording {
            let old = s.jit.recording->Some_0;
            assert forall|j: int| 0 <= j < r.buffer.len() implies kept_ok(p, #[trigger] r.buffer[j]) by {
                if j < old.buffer.len() {
                    assert(kept_ok(p, old.buffer[j]));
                }
            }
        }
        if op is Call {
            let size = c.frame_size->Some_0;
            let parts = s.call_parts(p)->Ok_0;
            if parts.key is Some {
                let key = parts.key->Some_0;
                lemma_merge_point_keeps(seen, s.visit(key), s.depth());
                let (after, dispatch) = seen.merge_point(s.visit(key), s.depth());
                assert forall|k: usize| #[trigger] after.traces.contains_key(k) implies after.traces[k].ops.len()
                    > 0 && all_kept_ok(p, after.traces[k].ops) by {
                    if s.jit.traces.contains_key(k) {
                        assert(seen.traces.contains_key(k));
                    } else {
                        // the trace that this visit compiled: the recording, with the call at its end
                        assert(after.traces[k].ops == seen.recording->Some_0.buffer);
                        assert(seen.recording->Some_0.buffer.last() == OpCode::Call);
                    }
                }
                assert(forall|i: int| 0 <= i < s.callers.len() ==> control_ok(after, #[trigger] s.callers[i])) by {
                    assert forall|i: int| 0 <= i < s.callers.len() implies control_ok(after, #[trigger] s.callers[i]) by {
                        assert(control_ok(s.jit, s.callers[i]));
                    }
                }
            }
            assert forall|i: int| 0 <= i < t.callers.len() implies control_ok(t.jit, #[trigger] t.callers[i]) by {
                if i < s.callers.len() {
                    assert(control_ok(s.jit, s.callers[i]));
                    assert(t.callers[i] == s.callers[i]);
                }
            }
        } else {
            assert forall|i: int| 0 <= i < t.callers.len() implies control_ok(t.jit, #[trigger] t.callers[i]) by {
                assert(control_ok(s.jit, s.callers[i]));
            }
            if op is RETURN && s.depth() > 0 {
                assert(control_ok(s.jit, s.callers[s.callers.len() - 1]));
            }
        }
    }
}

/// A step of replay keeps the state well formed.
proof fn lemma_replay_step_keeps_well_formed(p: ProgramView, s: State)
    requires
        well_formed(p, s),
        !s.done,
        s.control.mode is Replay,
    ensures
        well_formed(p, s.step(p).0),
{
    let t = s.step(p).0;
    assert forall|i: int| 0 <= i < t.callers.len() implies control_ok(t.jit, #[trigger] t.callers[i]) by {
        if i < s.callers.len() {
            assert(control_ok(s.jit, s.callers[i]));
        }
    }
}

/// A step keeps the state well formed.
pub proof fn lemma_step_keeps_well_formed(p: ProgramView, s: State)
    requires
        well_formed(p, s),
    ensures
        well_formed(p, s.step(p).0),
{
    if !s.done {
        if s.control.mode is Baseline {
            lemma_baseline_step_keeps_well_formed(p, s);
        } else {
            lemma_replay_step_keeps_well_formed(p, s);
        }
    }
}

/// A run keeps the state well formed.
pub proof fn lemma_run_keeps_well_formed(p: ProgramView, s: State, fuel: nat)
    requires
        well_formed(p, s),
    ensures
        well_formed(p, s.run(p, fuel).0),
    decreases fuel,
{
    if fuel > 0 {
        lemma_step_keeps_well_formed(p, s);
        let (next, how) = s.step(p);
        match how {
            Step::Continue | Step::GuardFailed(_) => {
                lemma_run_keeps_well_formed(p, next, (fuel - 1) as nat);
            },
            _ => {},
        }
    }
}

/// What a well-formed state rules out. Replay always finds its trace, and a
/// return always finds the frame pointer of the caller. A guard that fails
/// leaves the machine in the general loop before a conditional jump of the
/// program, with the condition that the guard found on the operand stack:
/// so the step after a failed guard is that jump, and that step goes on
/// unless the jump leaves its function.
pub proof fn lemma_well_formed_steps(p: ProgramView, s: State)
    requires
        well_formed(p, s),
    ensures
        s.step(p).1 != Step::Trapped(Trap::MissingTrace),
        s.step(p).1 != Step::Trapped(Trap::MissingFramePointer),
        s.step(p).1 matches Step::GuardFailed(guard) ==> {
            let d = s.step(p).0;
            &&& d.control.mode is Baseline
            &&& d.control.func == guard.recovery
            &&& d.control.pc == guard.pc
            &&& d.instruction(p) is Some
            &&& is_conditional_jump(d.instruction(p)->Some_0)
            &&& d.mem.condition() is Ok
            &&& d.mem.condition()->Ok_0.1 == !guard.expected
            &&& d.mem.condition()->Ok_0.0 == s.mem.condition()->Ok_0.0
            &&& d.step(p).1 is Continue || d.step(p).1 == Step::Trapped(Trap::BadJump)
        },
{
    if !s.done {
        match s.instruction(p) {
            Some(op) => {
                lemma_apply_traps(s.mem, op);
            },
            None => {},
        }
        if let Mode::Replay { key, index } = s.control.mode {
            assert(control_ok(s.jit, s.control));
            let ops = s.jit.traces[key].ops;
            let (op, i) = s.jit.trace_op(key, index)->Some_0;
            assert(kept_ok(p, ops[i as int]));
            if let Step::GuardFailed(guard) = s.step(p).1 {
                let popped = s.mem.condition()->Ok_0.0;
                let actual = s.mem.condition()->Ok_0.1;
                assert(popped.push(Entry::Value(Value::Bool(actual))).drop(1).stack
                    =~= popped.stack);
            }
        }
    }
}

/// From its start on, the machine is never stopped by a trace that is not
/// there or by a frame pointer that was not saved.
pub proof fn lemma_run_is_safe(p: ProgramView, entry: FuncId, tracing: bool, fuel: nat)
    ensures
        State::initial(entry, tracing).run(p, fuel).1 != Step::Trapped(Trap::MissingTrace),
        State::initial(entry, tracing).run(p, fuel).1 != Step::Trapped(Trap::MissingFramePointer),
        well_formed(p, State::initial(entry, tracing).run(p, fuel).0),
{
    lemma_initial_state_is_well_formed(p, entry, tracing);
    lemma_run_keeps_well_formed(p, State::initial(entry, tracing), fuel);
    lemma_run_from_well_formed(p, State::initial(entry, tracing), fuel);
}

/// A run from a well-formed state is never stopped by a trace that is not
/// there or by a frame pointer that was not saved.
pub proof fn lemma_run_from_well_formed(p: ProgramView, s: State, fuel: nat)
    requires
        well_formed(p, s),
    ensures
        s.run(p, fuel).1 != Step::Trapped(Trap::MissingTrace),
        s.run(p, fuel).1 != Step::Trapped(Trap::MissingFramePointer),
    decreases fuel,
{
    if fuel > 0 {
        lemma_well_formed_steps(p, s);
        lemma_step_keeps_well_formed(p, s);
        let (next, how) = s.step(p);
        match how {
            Step::Continue | Step::GuardFailed(_) => {
                lemma_run_from_well_formed(p, next, (fuel - 1) as nat);
            },
            _ => {},
        }
    }
}

} // verus!
