//! Tracing changes nothing that a program can see: a machine that traces is
//! followed, step by step, by a machine that does not.

use vstd::prelude::*;
use crate::mossc::bytecode::{FuncId, OpCode};
use crate::mossc::jit::{JitView, TraceView, lemma_merge_point_keeps, lemma_observe_keeps};
use crate::mossc::laws::{
    after_jumps, lemma_jumps_only_move, lemma_run_split, lemma_step_keeps_traces, successor,
};
use crate::mossc::machine::{Control, Mode, State, Step};
use crate::mossc::program::ProgramView;
use crate::mossc::provenance::{
    lemma_initial_traces_ok, lemma_loading_keeps_traces_ok, lemma_reaches_self,
    lemma_step_keeps_traces_ok, link_ok, reaches, replay_ok, step_ok, trace_ok, traces_ok,
};
use crate::mossc::safety::{control_ok, extends, is_conditional_jump};
use crate::mossc::value::{Entry, Value};

verus! {

/// The index of the instruction that replay executes at `index`: past the
/// end of the trace, replay starts over.
pub open spec fn wrapped(t: TraceView, index: usize) -> int {
    if index < t.ops.len() {
        index as int
    } else {
        0
    }
}

/// Whether a call of the machine that traces, `a`, and the call of the
/// machine that does not, `b`, stand at the same place: in the same function
/// with the same frame size, and at the same instruction, or, where `a` is in
/// replay, `b` before unconditional jumps that lead to the instruction that
/// `a` is about to replay.
pub open spec fn same_place(p: ProgramView, jit: JitView, a: Control, b: Control) -> bool {
    &&& b.mode is Baseline
    &&& a.func == b.func
    &&& a.frame_size == b.frame_size
    &&& match a.mode {
        Mode::Baseline => a.pc == b.pc,
        Mode::Replay { key, index } => reaches(
            p.functions[a.func],
            b.pc,
            jit.traces[key].path[wrapped(jit.traces[key], index)],
        ),
    }
}

/// Whether the two machines have the same stacks; or, right after a guard
/// has failed, the same stacks but for the condition on top of the operand
/// stack, which the one has as a value and the other as it was.
pub open spec fn same_stacks(p: ProgramView, a: State, b: State) -> bool {
    ||| a.mem == b.mem
    ||| {
        &&& a.control.mode is Baseline
        &&& a.instruction(p) is Some
        &&& is_conditional_jump(a.instruction(p)->Some_0)
        &&& a.mem.condition() is Ok
        &&& a.mem.condition() == b.mem.condition()
    }
}

/// Whether the machine `b`, which does not trace, is where the machine `a`,
/// which may, is: they have written the same, have the same stacks, and
/// each call of the one stands where the call of the other stands.
pub open spec fn simulated(p: ProgramView, a: State, b: State) -> bool {
    &&& traces_ok(p, a)
    &&& !b.jit.enabled
    &&& b.jit.recording is None
    &&& a.output == b.output
    &&& a.done == b.done
    &&& a.callers.len() == b.callers.len()
    &&& same_place(p, a.jit, a.control, b.control)
    &&& forall|i: int|
        0 <= i < a.callers.len() ==> same_place(p, a.jit, #[trigger] a.callers[i], b.callers[i])
    &&& same_stacks(p, a, b)
}

/// Whether a step of the machine that traces and a run of the machine that
/// does not have ended alike: a failed guard does not show.
pub open spec fn ended_alike(a: Step, b: Step) -> bool {
    match a {
        Step::Continue | Step::GuardFailed(_) => b is Continue,
        _ => a == b,
    }
}

/// A step of the general loop of the machine that traces is a step of the
/// machine that does not.
proof fn lemma_baseline_step_is_simulated(p: ProgramView, a: State, b: State)
    requires
        simulated(p, a, b),
        !a.done,
        a.control.mode is Baseline,
    ensures
        simulated(p, a.step(p).0, b.step(p).0),
        ended_alike(a.step(p).1, b.step(p).1),
        !(b.step(p).1 is GuardFailed),
{
    lemma_step_keeps_traces_ok(p, a);
    lemma_step_keeps_traces(p, a);
    let c = a.control;
    let (a2, ha) = a.step(p);
    let (b2, hb) = b.step(p);
    if ha is Continue || ha is Finished {
        let code = p.functions[c.func];
        let op = code[c.pc as int];
        let taken = a.mem.condition()->Ok_0.1;
        lemma_observe_keeps(a.jit, a.depth(), c.func, c.pc, op, false);
        lemma_observe_keeps(a.jit, a.depth(), c.func, c.pc, op, taken);
        lemma_observe_keeps(b.jit, b.depth(), c.func, c.pc, op, false);
        lemma_observe_keeps(b.jit, b.depth(), c.func, c.pc, op, taken);
        assert forall|i: int| 0 <= i < a.callers.len() implies same_place(
            p,
            a2.jit,
            #[trigger] a.callers[i],
            b.callers[i],
        ) by {
            assert(same_place(p, a.jit, a.callers[i], b.callers[i]));
            assert(replay_ok(a.jit, a.callers[i]));
        }
        if op is Call {
            let size = c.frame_size->Some_0;
            let parts = a.call_parts(p)->Ok_0;
            if let Some(key) = parts.key {
                let seen = a.jit.observe(a.depth(), c.func, c.pc, OpCode::Call, false);
                lemma_merge_point_keeps(seen, a.visit(key), a.depth());
                let (after, dispatch) = seen.merge_point(a.visit(key), a.depth());
                if dispatch {
                    assert(trace_ok(p, a.jit.traces[key]));
                }
            }
            assert forall|i: int| 0 <= i < a2.callers.len() implies same_place(
                p,
                a2.jit,
                #[trigger] a2.callers[i],
                b2.callers[i],
            ) by {
                if i < a.callers.len() {
                    assert(a2.callers[i] == a.callers[i]);
                    assert(b2.callers[i] == b.callers[i]);
                }
            }
        } else if op is RETURN && a.depth() > 0 {
            assert(same_place(p, a2.jit, a.callers[a.callers.len() - 1], b.callers[a.callers.len() - 1]));
            assert forall|i: int| 0 <= i < a2.callers.len() implies same_place(
                p,
                a2.jit,
                #[trigger] a2.callers[i],
                b2.callers[i],
            ) by {
                assert(a2.callers[i] == a.callers[i]);
                assert(b2.callers[i] == b.callers[i]);
            }
        }
    }
}

/// The instruction that replay is about to execute stands for the
/// instruction at its place on the path of the trace, and leads where the
/// path leads: to the next place, or, at the end of the trace, back to
/// the start.
proof fn lemma_trace_link(p: ProgramView, t: TraceView, i: int)
    requires
        p.wf(),
        trace_ok(p, t),
        0 <= i < t.ops.len(),
    ensures
        link_ok(
            p.functions[t.func],
            t.ops,
            t.path,
            t.func,
            i,
            t.path[if i + 1 < t.ops.len() { i + 1 } else { 0 }],
        ),
{
    let code = p.functions[t.func];
    if i + 1 < t.ops.len() {
        assert(step_ok(code, t.ops, t.path, t.func, i));
    } else {
        assert(t.ops[i] == OpCode::Call);
        assert(t.path[i] == t.site);
    }
}

/// A step of replay is a run of the machine that does not trace: that one
/// makes the unconditional jumps that lie before the instruction, and then,
/// unless the step is a guard that fails, executes the instruction.
proof fn lemma_replay_step_is_simulated(p: ProgramView, a: State, b: State) -> (m: nat)
    requires
        simulated(p, a, b),
        !a.done,
        a.control.mode is Replay,
    ensures
        simulated(p, a.step(p).0, b.run(p, m).0),
        ended_alike(a.step(p).1, b.run(p, m).1),
        a.step(p).1 is Continue ==> m >= 1,
        a.step(p).1 is GuardFailed ==> a.step(p).0.control.mode is Baseline,
{
    lemma_step_keeps_traces_ok(p, a);
    lemma_step_keeps_traces(p, a);
    let key = a.control.mode->key;
    let index = a.control.mode->index;
    let t = a.jit.traces[key];
    let code = p.functions[t.func];
    let i = wrapped(t, index);
    assert(control_ok(a.jit, a.control));
    assert(replay_ok(a.jit, a.control));
    assert(trace_ok(p, t));
    lemma_trace_link(p, t, i);
    let hops = choose|hops: nat| after_jumps(code, b.control.pc, hops) == Some(t.path[i]);
    lemma_jumps_only_move(p, b, hops);
    let bj = b.run(p, hops).0;
    assert(bj.control.pc == t.path[i]);
    lemma_reaches_self(code, t.path[i]);
    let (a2, ha) = a.step(p);
    let (b2, hb) = bj.step(p);
    assert(a2.jit == a.jit);
    assert forall|k: int| 0 <= k < a.callers.len() implies same_place(
        p,
        a2.jit,
        #[trigger] a.callers[k],
        b.callers[k],
    ) by {
        assert(same_place(p, a.jit, a.callers[k], b.callers[k]));
    }
    if ha is GuardFailed {
        let popped = a.mem.condition()->Ok_0.0;
        let actual = a.mem.condition()->Ok_0.1;
        assert(popped.push(Entry::Value(Value::Bool(actual))).drop(1).stack =~= popped.stack);
        assert(simulated(p, a2, bj));
        hops
    } else if ha is Trapped {
        lemma_run_split(p, b, hops, 1);
        assert(bj.run(p, 1) == (bj, hb)) by {
            assert(bj.run(p, 0) == (bj, Step::Continue));
        }
        assert(simulated(p, a2, bj));
        hops + 1
    } else {
        lemma_run_split(p, b, hops, 1);
        assert(bj.run(p, 1) == (b2, hb)) by {
            assert(b2.run(p, 0) == (b2, Step::Continue));
        }
        let next = t.path[if i + 1 < t.ops.len() { i + 1 } else { 0 }];
        let after = successor(code, t.path[i], t.ops[i])->Some_0;
        assert(reaches(code, after, next));
        assert(wrapped(t, (i + 1) as usize) == (if i + 1 < t.ops.len() { i + 1 } else { 0 }));
        let waits = Control { mode: Mode::Replay { key, index: (i + 1) as usize }, ..a.control };
        let waits_b = Control { pc: after, ..bj.control };
        assert(same_place(p, a2.jit, waits, waits_b));
        assert forall|k: int| 0 <= k < a2.callers.len() implies same_place(
            p,
            a2.jit,
            #[trigger] a2.callers[k],
            b2.callers[k],
        ) by {
            if k < a.callers.len() {
                assert(a2.callers[k] == a.callers[k]);
                assert(b2.callers[k] == b.callers[k]);
            }
        }
        hops + 1
    }
}

/// Every step of a machine that traces is followed by a machine that does
/// not: there is a number of steps after which that one is where the first
/// is, having ended alike.
pub proof fn lemma_step_is_simulated(p: ProgramView, a: State, b: State) -> (m: nat)
    requires
        simulated(p, a, b),
    ensures
        simulated(p, a.step(p).0, b.run(p, m).0),
        ended_alike(a.step(p).1, b.run(p, m).1),
        a.step(p).1 is Continue ==> m >= 1,
        a.step(p).1 is GuardFailed ==> a.control.mode is Replay && a.step(p).0.control.mode
            is Baseline,
{
    if a.done {
        assert(b.run(p, 1) == (b, Step::Finished));
        1
    } else if a.control.mode is Baseline {
        lemma_baseline_step_is_simulated(p, a, b);
        let (b2, hb) = b.step(p);
        assert(b.run(p, 1) == (b2, hb)) by {
            assert(b2.run(p, 0) == (b2, Step::Continue));
        }
        1
    } else {
        lemma_replay_step_is_simulated(p, a, b)
    }
}

/// Every run of a machine that traces is followed by a machine that does
/// not; and while the first goes on, the second is not left behind: it makes
/// a step for every step of the first but for the failed guards, each of
/// which comes before a step of the general loop.
pub proof fn lemma_run_is_simulated(p: ProgramView, a: State, b: State, n: nat) -> (m: nat)
    requires
        simulated(p, a, b),
    ensures
        simulated(p, a.run(p, n).0, b.run(p, m).0),
        ended_alike(a.run(p, n).1, b.run(p, m).1),
        a.run(p, n).1 is Continue ==> 2 * m + (if a.control.mode is Replay { 1nat } else { 0nat })
            >= n,
    decreases n,
{
    if n == 0 {
        assert(b.run(p, 0) == (b, Step::Continue));
        0
    } else {
        let m1 = lemma_step_is_simulated(p, a, b);
        let (a1, ha) = a.step(p);
        let (b1, hb) = b.run(p, m1);
        match ha {
            Step::Continue | Step::GuardFailed(_) => {
                let m2 = lemma_run_is_simulated(p, a1, b1, (n - 1) as nat);
                lemma_run_split(p, b, m1, m2);
                m1 + m2
            },
            _ => m1,
        }
    }
}

/// Tracing is transparent. Whatever the program, and however hot its loops
/// get: for every number of steps of the machine that traces there is a
/// number of steps of the machine that does not, after which the two have
/// written the same, have the same frame stack, frame pointer and saved
/// frame pointers, and the same operand stack but, right after a guard has
/// failed, for the condition on its top; and the runs have ended alike:
/// both go on, both have finished, both are stopped by the same trap, or
/// both wait for the same function.
pub proof fn lemma_tracing_is_transparent_throughout(p: ProgramView, entry: FuncId, n: nat) -> (m:
    nat)
    requires
        p.wf(),
    ensures
        ({
            let (a, ha) = State::initial(entry, true).run(p, n);
            let (b, hb) = State::initial(entry, false).run(p, m);
            &&& ended_alike(ha, hb)
            &&& a.output == b.output
            &&& a.done == b.done
            &&& a.mem.frames == b.mem.frames
            &&& a.mem.fp == b.mem.fp
            &&& a.mem.saved == b.mem.saved
            &&& a.mem.stack.len() == b.mem.stack.len()
            &&& a.mem.stack.drop_last() == b.mem.stack.drop_last()
            &&& a.mem.stack.len() > 0 ==> a.mem.resolve(a.mem.stack.last()) == b.mem.resolve(
                b.mem.stack.last(),
            ) || a.mem.stack.last() == b.mem.stack.last()
            &&& simulated(p, a, b)
        }),
{
    lemma_initial_traces_ok(p, entry, true);
    let m = lemma_run_is_simulated(p, State::initial(entry, true), State::initial(entry, false), n);
    let (a, ha) = State::initial(entry, true).run(p, n);
    let (b, hb) = State::initial(entry, false).run(p, m);
    if a.mem != b.mem {
        let pa = a.mem.condition()->Ok_0.0;
        assert(pa.stack == a.mem.stack.take(a.mem.stack.len() - 1));
        assert(a.mem.stack.drop_last() =~= a.mem.stack.take(a.mem.stack.len() - 1));
        assert(b.mem.stack.drop_last() =~= b.mem.stack.take(b.mem.stack.len() - 1));
    }
    m
}

/// The store can grow while the machines wait: two machines of which the
/// one is where the other is, while they run a program, are so while they
/// run any program that has the functions of the first, and more.
pub proof fn lemma_loading_keeps_simulated(p: ProgramView, q: ProgramView, a: State, b: State)
    requires
        simulated(p, a, b),
        extends(q, p),
        q.wf(),
    ensures
        simulated(q, a, b),
{
    lemma_loading_keeps_traces_ok(p, q, a);
    assert(replay_ok(a.jit, a.control));
    if let Mode::Replay { key, index } = a.control.mode {
        assert(trace_ok(p, a.jit.traces[key]));
    }
    assert forall|i: int| 0 <= i < a.callers.len() implies same_place(
        q,
        a.jit,
        #[trigger] a.callers[i],
        b.callers[i],
    ) by {
        assert(same_place(p, a.jit, a.callers[i], b.callers[i]));
        assert(replay_ok(a.jit, a.callers[i]));
        if let Mode::Replay { key, index } = a.callers[i].mode {
            assert(trace_ok(p, a.jit.traces[key]));
        }
    }
}

/// A run that has stopped stays as it is, however many more steps it is given.
pub proof fn lemma_stopped_run_stays(p: ProgramView, s: State, k: nat, more: nat)
    requires
        !(s.run(p, k).1 is Continue),
    ensures
        s.run(p, k + more) == s.run(p, k),
{
    lemma_run_split(p, s, k, more);
}

/// A run does not end in a failed guard: it goes on after one.
pub proof fn lemma_run_hides_failed_guards(p: ProgramView, s: State, k: nat)
    ensures
        !(s.run(p, k).1 is GuardFailed),
    decreases k,
{
    if k > 0 {
        let (next, how) = s.step(p);
        match how {
            Step::Continue | Step::GuardFailed(_) => {
                lemma_run_hides_failed_guards(p, next, (k - 1) as nat);
            },
            _ => {},
        }
    }
}

/// A program ends with tracing as it ends without. If the machine that does
/// not trace has stopped after `m` steps, because the program has finished
/// or has trapped, or because a function is missing, then the machine that
/// traces has stopped in the same way after twice as many steps and two
/// more, if not before, and is then where the other is: it has written the
/// same and has the same stacks.
pub proof fn lemma_ends_alike(p: ProgramView, entry: FuncId, m: nat)
    requires
        p.wf(),
        !(State::initial(entry, false).run(p, m).1 is Continue),
    ensures
        ({
            let (a, ha) = State::initial(entry, true).run(p, 2 * m + 2);
            let (b, hb) = State::initial(entry, false).run(p, m);
            &&& ha == hb
            &&& simulated(p, a, b)
            &&& a.output == b.output
            &&& a.mem.frames == b.mem.frames
            &&& a.mem.fp == b.mem.fp
            &&& a.mem.saved == b.mem.saved
        }),
{
    let start = State::initial(entry, true);
    let plain = State::initial(entry, false);
    let n = 2 * m + 2;
    lemma_initial_traces_ok(p, entry, true);
    let mm = lemma_run_is_simulated(p, start, plain, n);
    lemma_run_hides_failed_guards(p, start, n);
    lemma_run_hides_failed_guards(p, plain, m);
    if start.run(p, n).1 is Continue {
        assert(mm >= m + 1);
        lemma_stopped_run_stays(p, plain, m, (mm - m) as nat);
        assert(m + (mm - m) == mm);
    } else if mm >= m {
        lemma_stopped_run_stays(p, plain, m, (mm - m) as nat);
        assert(m + (mm - m) == mm);
    } else {
        lemma_stopped_run_stays(p, plain, mm, (m - mm) as nat);
        assert(mm + (m - mm) == m);
    }
}

} // verus!
