//! Where traces come from: every trace, and the recording, follows a path
//! through the function that it was recorded in.

use vstd::prelude::*;
use crate::mossc::bytecode::{FuncId, OpCode};
use crate::mossc::jit::{
    JitView, MAX_TRACE, Recording, TraceView, ends_recording, lemma_merge_point_keeps,
    lemma_observe_keeps, recorded,
};
use crate::mossc::laws::{after_jumps, lemma_step_keeps_traces, stands_for, successor};
use crate::mossc::machine::{Control, Mode, State, Step, jump_target};
use crate::mossc::program::ProgramView;
use crate::mossc::safety::{
    extends, lemma_loading_keeps_well_formed, lemma_step_keeps_well_formed, well_formed,
};

verus! {

/// Whether the general loop comes from `from` to `to` by unconditional jumps alone.
pub open spec fn reaches(code: Seq<OpCode>, from: usize, to: usize) -> bool {
    exists|hops: nat| after_jumps(code, from, hops) == Some(to)
}

/// Whether instruction `j` of a recording was recorded at `path[j]` of the
/// function `func`, whose code is `code`, and the general loop, going on
/// from there the way the recording went, comes to `next` by unconditional
/// jumps alone.
pub open spec fn link_ok(
    code: Seq<OpCode>,
    ops: Seq<OpCode>,
    path: Seq<usize>,
    func: FuncId,
    j: int,
    next: usize,
) -> bool {
    &&& path[j] < code.len()
    &&& stands_for(ops[j], code[path[j] as int])
    &&& ops[j] matches OpCode::Guard(guard) ==> guard.recovery == func && guard.pc == path[j]
    &&& successor(code, path[j], ops[j]) is Some
    &&& reaches(code, successor(code, path[j], ops[j])->Some_0, next)
}

/// Whether instruction `j` of a recording leads to instruction `j + 1`.
pub open spec fn step_ok(
    code: Seq<OpCode>,
    ops: Seq<OpCode>,
    path: Seq<usize>,
    func: FuncId,
    j: int,
) -> bool {
    link_ok(code, ops, path, func, j, path[j + 1])
}

/// Whether each instruction of a recording but the last leads to the next.
pub open spec fn walk_ok(code: Seq<OpCode>, ops: Seq<OpCode>, path: Seq<usize>, func: FuncId) -> bool {
    &&& path.len() == ops.len()
    &&& forall|j: int| 0 <= j < ops.len() - 1 ==> #[trigger] step_ok(code, ops, path, func, j)
}

/// Whether a trace follows a path through the function that it was recorded
/// in: the path starts after the merge-point call of the loop, where the
/// general loop stands once that call has returned, and comes back to that
/// call, which is the last instruction of the trace.
pub open spec fn trace_ok(p: ProgramView, t: TraceView) -> bool {
    let code = p.functions[t.func];
    &&& p.functions.contains_key(t.func)
    &&& 0 < t.ops.len() < MAX_TRACE
    &&& walk_ok(code, t.ops, t.path, t.func)
    &&& t.ops.last() == OpCode::Call
    &&& t.path.last() == t.site
    &&& t.site < code.len()
    &&& code[t.site as int] == OpCode::Call
    &&& reaches(code, (t.site + 1) as usize, t.path[0])
}

/// Whether a recording follows a path through the function that is being
/// recorded, from the merge-point call of the loop to `now`, where that
/// function stands.
pub open spec fn recording_ok(p: ProgramView, r: Recording, now: usize) -> bool {
    let code = p.functions[r.func];
    &&& p.functions.contains_key(r.func)
    &&& r.buffer.len() < MAX_TRACE
    &&& r.site < code.len()
    &&& code[r.site as int] == OpCode::Call
    &&& walk_ok(code, r.buffer, r.path, r.func)
    &&& if r.buffer.len() == 0 {
        reaches(code, (r.site + 1) as usize, now)
    } else {
        &&& reaches(code, (r.site + 1) as usize, r.path[0])
        &&& link_ok(code, r.buffer, r.path, r.func, r.buffer.len() - 1, now)
    }
}

/// The call at call depth `depth`: the current one, or a caller of it.
pub open spec fn call_at(s: State, depth: nat) -> Control {
    if depth == s.callers.len() {
        s.control
    } else {
        s.callers[depth as int]
    }
}

/// Whether a call that is in replay replays a trace of its own function, at
/// an index of the trace or just past its end.
pub open spec fn replay_ok(jit: JitView, c: Control) -> bool {
    c.mode matches Mode::Replay { key, index } ==> jit.traces.contains_key(key)
        && jit.traces[key].func == c.func && index <= jit.traces[key].ops.len()
}

/// Whether the traces and the recording of a machine come from the program
/// that it runs: every trace follows a path through its function; the
/// recording, if there is one, follows a path through the function of a call
/// that is live and in the general loop, up to where that call stands; and
/// every call in replay replays a trace of its own function.
pub open spec fn traces_ok(p: ProgramView, s: State) -> bool {
    &&& p.wf()
    &&& well_formed(p, s)
    &&& forall|key: usize| #[trigger] s.jit.traces.contains_key(key) ==> trace_ok(p, s.jit.traces[key])
    &&& s.jit.recording matches Some(r) ==> {
        &&& r.depth <= s.callers.len()
        &&& call_at(s, r.depth).func == r.func
        &&& call_at(s, r.depth).mode is Baseline
        &&& recording_ok(p, r, call_at(s, r.depth).pc)
    }
    &&& replay_ok(s.jit, s.control)
    &&& forall|i: int| 0 <= i < s.callers.len() ==> replay_ok(s.jit, #[trigger] s.callers[i])
}

/// Every place is reached from itself.
pub proof fn lemma_reaches_self(code: Seq<OpCode>, pc: usize)
    ensures
        reaches(code, pc, pc),
{
    assert(after_jumps(code, pc, 0) == Some(pc));
}

/// One more unconditional jump at the end of a way of jumps.
pub proof fn lemma_after_jumps_extend(code: Seq<OpCode>, from: usize, hops: nat, mid: usize)
    requires
        after_jumps(code, from, hops) == Some(mid),
        mid < code.len(),
        code[mid as int] is JUMP || code[mid as int] is JUMP_REL,
        jump_target(code.len(), mid, code[mid as int]) is Ok,
    ensures
        after_jumps(code, from, hops + 1) == Some(
            jump_target(code.len(), mid, code[mid as int])->Ok_0,
        ),
    decreases hops,
{
    let target = jump_target(code.len(), mid, code[mid as int])->Ok_0;
    if hops == 0 {
        assert(after_jumps(code, target, 0) == Some(target));
        assert(after_jumps(code, from, 1) == after_jumps(code, target, 0));
    } else {
        let next = jump_target(code.len(), from, code[from as int])->Ok_0;
        lemma_after_jumps_extend(code, next, (hops - 1) as nat, mid);
        assert(after_jumps(code, from, hops + 1) == after_jumps(code, next, hops));
    }
}

/// What is reached is left by an unconditional jump for its target.
pub proof fn lemma_reaches_extend(code: Seq<OpCode>, from: usize, mid: usize)
    requires
        reaches(code, from, mid),
        mid < code.len(),
        code[mid as int] is JUMP || code[mid as int] is JUMP_REL,
        jump_target(code.len(), mid, code[mid as int]) is Ok,
    ensures
        reaches(code, from, jump_target(code.len(), mid, code[mid as int])->Ok_0),
{
    let hops = choose|hops: nat| after_jumps(code, from, hops) == Some(mid);
    lemma_after_jumps_extend(code, from, hops, mid);
}

/// The machine starts with traces that come from its program: with none.
pub proof fn lemma_initial_traces_ok(p: ProgramView, entry: FuncId, tracing: bool)
    requires
        p.wf(),
    ensures
        traces_ok(p, State::initial(entry, tracing)),
{
}

/// A walk goes on when an instruction is recorded where the walk has led.
pub proof fn lemma_walk_push(
    code: Seq<OpCode>,
    ops: Seq<OpCode>,
    path: Seq<usize>,
    func: FuncId,
    kept: OpCode,
    pc: usize,
)
    requires
        walk_ok(code, ops, path, func),
        ops.len() > 0 ==> link_ok(code, ops, path, func, ops.len() - 1, pc),
    ensures
        walk_ok(code, ops.push(kept), path.push(pc), func),
{
    let ops2 = ops.push(kept);
    let path2 = path.push(pc);
    assert forall|j: int| 0 <= j < ops2.len() - 1 implies #[trigger] step_ok(
        code,
        ops2,
        path2,
        func,
        j,
    ) by {
        assert(ops2[j] == ops[j]);
        assert(path2[j] == path[j]);
        if j < ops.len() - 1 {
            assert(step_ok(code, ops, path, func, j));
            assert(path2[j + 1] == path[j + 1]);
        } else {
            assert(path2[j + 1] == pc);
        }
    }
}

/// The last link of a recording, right after an instruction was recorded:
/// it leads to where the instruction leads.
pub proof fn lemma_link_push(
    code: Seq<OpCode>,
    ops: Seq<OpCode>,
    path: Seq<usize>,
    func: FuncId,
    kept: OpCode,
    pc: usize,
)
    requires
        path.len() == ops.len(),
        pc < code.len(),
        stands_for(kept, code[pc as int]),
        kept matches OpCode::Guard(guard) ==> guard.recovery == func && guard.pc == pc,
        successor(code, pc, kept) is Some,
    ensures
        link_ok(
            code,
            ops.push(kept),
            path.push(pc),
            func,
            ops.len() as int,
            successor(code, pc, kept)->Some_0,
        ),
{
    lemma_reaches_self(code, successor(code, pc, kept)->Some_0);
}

/// A step of replay keeps the traces and the recording as they are, and the
/// recording is not that of the call that replays.
proof fn lemma_replay_keeps_traces_ok(p: ProgramView, s: State)
    requires
        traces_ok(p, s),
        !s.done,
        s.control.mode is Replay,
    ensures
        traces_ok(p, s.step(p).0),
{
    lemma_step_keeps_well_formed(p, s);
    let t = s.step(p).0;
    assert(t.jit == s.jit);
    assert forall|i: int| 0 <= i < t.callers.len() implies replay_ok(t.jit, #[trigger] t.callers[i]) by {
        if i < s.callers.len() {
            assert(replay_ok(s.jit, s.callers[i]));
        }
    }
    if let Some(r) = s.jit.recording {
        assert(r.depth < s.callers.len());
        assert(call_at(t, r.depth) == call_at(s, r.depth));
    }
}

/// A step of the general loop keeps the traces and the recording in line
/// with the program.
proof fn lemma_baseline_keeps_traces_ok(p: ProgramView, s: State)
    requires
        traces_ok(p, s),
        !s.done,
        s.control.mode is Baseline,
    ensures
        traces_ok(p, s.step(p).0),
{
    lemma_step_keeps_well_formed(p, s);
    let c = s.control;
    let (t, how) = s.step(p);
    if how is Continue || how is Finished {
        let code = p.functions[c.func];
        let op = code[c.pc as int];
        let taken = s.mem.condition()->Ok_0.1;
        let flag = if op is JUMP_IF || op is JUMP_REL_IF { taken } else { false };
        lemma_observe_keeps(s.jit, s.depth(), c.func, c.pc, op, flag);
        let seen = s.jit.observe(s.depth(), c.func, c.pc, op, flag);
        assert forall|i: int| 0 <= i < s.callers.len() implies replay_ok(t.jit, #[trigger] s.callers[i]) by {
            assert(replay_ok(s.jit, s.callers[i]));
            lemma_step_keeps_traces_only(p, s);
        }
        assert forall|i: int| 0 <= i < t.callers.len() implies replay_ok(t.jit, #[trigger] t.callers[i]) by {
            if i < s.callers.len() {
                assert(replay_ok(t.jit, s.callers[i]));
                assert(t.callers[i] == s.callers[i]);
            } else {
                lemma_step_keeps_traces_only(p, s);
            }
        }
        if op is RETURN && s.depth() > 0 {
            assert(replay_ok(t.jit, s.callers[s.callers.len() - 1]));
        }
        // what the recording is once the instruction has been taken note of
        if let Some(r) = s.jit.recording {
            if r.depth == s.depth() && !ends_recording(op) {
                if op is JUMP || op is JUMP_REL {
                    if r.buffer.len() == 0 {
                        lemma_reaches_extend(code, (r.site + 1) as usize, c.pc);
                    } else {
                        let last = r.buffer.len() - 1;
                        lemma_reaches_extend(
                            code,
                            successor(code, r.path[last], r.buffer[last])->Some_0,
                            c.pc,
                        );
                    }
                } else {
                    let kept = recorded(op, c.func, c.pc, flag)->Some_0;
                    lemma_walk_push(code, r.buffer, r.path, r.func, kept, c.pc);
                    lemma_link_push(code, r.buffer, r.path, r.func, kept, c.pc);
                    if let Some(r2) = seen.recording {
                        assert(r2.buffer == r.buffer.push(kept));
                        assert(r2.path == r.path.push(c.pc));
                        if r.buffer.len() > 0 {
                            assert(r2.path[0] == r.path[0]);
                        }
                    }
                }
            } else if r.depth < s.depth() {
                assert(seen.recording == s.jit.recording);
                if t.jit.recording == s.jit.recording {
                    assert(call_at(t, r.depth) == call_at(s, r.depth));
                }
            }
        }
        if op is Call {
            let size = c.frame_size->Some_0;
            let parts = s.call_parts(p)->Ok_0;
            if let Some(key) = parts.key {
                let visit = s.visit(key);
                lemma_merge_point_keeps(seen, visit, s.depth());
                let (after, dispatch) = seen.merge_point(visit, s.depth());
                lemma_reaches_self(code, (c.pc + 1) as usize);
                assert forall|k: usize| #[trigger] after.traces.contains_key(k) implies trace_ok(
                    p,
                    after.traces[k],
                ) by {
                    if s.jit.traces.contains_key(k) {
                        assert(trace_ok(p, s.jit.traces[k]));
                    } else {
                        let r2 = seen.recording->Some_0;
                        assert(after.traces[k] == r2.finished());
                    }
                }
            }
        } else {
            assert forall|k: usize| #[trigger] t.jit.traces.contains_key(k) implies trace_ok(
                p,
                t.jit.traces[k],
            ) by {
                assert(trace_ok(p, s.jit.traces[k]));
            }
        }
    }
}

/// A step adds traces at most: whatever trace there was is still there.
proof fn lemma_step_keeps_traces_only(p: ProgramView, s: State)
    ensures
        s.jit.traces_kept_by(s.step(p).0.jit),
{
    lemma_step_keeps_traces(p, s);
}

/// A step keeps the traces and the recording in line with the program.
pub proof fn lemma_step_keeps_traces_ok(p: ProgramView, s: State)
    requires
        traces_ok(p, s),
    ensures
        traces_ok(p, s.step(p).0),
{
    if !s.done {
        if s.control.mode is Baseline {
            lemma_baseline_keeps_traces_ok(p, s);
        } else {
            lemma_replay_keeps_traces_ok(p, s);
        }
    }
}

/// Every trace that the machine ever has follows a path through the
/// function that it was recorded in, and so does the recording: from its
/// start on, whatever the program, the machine is in a state whose traces
/// come from the program.
pub proof fn lemma_traces_come_from_the_program(
    p: ProgramView,
    entry: FuncId,
    tracing: bool,
    fuel: nat,
)
    requires
        p.wf(),
    ensures
        traces_ok(p, State::initial(entry, tracing).run(p, fuel).0),
{
    lemma_initial_traces_ok(p, entry, tracing);
    lemma_run_keeps_traces_ok(p, State::initial(entry, tracing), fuel);
}

/// A run keeps the traces and the recording in line with the program.
pub proof fn lemma_run_keeps_traces_ok(p: ProgramView, s: State, fuel: nat)
    requires
        traces_ok(p, s),
    ensures
        traces_ok(p, s.run(p, fuel).0),
    decreases fuel,
{
    if fuel > 0 {
        lemma_step_keeps_traces_ok(p, s);
        let (next, how) = s.step(p);
        match how {
            Step::Continue | Step::GuardFailed(_) => {
                lemma_run_keeps_traces_ok(p, next, (fuel - 1) as nat);
            },
            _ => {},
        }
    }
}

/// Traces that come from a program come from every program that has the
/// functions of the first, and more: the store can grow while the machine
/// waits.
pub proof fn lemma_loading_keeps_traces_ok(p: ProgramView, q: ProgramView, s: State)
    requires
        traces_ok(p, s),
        extends(q, p),
        q.wf(),
    ensures
        traces_ok(q, s),
{
    lemma_loading_keeps_well_formed(p, q, s);
    assert forall|key: usize| #[trigger] s.jit.traces.contains_key(key) implies trace_ok(
        q,
        s.jit.traces[key],
    ) by {
        let t = s.jit.traces[key];
        assert(trace_ok(p, t));
        assert(q.functions[t.func] == p.functions[t.func]);
    }
}

/// The place that is reported for a step of replay is the place in the
/// function where the replayed instruction stands. In a state whose traces
/// come from the program, a machine in replay is located in its own
/// function, at an instruction of the function that the instruction it is
/// about to replay stands for; a guard is located at the conditional jump
/// that it recovers to.
pub proof fn lemma_replay_is_located(p: ProgramView, s: State)
    requires
        traces_ok(p, s),
        s.control.mode is Replay,
    ensures
        ({
            let (func, pc) = s.location();
            &&& s.instruction(p) is Some
            &&& func == s.control.func
            &&& p.functions.contains_key(func)
            &&& pc < p.functions[func].len()
            &&& stands_for(s.instruction(p)->Some_0, p.functions[func][pc as int])
            &&& s.instruction(p)->Some_0 matches OpCode::Guard(guard) ==> guard.recovery == func
                && guard.pc == pc
        }),
{
    let key = s.control.mode->key;
    let index = s.control.mode->index;
    let t = s.jit.traces[key];
    assert(crate::mossc::safety::control_ok(s.jit, s.control));
    assert(replay_ok(s.jit, s.control));
    assert(trace_ok(p, t));
    let i = s.jit.trace_op(key, index)->Some_0.1 as int;
    let code = p.functions[t.func];
    if i + 1 < t.ops.len() {
        assert(step_ok(code, t.ops, t.path, t.func, i));
    } else {
        assert(t.ops[i] == OpCode::Call);
        assert(t.path[i] == t.site);
    }
}

} // verus!
