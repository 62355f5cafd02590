//! The interpreter: the general loop, replay of traces, and the run of a program.

use vstd::prelude::*;
use crate::mossc::bytecode::{FuncId, Guard, OpCode};
use crate::mossc::jit::{Jit, Visit};
use crate::mossc::machine::{Control, Mode, Output, State, Step, declared_frame, jump_target};
use crate::mossc::program::{Intrinsic, Program};
use crate::mossc::stacks::Stacks;
use crate::mossc::trap::Trap;

pub use crate::mossc::value::{Address, StackCell, StackData, WrappedTuple, WrappedValue};

verus! {

/// How a run ended.
#[derive(Clone, Copy, Debug, PartialEq, Eq)]
pub enum ExitOutcome {
    /// The entry function returned.
    Finished,
    /// An instruction trapped: the one at `pc` of `func`.
    Trapped { trap: Trap, func: FuncId, pc: usize },
    /// The store lacks the code of a function that is called.
    Missing(FuncId),
    /// The steps that were granted are used up; the program still runs.
    OutOfFuel,
}

/// The outcome of a run that ended in state `s`, its last step having ended
/// as `how` says. A trap is reported with the place of the instruction that
/// trapped: in replay, the place that the instruction was recorded at.
pub open spec fn outcome_of(s: State, how: Step) -> ExitOutcome {
    match how {
        Step::Finished => ExitOutcome::Finished,
        Step::Trapped(trap) => ExitOutcome::Trapped {
            trap,
            func: s.location().0,
            pc: s.location().1,
        },
        Step::Missing(id) => ExitOutcome::Missing(id),
        _ => ExitOutcome::OutOfFuel,
    }
}

/// The frame size that a function declares.
fn declared(program: &Program, func: FuncId) -> (r: Result<usize, Step>)
    ensures
        r == declared_frame(program@, func),
{
    match program.get_func(func) {
        Some(code) => {
            if code.len() > 0 {
                match code[0] {
                    OpCode::StackFrame(size) => Ok(size),
                    _ => Err(Step::Trapped(Trap::MissingFrameSize)),
                }
            } else {
                Err(Step::Trapped(Trap::MissingFrameSize))
            }
        },
        None => Err(Step::Missing(func)),
    }
}

/// The first instruction that a jump leads to.
fn target_of(len: usize, pc: usize, op: OpCode) -> (r: Result<usize, Trap>)
    ensures
        r == jump_target(len as nat, pc, op),
{
    match op {
        OpCode::JUMP(t) | OpCode::JUMP_IF(t) => {
            if t < len {
                Ok(t)
            } else {
                Err(Trap::BadJump)
            }
        },
        OpCode::JUMP_REL(n) | OpCode::JUMP_REL_IF(n) => {
            let t: i128 = pc as i128 + n as i128;
            if 0 <= t && t < len as i128 {
                Ok(t as usize)
            } else {
                Err(Trap::BadJump)
            }
        },
        _ => Err(Trap::BadJump),
    }
}

/// A machine that runs one program.
pub struct Interpreter {
    mem: Stacks,
    control: Control,
    callers: Vec<Control>,
    jit: Jit,
    output: Vec<Output>,
    done: bool,
}

impl View for Interpreter {
    type V = State;

    closed spec fn view(&self) -> State {
        State {
            mem: self.mem@,
            control: self.control,
            callers: self.callers@,
            jit: self.jit@,
            output: self.output@,
            done: self.done,
        }
    }
}

impl Interpreter {
    /// A machine that is about to start `main`, with the tracing engine on or off.
    pub fn new(main: FuncId, tracing: bool) -> (r: Interpreter)
        ensures
            r@ == State::initial(main, tracing),
    {
        let mut mem = Stacks::new();
        mem.push(StackData::ArgCount(0));
        Interpreter {
            mem,
            control: Control { func: main, pc: 0, frame_size: None, mode: Mode::Baseline },
            callers: Vec::new(),
            jit: Jit::new(tracing),
            output: Vec::new(),
            done: false,
        }
    }

    /// The two stacks.
    pub fn stacks(&self) -> (r: &Stacks)
        ensures
            r@ == self@.mem,
    {
        &self.mem
    }

    /// The tracing engine.
    pub fn jit(&self) -> (r: &Jit)
        ensures
            r@ == self@.jit,
    {
        &self.jit
    }

    /// Where the current call stands.
    pub fn control(&self) -> (r: Control)
        ensures
            r == self@.control,
    {
        self.control
    }

    /// What the program has written so far.
    pub fn output(&self) -> (r: &Vec<Output>)
        ensures
            r@ == self@.output,
    {
        &self.output
    }

    /// The instruction that the next step executes: the one that trapped,
    /// where the last step ended in a trap.
    pub fn instruction(&self, program: &Program) -> (r: Option<OpCode>)
        ensures
            r == self@.instruction(program@),
    {
        match self.control.mode {
            Mode::Baseline => {
                match program.get_func(self.control.func) {
                    Some(code) => {
                        if self.control.pc < code.len() {
                            Some(code[self.control.pc])
                        } else {
                            None
                        }
                    },
                    None => None,
                }
            },
            Mode::Replay { key, index } => {
                match self.jit.trace_op(key, index) {
                    Some((op, _, _)) => Some(op),
                    None => None,
                }
            },
        }
    }

    /// Whether the entry function has returned.
    pub fn is_done(&self) -> (r: bool)
        ensures
            r == self@.done,
    {
        self.done
    }

    /// Enters the call that the current function is about to make: reads what an
    /// intrinsic callee needs, moves the stacks into the callee's frame, and
    /// writes what an output intrinsic writes. Gives the callee, and the key
    /// where the callee is the merge-point intrinsic.
    fn enter_call(&mut self, program: &Program) -> (r: Result<(FuncId, Option<usize>), Step>)
        ensures
            match old(self)@.call_parts(program@) {
                Ok(parts) => r == Ok::<(FuncId, Option<usize>), Step>((parts.callee, parts.key))
                    && final(self)@ == (State {
                    mem: parts.mem,
                    output: parts.output,
                    ..old(self)@
                }),
                Err(stop) => r == Err::<(FuncId, Option<usize>), Step>(stop) && final(self)@
                    == old(self)@,
            },
    {
        let callee = match self.mem.callee() {
            Ok(id) => id,
            Err(t) => { return Err(Step::Trapped(t)); },
        };
        let frame_size = match declared(program, callee) {
            Ok(size) => size,
            Err(stop) => { return Err(stop); },
        };
        let kind = program.is_intrinsic(callee);
        let written: Option<Output> = match kind {
            Some(Intrinsic::Out) => match self.mem.intrinsic_argument() {
                Ok(WrappedValue::Usize(n)) => Some(Output::Line(n)),
                Ok(_) => None,
                Err(t) => { return Err(Step::Trapped(t)); },
            },
            Some(Intrinsic::Print) => match self.mem.intrinsic_argument() {
                Ok(WrappedValue::Usize(n)) => Some(
                    Output::Char((#[verifier::truncate] (n as u8)) as char),
                ),
                Ok(_) => None,
                Err(t) => { return Err(Step::Trapped(t)); },
            },
            _ => None,
        };
        let key: Option<usize> = match kind {
            Some(Intrinsic::MergePoint) => match self.mem.intrinsic_argument() {
                Ok(WrappedValue::Usize(key)) => Some(key),
                Ok(_) => { return Err(Step::Trapped(Trap::NotAnIndex)); },
                Err(t) => { return Err(Step::Trapped(t)); },
            },
            _ => None,
        };
        match self.mem.enter(frame_size) {
            Ok(()) => {},
            Err(t) => { return Err(Step::Trapped(t)); },
        }
        match written {
            Some(o) => {
                self.output.push(o);
            },
            None => {},
        }
        Ok((callee, key))
    }

    fn baseline_call(&mut self, program: &Program) -> (r: Step)
        requires
            old(self)@.control.pc < usize::MAX,
        ensures
            (final(self)@, r) == old(self)@.baseline_call(program@),
    {
        let c = self.control;
        let size = match c.frame_size {
            Some(size) => size,
            None => { return Step::Trapped(Trap::MissingFrameSize); },
        };
        let depth = self.callers.len();
        let (callee, key) = match self.enter_call(program) {
            Ok(parts) => parts,
            Err(stop) => { return stop; },
        };
        self.jit.observe(depth, c.func, c.pc, OpCode::Call, false);
        let mode = match key {
            Some(k) => {
                let visit = Visit { key: k, func: c.func, pc: c.pc, frame_size: size };
                if self.jit.met_merge_point(visit, depth) {
                    Mode::Replay { key: k, index: 0 }
                } else {
                    Mode::Baseline
                }
            },
            None => Mode::Baseline,
        };
        self.callers.push(Control { func: c.func, pc: c.pc + 1, frame_size: c.frame_size, mode });
        self.control = Control { func: callee, pc: 0, frame_size: None, mode: Mode::Baseline };
        Step::Continue
    }

    fn baseline_return(&mut self) -> (r: Step)
        ensures
            (final(self)@, r) == old(self)@.baseline_return(),
    {
        let c = self.control;
        let depth = self.callers.len();
        if depth == 0 {
            self.jit.observe(depth, c.func, c.pc, OpCode::RETURN, false);
            self.done = true;
            return Step::Finished;
        }
        match self.mem.o_return() {
            Ok(()) => {},
            Err(t) => { return Step::Trapped(t); },
        }
        self.jit.observe(depth, c.func, c.pc, OpCode::RETURN, false);
        let caller = self.callers.pop().unwrap();
        self.control = caller;
        Step::Continue
    }

    fn baseline_jump(&mut self, len: usize, op: OpCode) -> (r: Step)
        requires
            old(self)@.control.pc < len,
        ensures
            (final(self)@, r) == old(self)@.baseline_jump(len as nat, op),
    {
        let c = self.control;
        let depth = self.callers.len();
        match op {
            OpCode::JUMP(_) | OpCode::JUMP_REL(_) => {
                match target_of(len, c.pc, op) {
                    Ok(target) => {
                        self.control = Control { func: c.func, pc: target, frame_size: c.frame_size, mode: c.mode };
                        self.jit.observe(depth, c.func, c.pc, op, false);
                        Step::Continue
                    },
                    Err(t) => Step::Trapped(t),
                }
            },
            _ => {
                let taken = match self.mem.condition() {
                    Ok(b) => b,
                    Err(t) => { return Step::Trapped(t); },
                };
                let next = if taken {
                    match target_of(len, c.pc, op) {
                        Ok(target) => target,
                        Err(t) => { return Step::Trapped(t); },
                    }
                } else {
                    c.pc + 1
                };
                let _ = self.mem.o_condition();
                self.jit.observe(depth, c.func, c.pc, op, taken);
                self.control = Control { func: c.func, pc: next, frame_size: c.frame_size, mode: c.mode };
                Step::Continue
            },
        }
    }

    fn baseline_plain(&mut self, op: OpCode) -> (r: Step)
        requires
            old(self)@.control.pc < usize::MAX,
        ensures
            (final(self)@, r) == old(self)@.baseline_plain(op),
    {
        let c = self.control;
        let depth = self.callers.len();
        match self.mem.execute(op) {
            Ok(()) => {},
            Err(t) => { return Step::Trapped(t); },
        }
        let frame_size = match op {
            OpCode::StackFrame(size) => Some(size),
            _ => c.frame_size,
        };
        self.control = Control { func: c.func, pc: c.pc + 1, frame_size, mode: c.mode };
        self.jit.observe(depth, c.func, c.pc, op, false);
        Step::Continue
    }

    /// One step of the general loop: executes the instruction at the program
    /// counter of the current function.
    pub fn eval_func(&mut self, program: &Program) -> (r: Step)
        ensures
            (final(self)@, r) == old(self)@.eval_func(program@),
    {
        let c = self.control;
        let code = match program.get_func(c.func) {
            Some(code) => code,
            None => { return Step::Missing(c.func); },
        };
        if c.pc >= code.len() {
            return Step::Trapped(Trap::BadJump);
        }
        let op = code[c.pc];
        match op {
            OpCode::Call => self.baseline_call(program),
            OpCode::RETURN => self.baseline_return(),
            OpCode::JUMP(_) | OpCode::JUMP_REL(_) | OpCode::JUMP_IF(_) | OpCode::JUMP_REL_IF(_) => {
                self.baseline_jump(code.len(), op)
            },
            _ => self.baseline_plain(op),
        }
    }

    fn replay_guard(&mut self, guard: Guard, next: Control) -> (r: Step)
        ensures
            (final(self)@, r) == old(self)@.replay_guard(guard, next),
    {
        let c = self.control;
        match self.mem.o_guard(guard.expected) {
            Ok(failed) => {
                if failed {
                    self.mem.push(StackData::Value(WrappedValue::Bool(!guard.expected)));
                    self.control = Control {
                        func: guard.recovery,
                        pc: guard.pc,
                        frame_size: c.frame_size,
                        mode: Mode::Baseline,
                    };
                    Step::GuardFailed(guard)
                } else {
                    self.control = next;
                    Step::Continue
                }
            },
            Err(t) => Step::Trapped(t),
        }
    }

    fn replay_call(&mut self, program: &Program, next: Control) -> (r: Step)
        ensures
            (final(self)@, r) == old(self)@.replay_call(program@, next),
    {
        let (callee, _) = match self.enter_call(program) {
            Ok(parts) => parts,
            Err(stop) => { return stop; },
        };
        self.callers.push(next);
        self.control = Control { func: callee, pc: 0, frame_size: None, mode: Mode::Baseline };
        Step::Continue
    }

    /// One step of replay: executes the instruction at `index` of the trace of `key`.
    pub fn eval_trace(&mut self, program: &Program, key: usize, index: usize) -> (r: Step)
        ensures
            (final(self)@, r) == old(self)@.eval_trace(program@, key, index),
    {
        let c = self.control;
        let (op, i, _) = match self.jit.trace_op(key, index) {
            Some(found) => found,
            None => { return Step::Trapped(Trap::MissingTrace); },
        };
        let next = Control {
            func: c.func,
            pc: c.pc,
            frame_size: c.frame_size,
            mode: Mode::Replay { key, index: i + 1 },
        };
        match op {
            OpCode::Guard(guard) => self.replay_guard(guard, next),
            OpCode::Debug(_) => {
                self.control = next;
                Step::Continue
            },
            OpCode::Call => self.replay_call(program, next),
            OpCode::RETURN | OpCode::StackFrame(_) => Step::Trapped(Trap::Unsupported),
            _ => {
                match self.mem.execute(op) {
                    Ok(()) => {
                        self.control = next;
                        Step::Continue
                    },
                    Err(t) => Step::Trapped(t),
                }
            },
        }
    }

    /// One step of the machine.
    pub fn step(&mut self, program: &Program) -> (r: Step)
        ensures
            (final(self)@, r) == old(self)@.step(program@),
    {
        if self.done {
            return Step::Finished;
        }
        match self.control.mode {
            Mode::Baseline => self.eval_func(program),
            Mode::Replay { key, index } => self.eval_trace(program, key, index),
        }
    }

    /// Runs the machine for up to `fuel` steps. `Step::Continue` says that the
    /// steps are used up and the program still runs.
    pub fn run(&mut self, program: &Program, fuel: u64) -> (r: Step)
        ensures
            (final(self)@, r) == old(self)@.run(program@, fuel as nat),
    {
        let mut left = fuel;
        while left > 0
            invariant
                old(self)@.run(program@, fuel as nat) == self@.run(program@, left as nat),
            decreases left,
        {
            let how = self.step(program);
            match how {
                Step::Continue | Step::GuardFailed(_) => {},
                _ => { return how; },
            }
            left -= 1;
        }
        Step::Continue
    }

    /// Where the next step is: the function, and the program counter of the
    /// instruction that the step executes; where the last step ended in a
    /// trap, of the instruction that trapped.
    pub fn location(&self) -> (r: (FuncId, usize))
        ensures
            r == self@.location(),
    {
        match self.control.mode {
            Mode::Baseline => (self.control.func, self.control.pc),
            Mode::Replay { key, index } => {
                match self.jit.trace_location(key, index) {
                    Some(at) => at,
                    None => (self.control.func, self.control.pc),
                }
            },
        }
    }

    /// The outcome that a run reports, from how its last step ended.
    pub fn outcome(&self, how: Step) -> (r: ExitOutcome)
        ensures
            r == outcome_of(self@, how),
    {
        match how {
            Step::Finished => ExitOutcome::Finished,
            Step::Trapped(trap) => {
                let (func, pc) = self.location();
                ExitOutcome::Trapped { trap, func, pc }
            },
            Step::Missing(id) => ExitOutcome::Missing(id),
            _ => ExitOutcome::OutOfFuel,
        }
    }
}

/// Runs `main` for up to `fuel` steps, with the tracing engine on. Gives the
/// machine as the run left it, and how the run ended.
pub fn interpret(program: &Program, main: FuncId, fuel: u64) -> (r: (Interpreter, ExitOutcome))
    ensures
        ({
            let (last, how) = State::initial(main, true).run(program@, fuel as nat);
            r.0@ == last && r.1 == outcome_of(last, how)
        }),
{
    let mut interpreter = Interpreter::new(main, true);
    let how = interpreter.run(program, fuel);
    let outcome = interpreter.outcome(how);
    (interpreter, outcome)
}

} // verus!
