//! The machine as a transition system: its state, and what one step does.
//!
//! A step executes one instruction: of the current function in the general
//! loop, or of a trace in replay. It ends in the next state, or it reports a
//! trap or a function that the store lacks and leaves the state as it was.

use vstd::prelude::*;
use crate::mossc::bytecode::{FuncId, Guard, OpCode};
use crate::mossc::jit::{JitView, Visit};
use crate::mossc::memory::Memory;
use crate::mossc::program::{Intrinsic, ProgramView};
use crate::mossc::trap::Trap;
use crate::mossc::value::{Entry, Value};

verus! {

/// Which loop executes the current function.
#[derive(Clone, Copy, Debug, PartialEq, Eq)]
pub enum Mode {
    /// The general loop, at the program counter.
    Baseline,
    /// Replay of the trace of `key`, at `index`.
    Replay { key: usize, index: usize },
}

/// Where a call stands: the current one, or a caller that waits for its callee.
#[derive(Clone, Copy, Debug, PartialEq, Eq)]
pub struct Control {
    /// The function.
    pub func: FuncId,
    /// The next instruction of the function, for the general loop.
    pub pc: usize,
    /// The frame size that the function has declared, once it has.
    pub frame_size: Option<usize>,
    pub mode: Mode,
}

/// Something the program wrote.
#[derive(Clone, Copy, Debug, PartialEq, Eq)]
pub enum Output {
    /// A number, on a line of its own.
    Line(usize),
    /// A character.
    Char(char),
}

/// How a step ended.
#[derive(Clone, Copy, Debug, PartialEq, Eq)]
pub enum Step {
    /// An instruction was executed.
    Continue,
    /// A guard failed: the general loop goes on where the guard was recorded.
    GuardFailed(Guard),
    /// The entry function returned.
    Finished,
    /// The instruction trapped. Nothing has changed.
    Trapped(Trap),
    /// The store lacks the code of the current function, or of the function
    /// that is about to be called. Nothing has changed.
    Missing(FuncId),
}

/// The state of the machine.
pub struct State {
    /// The two stacks.
    pub mem: Memory,
    /// The current call.
    pub control: Control,
    /// The calls that wait for the current one, the entry function first.
    pub callers: Seq<Control>,
    /// The tracing engine.
    pub jit: JitView,
    /// What the program has written so far.
    pub output: Seq<Output>,
    /// Whether the entry function has returned.
    pub done: bool,
}

/// The character that the `print` intrinsic writes for a number: the one whose
/// code is the low byte of the number.
pub open spec fn print_char(n: usize) -> char {
    (n as u8) as char
}

/// The first instruction that a jump leads to, if it lies in the function.
pub open spec fn jump_target(len: nat, pc: usize, op: OpCode) -> Result<usize, Trap> {
    match op {
        OpCode::JUMP(t) | OpCode::JUMP_IF(t) => if t < len {
            Ok(t)
        } else {
            Err(Trap::BadJump)
        },
        OpCode::JUMP_REL(n) | OpCode::JUMP_REL_IF(n) => if 0 <= pc + n < len {
            Ok((pc + n) as usize)
        } else {
            Err(Trap::BadJump)
        },
        _ => Err(Trap::BadJump),
    }
}

/// The frame size that a function declares, which its first instruction
/// does; or how a step ends that needs it and does not find it: with the
/// function missing from the store, or in a trap.
pub open spec fn declared_frame(p: ProgramView, func: FuncId) -> Result<usize, Step> {
    if !p.functions.contains_key(func) {
        Err(Step::Missing(func))
    } else if p.functions[func].len() > 0 && p.functions[func][0] is StackFrame {
        Ok(p.functions[func][0]->StackFrame_0)
    } else {
        Err(Step::Trapped(Trap::MissingFrameSize))
    }
}

/// The start of a callee.
pub open spec fn entry_of(func: FuncId) -> Control {
    Control { func, pc: 0, frame_size: None, mode: Mode::Baseline }
}

/// What a call needs before it can be entered, and what the callee being an
/// intrinsic adds to it.
pub struct CallParts {
    /// The function that is called.
    pub callee: FuncId,
    /// What has been written once the call is entered.
    pub output: Seq<Output>,
    /// The key of the merge point, where the call visits one.
    pub key: Option<usize>,
    /// The stacks once the call is entered.
    pub mem: Memory,
}

impl State {
    /// The state in which the entry function starts: the operand stack holds
    /// the marker for no arguments, and nothing else is there.
    pub open spec fn initial(entry: FuncId, tracing: bool) -> State {
        State {
            mem: Memory::empty().push(Entry::ArgCount(0)),
            control: entry_of(entry),
            callers: Seq::empty(),
            jit: JitView::new(tracing),
            output: Seq::empty(),
            done: false,
        }
    }

    /// The call depth of the current function: zero for the entry function.
    pub open spec fn depth(self) -> nat {
        self.callers.len()
    }

    /// What has been written once a call of `callee` is entered: an output
    /// intrinsic writes its argument if that is a pointer-sized integer.
    pub open spec fn output_after(self, p: ProgramView, callee: FuncId) -> Result<Seq<Output>, Trap> {
        match p.intrinsic(callee) {
            Some(Intrinsic::Out) => match self.mem.intrinsic_argument() {
                Err(t) => Err(t),
                Ok(Value::Usize(n)) => Ok(self.output.push(Output::Line(n))),
                Ok(_) => Ok(self.output),
            },
            Some(Intrinsic::Print) => match self.mem.intrinsic_argument() {
                Err(t) => Err(t),
                Ok(Value::Usize(n)) => Ok(self.output.push(Output::Char(print_char(n)))),
                Ok(_) => Ok(self.output),
            },
            _ => Ok(self.output),
        }
    }

    /// The key that a call of `callee` hands to the tracing engine, where
    /// `callee` is the merge-point intrinsic: its argument, which must be a
    /// pointer-sized integer.
    pub open spec fn merge_key(self, p: ProgramView, callee: FuncId) -> Result<Option<usize>, Trap> {
        match p.intrinsic(callee) {
            Some(Intrinsic::MergePoint) => match self.mem.intrinsic_argument() {
                Err(t) => Err(t),
                Ok(Value::Usize(key)) => Ok(Some(key)),
                Ok(_) => Err(Trap::NotAnIndex),
            },
            _ => Ok(None),
        }
    }

    /// The parts of the call that the current function is about to make, or
    /// how the step ends where the call cannot be made: in a trap, or with the
    /// callee missing from the store. The frame pointer moves by the frame
    /// size that the callee declares, so the code of the callee is read here.
    pub open spec fn call_parts(self, p: ProgramView) -> Result<CallParts, Step> {
        match self.mem.callee() {
            Err(t) => Err(Step::Trapped(t)),
            Ok(callee) => match declared_frame(p, callee) {
                Err(stop) => Err(stop),
                Ok(frame_size) => match self.output_after(p, callee) {
                    Err(t) => Err(Step::Trapped(t)),
                    Ok(output) => match self.merge_key(p, callee) {
                        Err(t) => Err(Step::Trapped(t)),
                        Ok(key) => match self.mem.enter(frame_size) {
                            Err(t) => Err(Step::Trapped(t)),
                            Ok(mem) => Ok(CallParts { callee, output, key, mem }),
                        },
                    },
                },
            },
        }
    }

    /// Where the next step is: the function, and the program counter of the
    /// instruction that the step executes. In replay that is the program
    /// counter that the instruction of the trace was recorded at.
    pub open spec fn location(self) -> (FuncId, usize) {
        match self.control.mode {
            Mode::Baseline => (self.control.func, self.control.pc),
            Mode::Replay { key, index } => match self.jit.trace_pc(key, index) {
                Some(pc) => (self.jit.traces[key].func, pc),
                None => (self.control.func, self.control.pc),
            },
        }
    }

    /// The visit that the current function makes, where the call that it
    /// stands before visits a merge point with `key`.
    pub open spec fn visit(self, key: usize) -> Visit {
        Visit {
            key,
            func: self.control.func,
            pc: self.control.pc,
            frame_size: self.control.frame_size->Some_0,
        }
    }

    /// A call from the general loop, by a function that has declared its
    /// frame. The frame pointer moves by the frame size that the callee
    /// declares. The caller waits at the next instruction; where the call
    /// visits a merge point whose trace is ready, it waits at the start of
    /// that trace instead.
    pub open spec fn baseline_call(self, p: ProgramView) -> (State, Step) {
        match self.control.frame_size {
            None => (self, Step::Trapped(Trap::MissingFrameSize)),
            Some(_) => match self.call_parts(p) {
                Err(stop) => (self, stop),
                Ok(parts) => {
                    let c = self.control;
                    let seen = self.jit.observe(self.depth(), c.func, c.pc, OpCode::Call, false);
                    let (jit, dispatch) = match parts.key {
                        Some(key) => seen.merge_point(self.visit(key), self.depth()),
                        None => (seen, false),
                    };
                    let mode = if dispatch {
                        Mode::Replay { key: parts.key->Some_0, index: 0 }
                    } else {
                        Mode::Baseline
                    };
                    (
                        State {
                            mem: parts.mem,
                            control: entry_of(parts.callee),
                            callers: self.callers.push(
                                Control { pc: (c.pc + 1) as usize, mode, ..c },
                            ),
                            jit,
                            output: parts.output,
                            ..self
                        },
                        Step::Continue,
                    )
                },
            },
        }
    }

    /// A return from the general loop: the entry function ends the run, any
    /// other function gives control back to its caller.
    pub open spec fn baseline_return(self) -> (State, Step) {
        let c = self.control;
        let jit = self.jit.observe(self.depth(), c.func, c.pc, OpCode::RETURN, false);
        if self.depth() == 0 {
            (State { jit, done: true, ..self }, Step::Finished)
        } else {
            match self.mem.leave() {
                Err(t) => (self, Step::Trapped(t)),
                Ok(mem) => (
                    State {
                        mem,
                        control: self.callers.last(),
                        callers: self.callers.drop_last(),
                        jit,
                        ..self
                    },
                    Step::Continue,
                ),
            }
        }
    }

    /// A jump of the general loop, in a function of `len` instructions.
    pub open spec fn baseline_jump(self, len: nat, op: OpCode) -> (State, Step) {
        let c = self.control;
        match op {
            OpCode::JUMP(_) | OpCode::JUMP_REL(_) => match jump_target(len, c.pc, op) {
                Err(t) => (self, Step::Trapped(t)),
                Ok(target) => (
                    State {
                        control: Control { pc: target, ..c },
                        jit: self.jit.observe(self.depth(), c.func, c.pc, op, false),
                        ..self
                    },
                    Step::Continue,
                ),
            },
            _ => match self.mem.condition() {
                Err(t) => (self, Step::Trapped(t)),
                Ok((mem, taken)) => {
                    let jit = self.jit.observe(self.depth(), c.func, c.pc, op, taken);
                    if taken {
                        match jump_target(len, c.pc, op) {
                            Err(t) => (self, Step::Trapped(t)),
                            Ok(target) => (
                                State { mem, control: Control { pc: target, ..c }, jit, ..self },
                                Step::Continue,
                            ),
                        }
                    } else {
                        (
                            State {
                                mem,
                                control: Control { pc: (c.pc + 1) as usize, ..c },
                                jit,
                                ..self
                            },
                            Step::Continue,
                        )
                    }
                },
            },
        }
    }

    /// An instruction of the general loop that only works on the stacks.
    pub open spec fn baseline_plain(self, op: OpCode) -> (State, Step) {
        let c = self.control;
        match self.mem.apply(op) {
            Err(t) => (self, Step::Trapped(t)),
            Ok(mem) => (
                State {
                    mem,
                    control: Control {
                        pc: (c.pc + 1) as usize,
                        frame_size: match op {
                            OpCode::StackFrame(size) => Some(size),
                            _ => c.frame_size,
                        },
                        ..c
                    },
                    jit: self.jit.observe(self.depth(), c.func, c.pc, op, false),
                    ..self
                },
                Step::Continue,
            ),
        }
    }

    /// One step of the general loop.
    pub open spec fn eval_func(self, p: ProgramView) -> (State, Step) {
        let c = self.control;
        if !p.functions.contains_key(c.func) {
            (self, Step::Missing(c.func))
        } else {
            let code = p.functions[c.func];
            if c.pc >= code.len() {
                (self, Step::Trapped(Trap::BadJump))
            } else {
                let op = code[c.pc as int];
                match op {
                    OpCode::Call => self.baseline_call(p),
                    OpCode::RETURN => self.baseline_return(),
                    OpCode::JUMP(_) | OpCode::JUMP_REL(_) | OpCode::JUMP_IF(_) | OpCode::JUMP_REL_IF(
                        _,
                    ) => self.baseline_jump(code.len(), op),
                    _ => self.baseline_plain(op),
                }
            }
        }
    }

    /// A guard in replay. Where the condition is as expected, replay goes on.
    /// Where it is not, the general loop takes over at the conditional jump
    /// that the guard was recorded from, and finds the condition, as a value,
    /// back on the operand stack.
    pub open spec fn replay_guard(self, guard: Guard, next: Control) -> (State, Step) {
        match self.mem.condition() {
            Err(t) => (self, Step::Trapped(t)),
            Ok((mem, actual)) => if actual == guard.expected {
                (State { mem, control: next, ..self }, Step::Continue)
            } else {
                (
                    State {
                        mem: mem.push(Entry::Value(Value::Bool(actual))),
                        control: Control {
                            func: guard.recovery,
                            pc: guard.pc,
                            mode: Mode::Baseline,
                            ..self.control
                        },
                        ..self
                    },
                    Step::GuardFailed(guard),
                )
            },
        }
    }

    /// A call in replay. The callee runs in the general loop; the caller waits
    /// at the next instruction of the trace. The frame pointer moves as in a
    /// call from the general loop.
    pub open spec fn replay_call(self, p: ProgramView, next: Control) -> (State, Step) {
        match self.call_parts(p) {
            Err(stop) => (self, stop),
            Ok(parts) => (
                State {
                    mem: parts.mem,
                    control: entry_of(parts.callee),
                    callers: self.callers.push(next),
                    output: parts.output,
                    ..self
                },
                Step::Continue,
            ),
        }
    }

    /// One step of replay, of the trace of `key` at `index`.
    pub open spec fn eval_trace(self, p: ProgramView, key: usize, index: usize) -> (State, Step) {
        match self.jit.trace_op(key, index) {
            None => (self, Step::Trapped(Trap::MissingTrace)),
            Some((op, i)) => {
                let next = Control {
                    mode: Mode::Replay { key, index: (i + 1) as usize },
                    ..self.control
                };
                match op {
                    OpCode::Guard(guard) => self.replay_guard(guard, next),
                    OpCode::Debug(_) => (State { control: next, ..self }, Step::Continue),
                    OpCode::Call => self.replay_call(p, next),
                    OpCode::RETURN | OpCode::StackFrame(_) => (
                        self,
                        Step::Trapped(Trap::Unsupported),
                    ),
                    _ => match self.mem.apply(op) {
                        Err(t) => (self, Step::Trapped(t)),
                        Ok(mem) => (State { mem, control: next, ..self }, Step::Continue),
                    },
                }
            },
        }
    }

    /// The instruction that the next step executes, if there is one: of the
    /// current function at the program counter, or of the trace in replay.
    pub open spec fn instruction(self, p: ProgramView) -> Option<OpCode> {
        match self.control.mode {
            Mode::Baseline => if p.functions.contains_key(self.control.func) && self.control.pc
                < p.functions[self.control.func].len() {
                Some(p.functions[self.control.func][self.control.pc as int])
            } else {
                None
            },
            Mode::Replay { key, index } => match self.jit.trace_op(key, index) {
                Some((op, _)) => Some(op),
                None => None,
            },
        }
    }

    /// One step of the machine.
    pub open spec fn step(self, p: ProgramView) -> (State, Step) {
        if self.done {
            (self, Step::Finished)
        } else {
            match self.control.mode {
                Mode::Baseline => self.eval_func(p),
                Mode::Replay { key, index } => self.eval_trace(p, key, index),
            }
        }
    }

    /// The machine after up to `fuel` steps, and how its last step ended:
    /// the run stops where a step does not leave the machine running.
    pub open spec fn run(self, p: ProgramView, fuel: nat) -> (State, Step)
        decreases fuel,
    {
        if fuel == 0 {
            (self, Step::Continue)
        } else {
            let (next, how) = self.step(p);
            match how {
                Step::Continue | Step::GuardFailed(_) => next.run(p, (fuel - 1) as nat),
                _ => (next, how),
            }
        }
    }
}

} // verus!
