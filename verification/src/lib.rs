//! A bytecode virtual machine with a meta-tracing just-in-time engine.
//!
//! The machine executes a stack-based instruction set: an operand stack of
//! values and addresses, a flat frame stack of locals, and a general loop
//! that fetches and executes one instruction at a time. Loops of the program
//! mark their heads with a merge point; a loop that gets hot is recorded
//! into a linear trace, with a guard in place of each conditional jump, and
//! the trace is replayed from then on until a guard fails.
//!
//! In [`mossc`]:
//!
//! - `bytecode`, `value`, `trap`: the instructions, the values, the faults;
//! - `memory`, `binop`: what each instruction does to the two stacks, as
//!   mathematics; `stacks`: the stacks that do it;
//! - `program`: the store of compiled functions;
//! - `jit`: the tracing engine; `machine`: the machine as a transition
//!   system; `interpret`: the machine that steps and runs;
//! - `mir`, `lower`, `link`, `compile`: from a control-flow program to a
//!   program store;
//! - `laws`, `safety`, `provenance`, `transparency`: what is proved of the
//!   machine for every program: that arguments arrive in order, that writes
//!   through addresses are seen, that a compiled loop stays compiled, that
//!   every trace follows a path through its function, and that tracing
//!   changes nothing that a program can see.

pub mod mossc;
