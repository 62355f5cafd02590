//! The machine: its instruction set, its values and stacks, the program
//! store, the interpreter with its tracing engine, and the way from a
//! control-flow program to bytecode.

pub mod binop;
pub mod bytecode;
pub mod compile;
pub mod interpret;
pub mod jit;
pub mod laws;
pub mod link;
pub mod lower;
pub mod machine;
pub mod memory;
pub mod mir;
pub mod program;
pub mod provenance;
pub mod safety;
pub mod stacks;
pub mod transparency;
pub mod trap;
pub mod value;

pub use self::bytecode::{Function, Guard, OpCode, Var};
pub use self::compile::{generate_bytecode, Context};
pub use self::program::Program;
