//! A small stack machine: its instruction set, the binary form of a program,
//! and the engine that runs a decoded program one instruction at a time.
//!
//! Multi-byte operands are little-endian on every host. The engine does no
//! input or output of its own: what a program prints or asks of the
//! operating system is handed to the host as the outcome of a step.

pub mod codec;
pub mod codegen;
pub mod exec;
pub mod exec_lemmas;
pub mod inst;
pub mod model;
pub mod parser;
pub mod syscall;
pub mod text;

pub use codegen::CodeGen;
pub use exec::{ErrorKind, Machine, Outcome, Value};
pub use inst::{ExprKind, Inst, Jump, MemOp, StackOp};
pub use parser::Parser;
pub use syscall::{Request, Syscall};
