//! An arithmetic expression compiler and stack virtual machine.
//!
//! Source text is parsed into expression trees (`parser`, `ast`), lowered in
//! post-order to a byte-exact instruction stream (`bytecode`, `opcode`), and
//! executed on a capacity-checked evaluation stack (`vm`). A direct
//! tree-walking evaluator (`interpreter`) gives the reference meaning of a
//! tree, and `laws` proves that the machine agrees with it.
//!
//! Numbers are carried as IEEE-754 binary64 bit patterns (`u64`). The four
//! binary floating-point operations, and the conversion of a literal's digits
//! into a double, are supplied by the caller as functions; everything else,
//! negation included (a flip of the sign bit), is done and proved here.
mod arith;
pub mod ast;
pub mod bytecode;
pub mod interpreter;
pub mod laws;
pub mod opcode;
pub mod parser;
pub mod vm;

pub use arith::{functional, meaning, negate};
pub use ast::{Node, Operator, Sign};
pub use bytecode::Bytecode;
pub use opcode::OpCode;
pub use parser::{parse, ParseError};
pub use vm::{VmError, VM};
