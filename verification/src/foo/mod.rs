//! The first generation of the register library: field masks whose value
//! pairs select a single bit, the AST of its peripheral description, its
//! code generator, and the macro that drives them.

pub mod ast;
pub mod regs;
pub mod util;
pub mod emit;
pub mod generator;
pub mod driver;
