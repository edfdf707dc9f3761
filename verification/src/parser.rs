//! Syntax trees of the assembly language and of the polynomial identity language.

pub mod asm_ast;
pub mod ast;
pub mod display;
