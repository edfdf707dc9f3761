//! A compiler from a small assembly language to polynomial identities.
//!
//! [`asm_compiler::compile`] lowers a parsed assembly source to the statements of a
//! constraint system, [`parser::display`] writes them as text, and [`free_input`] answers
//! the queries by which the constraint system asks for its inputs. What each function
//! computes is stated over the mathematical views of its arguments and proved; only the
//! arithmetic and the decimal text of numbers are taken from `num_bigint` on trust, through
//! the wrappers of [`number`].

pub mod asm_compiler;
pub mod commit_evaluator;
pub mod free_input;
pub mod number;
pub mod ordered;
pub mod parser;
pub mod text;
