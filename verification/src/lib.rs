//! A small compiler for a subset of C: scanner, Pratt-style expression parser,
//! recursive-descent statement parser, symbol table and assembly back ends.

pub mod error;
pub mod sym;
pub mod scan;
pub mod ast;
pub mod grammar;
pub mod expr;
pub mod cgen;
pub mod misc;
pub mod pars;
pub mod emit;
pub mod cg;
pub mod cg_arm32;
pub mod dummy_cg;
pub mod driver;
pub mod tree;
pub mod interp;
pub mod laws;
