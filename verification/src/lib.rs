//! A small expression language: lexer, recursive-descent parser, bytecode
//! compiler, a binary codec for compiled programs, and a stack-based virtual
//! machine.
//!
//! Numbers are 64-bit floating-point values.  Verified code never computes
//! with them directly: throughout the library a number is carried as its
//! IEEE-754 bit pattern in a `u64`, and every numeric primitive (arithmetic,
//! the named math functions, rounding a bound to an integer, drawing a random
//! value) is delegated to the caller of the virtual machine through an
//! explicit query/answer protocol (see `vm`).

use vstd::prelude::*;

pub mod ast;
pub mod bytecode;
pub mod codec;
pub mod compiler;
pub mod lexer;
pub mod parser;
pub mod table;
pub mod vm;
