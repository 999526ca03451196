//! A small imperative language's execution pipeline: source text is lexed
//! into tokens, parsed into a syntax tree, compiled to bytecode over a
//! deduplicated constant pool, and executed by a stack-based virtual machine
//! with explicit call frames.
//!
//! The compiler and the machine are each defined twice: once as pure
//! specification functions over sequences, and once as executable code whose
//! contracts state that it computes exactly those functions. The laws module
//! proves what the pipeline guarantees as a whole.
#![verifier::loop_isolation(false)]
pub mod ast;
pub mod code;
pub mod symbol;
pub mod codegen;
pub mod vm;
pub mod lexer;
pub mod laws;
