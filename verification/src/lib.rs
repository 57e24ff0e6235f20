//! Bytecode generator for a subset of Go, targeting a stack machine.
//!
//! The generator walks a syntax tree (`ast`) and emits code into functions
//! (`func`) that live in object tables (`objects`) beside types, strings,
//! slices, maps and packages (`package`). What it does is laid down as
//! mathematical functions of the generator's state (`model`, `rules`); the
//! executable generator (`codegen` and the `gen_` modules) is proved to do
//! exactly that, on success and on failure, and to keep the state in order:
//! every jump aims at an opcode, every load and store names a slot that
//! exists, and every package begins with its constructor.
//! `CodeGen::compile` takes a file to a `ByteCode`.

pub mod opcode;
pub mod value;
pub mod func;
pub mod package;
pub mod objects;
pub mod ast;
pub mod literal;
pub mod diag;
pub mod model;
pub mod bytecode;
pub mod rules;
pub mod codegen;
pub mod gen_types;
pub mod gen_values;
pub mod gen_exprs;
pub mod gen_assign;
pub mod gen_stmts;
pub mod gen_decls;
pub mod laws;
