//! A small assembly-style language: a scanner that turns text into tokens, a
//! parser that turns tokens into a program, and a virtual machine that runs it.

pub mod behaviour;
pub mod instruction;
pub mod names;
pub mod parser;
pub mod pattern;
pub mod program;
pub mod scanner;
pub mod stream;
pub mod text;
pub mod token;
pub mod vm;
