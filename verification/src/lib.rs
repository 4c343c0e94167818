//! An Ethereum virtual machine: the interpreter loop, its instructions, gas accounting,
//! memory, bytecode analysis, and the journal of state changes.
#![allow(unused_imports)]

pub mod bytecode;
pub mod gas;
pub mod handler;
pub mod host;
pub mod instructions;
pub mod interpreter;
pub mod journal;
pub mod precompile;
pub mod primitives;
