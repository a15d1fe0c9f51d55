//! Redstone logic on programmable hardware: the compiler that turns a graph of redstone
//! components into a hardware description, and the runtime that binds world blocks to
//! the bit streams of a remote device.

pub mod assembler;
pub mod backend;
pub mod bits;
pub mod blocks;
pub mod compiler;
pub mod graph;
pub mod interface;
pub mod linker;
pub mod node;
pub mod options;
pub mod passes;
pub mod persist;
pub mod scheduler;
pub mod text;
