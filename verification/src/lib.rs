//! Sandbox execution pipeline for short interpreted-language snippets.

pub mod buffer;
pub mod engine;
pub mod escape;
pub mod ident;
pub mod memory_pipe;
pub mod pipeline;
pub mod runner;
pub mod sandbox;
pub mod supervisor;
pub mod text;
