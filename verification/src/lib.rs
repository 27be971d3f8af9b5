//! Build orchestration for an external assembler and linker.
//!
//! The library decides; its caller acts. It settles the effective
//! configuration from the command line and an optional file ([`cli`],
//! [`config`]), expands the configured inputs into concrete files and says
//! how each is assembled ([`assembler`]), collects the compile results by
//! position and says when and how to link ([`pipeline`], [`linker`]), names
//! what a clean removes ([`clean`]), and steers the rebuild loop
//! ([`watch`]). Processes, files and the change observer belong to the
//! caller, which hands their outcomes back as plain values ([`tool`]).
//!
//! Every function comes with a contract over the mathematical content of
//! its arguments, and the laws that relate the functions are proved beside
//! them.

pub mod assembler;
pub mod clean;
pub mod cli;
pub mod config;
pub mod error;
pub mod linker;
pub mod order;
pub mod pipeline;
pub mod text;
pub mod tool;
pub mod watch;
