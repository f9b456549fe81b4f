//! A compiler front end for a tape language of eight one-character commands.
//!
//! [`parser`] scans source text into instructions. [`coalescer`] holds one
//! instruction of lookahead and folds each run of additive instructions into
//! one net amount. [`codegen`] drives the two and, through [`builder`], emits a
//! [`program`]: basic blocks of abstract native operations on a byte tape,
//! which a backend turns into object code.
//!
//! [`lowering`] says which program that is, as a state machine over
//! instruction streams. [`theorems`] proves what the folding and the bracket
//! matching amount to, and [`structure`] that every emitted program is well
//! formed.
pub mod builder;
pub mod coalescer;
pub mod codegen;
pub mod lowering;
pub mod parser;
pub mod program;
pub mod structure;
pub mod theorems;
