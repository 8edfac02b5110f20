//! Instruction execution engine for the CHIP-8 virtual machine.
//!
//! The machine state lives in [`state::Cpu`]; [`decode`] turns a 16-bit
//! instruction word into an [`decode::Instruction`]; the handlers in [`ops`]
//! and [`display`] perform one state transition each and report how the
//! program counter moves next; [`engine`] dispatches on a decoded
//! instruction and runs whole fetch-execute cycles. [`laws`] states and
//! proves properties that relate several of these transitions.
#![allow(non_snake_case)]

pub mod decode;
pub mod display;
pub mod engine;
pub mod laws;
pub mod ops;
mod random;
pub mod state;
