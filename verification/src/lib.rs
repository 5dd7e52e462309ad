//! Core of a sidechain atomic-swap engine: swap records and their lifecycle,
//! the registry and output-lock index that hold them, and the assembler that
//! builds the create and claim transactions.

pub mod assembler;
pub mod digest;
pub mod engine;
pub mod lifecycle;
pub mod lockindex;
pub mod registry;
pub mod types;
