//! A CHIP-8 interpreter core: the machine state and the instruction
//! decode/execute engine, with machine-checked contracts for every
//! instruction's state transition.

pub mod decode;
pub mod error;
pub mod laws;
pub mod model;
pub mod opcodes;
pub mod state;
pub mod step;
pub mod utils;
