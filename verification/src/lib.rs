//! A CHIP-8 interpreter whose instruction semantics are stated as a
//! mathematical model and proved of the executable engine.
use vstd::prelude::*;

pub mod chip8;
pub mod consts;
pub mod font;
pub mod host;
pub mod instruction;
pub mod laws;
pub mod machine;
mod random;

pub use crate::chip8::Chip8;
pub use crate::instruction::Instruction;
pub use crate::machine::{Chip8Error, WaitState};

verus! {

} // verus!
