//! A minimal 8-bit computer: an assembler that turns assembly text into a
//! byte image, and a cycle-stepped machine (CPU, ALU, memory, keyboard and
//! screen) that runs the image.

use vstd::prelude::*;

pub mod alu;
pub mod cpu;
pub mod error;
pub mod isa;
pub mod laws;
pub mod lexer;
pub mod motherboard;
pub mod parser;
pub mod peripheral;
pub mod ram;
pub mod text;
pub mod token;

verus! {

} // verus!
