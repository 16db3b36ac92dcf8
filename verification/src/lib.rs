//! Core of a small virtual microcontroller: a fixed 16-bit-opcode,
//! 8-bit-register CPU that executes programs from a 4096-byte address
//! space and renders to a monochrome pixel grid.
//!
//! The crate provides the fetch-decode-execute machinery together with
//! the framebuffer's XOR-compositing and collision model.  The display
//! surface itself, ROM loading from disk and the command line are
//! external collaborators and are not part of this library.

pub mod chip8;
pub mod compat;
pub mod decode;
pub mod display;
pub mod error;
pub mod execute;
pub mod fetch;
pub mod framebuffer;
pub mod instruction;
pub mod laws;
pub mod load;
pub mod memory;
pub mod semantics;
pub mod test_display;
pub mod u12;
