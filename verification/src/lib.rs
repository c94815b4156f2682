//! A CHIP-8 virtual machine: a 4096-byte memory, a 64x32 monochrome
//! framebuffer with XOR sprite compositing, a keypad state with a
//! single-use key latch, and a fetch-decode-execute engine whose
//! instruction semantics are stated in the contracts of this crate.

pub mod cpu;
pub mod disasm;
pub mod display;
pub mod input;
pub mod ram;
pub mod types;
