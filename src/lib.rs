//! A CHIP-8 virtual machine: registers, memory, call stack, timers, a
//! monochrome framebuffer and a sixteen-key keypad, advanced one instruction
//! at a time, with every instruction's effect stated over an abstract model.
pub mod error;
pub mod keypad;
pub mod ram;
pub mod display;
pub mod instruction;
pub mod semantics;
pub mod cpu;
pub mod laws;
