//! A small MOS 6502 processor: registers, a 64 KiB address space, the
//! addressing modes and the instructions LDA, STA, ADC, TAX, INX and BRK.
//!
//! `model` states what each instruction does to an abstract processor
//! state; `cpu` holds the executable processor, whose methods are proved
//! against that model; `laws` collects the properties that span several
//! operations; `instruction_laws` states, in plain arithmetic on the
//! inputs, what each instruction and each opcode computes.

pub mod cpu;
pub mod instruction_laws;
pub mod laws;
pub mod model;

pub use cpu::{AddressingMode, CPU};
