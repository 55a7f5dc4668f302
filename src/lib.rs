//! A CHIP-8 virtual machine: memory, stack, keypad, display and the
//! interpreter that fetches, decodes and executes 16-bit instructions.
pub mod alu;
pub mod display;
pub mod error;
pub mod interpreter;
pub mod keypad;
pub mod machine;
pub mod memory;
pub mod stack;
