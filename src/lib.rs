//! A CHIP-8 virtual machine whose fetch/decode/execute engine, memory, call
//! stack, timers and framebuffer are specified and verified with Verus.
pub mod decoder;
pub mod error;
pub mod stack;
pub mod mem;
pub mod timer;
pub mod screen;
pub mod keypad;
pub mod chip;
