//! A virtual machine for a small 8-bit bytecode: memory, registers, a
//! monochrome framebuffer, two countdown timers and a sixteen-key keypad.

pub mod decode;
pub mod emulator;
pub mod keypad;
pub mod machine;
pub mod screen;
pub mod timers;
