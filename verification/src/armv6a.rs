//! Code for the ARMv6 (BCM2835) Raspberry Pi Zero W target.

pub mod console;
pub mod drivers;
pub mod interrupts;
pub mod memory;
pub mod vga_buffer;
