//! Physical memory map, after the armOS wiki on the Raspberry Pi hardware.

pub mod mmio;

use vstd::prelude::*;

verus! {

pub const INTERRUPT_OFFSET: usize = 0x0000_B200;
pub const VIDEOCORE_MBOX_OFFSET: usize = 0x0000_B880;
pub const GPIO_OFFSET: usize = 0x0020_0000;
pub const UART_OFFSET: usize = 0x0020_1000;

} // verus!
