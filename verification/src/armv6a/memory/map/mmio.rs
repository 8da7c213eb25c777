//! Physical device addresses.

pub mod irq;
pub mod video;

use super::{GPIO_OFFSET, INTERRUPT_OFFSET, UART_OFFSET};
use vstd::prelude::*;

verus! {

pub const BASE: usize = 0x2000_0000;
pub const BUS_ADDR: usize = 0x7E00_0000;
pub const INTERRUPT_BASE: usize = BASE + INTERRUPT_OFFSET;
pub const GPIO_START: usize = BASE + GPIO_OFFSET;
pub const PL011_UART_START: usize = BASE + UART_OFFSET;

} // verus!
