//! Addresses of the interrupt controller's registers.

use super::INTERRUPT_BASE;
use vstd::prelude::*;

verus! {

pub const IRQ_BASIC_PENDING: usize = INTERRUPT_BASE;
pub const IRQ_PENDING_1: usize = INTERRUPT_BASE + 0x04;
pub const IRQ_PENDING_2: usize = INTERRUPT_BASE + 0x08;
pub const ENABLE_IRQS_1: usize = INTERRUPT_BASE + 0x10;
pub const ENABLE_IRQS_2: usize = INTERRUPT_BASE + 0x14;

} // verus!
