//! Addresses of the VideoCore mailbox registers.

use super::BASE;
use super::super::VIDEOCORE_MBOX_OFFSET;
use vstd::prelude::*;

verus! {

pub const VIDEOCORE_MBOX_BASE: usize = BASE + VIDEOCORE_MBOX_OFFSET;
pub const MAIL0_READ: usize = VIDEOCORE_MBOX_BASE;
pub const MAIL0_WRITE: usize = VIDEOCORE_MBOX_BASE + 0x20;
pub const MAIL0_STATUS: usize = VIDEOCORE_MBOX_BASE + 0x18;

} // verus!
