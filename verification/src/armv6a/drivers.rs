//! Device drivers: the values they compute.

pub mod framebuffer;
pub mod gpio;
pub mod mailbox;
pub mod video;

use core::marker::PhantomData;
use vstd::prelude::*;

verus! {

/// Memory mapped IO wrapper: the address where a register block of type
/// `T` starts.
pub struct MMIODerefWrapper<T> {
    start_addr: usize,
    phantom: PhantomData<T>,
}

impl<T> MMIODerefWrapper<T> {
    /// The address the register block starts at.
    pub closed spec fn start(&self) -> usize {
        self.start_addr
    }

    /// Create a new MMIO deref wrapper
    pub fn new(start_addr: usize) -> (w: Self)
        ensures
            w.start() == start_addr,
    {
        Self { start_addr, phantom: PhantomData }
    }

    /// The address the register block starts at.
    pub fn start_addr(&self) -> (a: usize)
        ensures
            a == self.start(),
    {
        self.start_addr
    }
}

} // verus!
