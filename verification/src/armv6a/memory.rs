//! Physical memory map of the BCM2835 and translation between ARM physical
//! addresses and the VideoCore's uncached bus addresses.

pub mod map;

use vstd::prelude::*;

verus! {

/// Distance between an ARM physical address and the same location seen
/// through the VideoCore's uncached bus alias.
pub const UNCACHED_BUS_OFFSET: u32 = 0xC000_0000;

/// Translation between ARM physical addresses and VideoCore uncached bus
/// addresses.
pub trait AddressTranslation: Sized {
    /// The address can be moved into the uncached bus alias without leaving
    /// the address space.
    spec fn has_uncached_bus_alias(self) -> bool;

    /// The address lies in the uncached bus alias.
    spec fn is_uncached_bus_address(self) -> bool;

    /// The uncached bus address of a physical address.
    spec fn uncached_bus_alias(self) -> Self;

    /// The physical address behind an uncached bus address.
    spec fn physical_of_bus(self) -> Self;

    fn phys_to_uncachedbus(self) -> (r: Self)
        requires
            self.has_uncached_bus_alias(),
        ensures
            r == self.uncached_bus_alias(),
    ;

    fn uncachedbus_to_phys(self) -> (r: Self)
        requires
            self.is_uncached_bus_address(),
        ensures
            r == self.physical_of_bus(),
    ;
}

impl AddressTranslation for u32 {
    open spec fn has_uncached_bus_alias(self) -> bool {
        self + UNCACHED_BUS_OFFSET <= u32::MAX
    }

    open spec fn is_uncached_bus_address(self) -> bool {
        self >= UNCACHED_BUS_OFFSET
    }

    open spec fn uncached_bus_alias(self) -> u32 {
        (self + UNCACHED_BUS_OFFSET) as u32
    }

    open spec fn physical_of_bus(self) -> u32 {
        (self - UNCACHED_BUS_OFFSET) as u32
    }

    fn uncachedbus_to_phys(self) -> (r: u32) {
        self - UNCACHED_BUS_OFFSET
    }

    fn phys_to_uncachedbus(self) -> (r: u32) {
        self + UNCACHED_BUS_OFFSET
    }
}

/// Moving a physical address to the uncached bus alias and back gives the
/// address itself.
pub proof fn lemma_bus_alias_round_trip(addr: u32)
    requires
        addr.has_uncached_bus_alias(),
    ensures
        addr.uncached_bus_alias().is_uncached_bus_address(),
        addr.uncached_bus_alias().physical_of_bus() == addr,
{
}

/// Moving an uncached bus address to physical memory and back gives the
/// address itself.
pub proof fn lemma_physical_round_trip(addr: u32)
    requires
        addr.is_uncached_bus_address(),
    ensures
        addr.physical_of_bus().has_uncached_bus_alias(),
        addr.physical_of_bus().uncached_bus_alias() == addr,
{
}

} // verus!
