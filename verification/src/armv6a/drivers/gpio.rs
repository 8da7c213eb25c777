//! GPIO function selection for the PL011 UART pins.
//!
//! The function select register GPFSEL1 sits at offset 0x04 of the GPIO
//! block. The fields for pin 15 (bits 15 to 17) and pin 14 (bits 12 to 14)
//! are three bits wide; alternate function 0, the PL011 UART, is 0b100.

use crate::armv6a::drivers::MMIODerefWrapper;
use tock_registers::fields::FieldValue;
use vstd::prelude::*;

verus! {

/// Offset of the function select register GPFSEL1 in the GPIO block.
pub const GPFSEL1_OFFSET: usize = 0x04;

/// Size of the GPIO register block.
pub const GPIO_BLOCK_SIZE: usize = 0x94;

/// Field width of a pin's function select.
pub const FSEL_MASK: u32 = 0b111;

/// Offset of the FSEL15 field in GPFSEL1.
pub const FSEL15_OFFSET: usize = 15;

/// Offset of the FSEL14 field in GPFSEL1.
pub const FSEL14_OFFSET: usize = 12;

/// Function select value of alternate function 0: the PL011 UART.
pub const ALT_FUNC0: u32 = 0b100;

/// The GPIO register block that the driver works on.
pub struct GpioRegisterBlock {
    pub gpfsel1: u32,
}

/// A register field value: the bits it covers and the bits it sets there.
pub struct RegisterFieldValue {
    pub mask: u32,
    pub value: u32,
}

/// `FieldValue::<u32, _>::new` of tock-registers, read back through its
/// `mask()` and its `value` field: the mask `mask` and the value `value`
/// masked by it, both moved up by `shift` bits. A shift of 32 or more
/// overflows, which `requires` leaves out.
#[verifier::external_body]
fn field_value(mask: u32, shift: usize, value: u32) -> (f: RegisterFieldValue)
    requires
        shift < 32,
    ensures
        f.mask == mask << shift,
        f.value == (value & mask) << shift,
{
    let fv = FieldValue::<u32, ()>::new(mask, shift, value);
    RegisterFieldValue { mask: fv.mask(), value: fv.value }
}

impl RegisterFieldValue {
    /// Both field values at once, as tock-registers adds them: the masks and
    /// the values joined.
    pub fn combine(self, other: RegisterFieldValue) -> (r: RegisterFieldValue)
        ensures
            r.mask == self.mask | other.mask,
            r.value == self.value | other.value,
    {
        RegisterFieldValue { mask: self.mask | other.mask, value: self.value | other.value }
    }

    /// The register value `val` with the covered bits replaced, as
    /// tock-registers modifies a register: bits outside the mask stay.
    pub fn modify(self, val: u32) -> (r: u32)
        ensures
            r == (val & !self.mask) | self.value,
    {
        (val & !self.mask) | self.value
    }
}

/// GPFSEL1 after routing the UART pins: the fields FSEL15 (bits 15 to 17)
/// and FSEL14 (bits 12 to 14) both hold 0b100, every other bit stays.
pub open spec fn uart_mapped(gpfsel1: u32) -> u32 {
    (gpfsel1 & !0x3_f000u32) | 0x2_4000u32
}

pub struct GPIOInner {
    regs: MMIODerefWrapper<GpioRegisterBlock>,
}

impl GPIOInner {
    /// Where the register block starts.
    pub closed spec fn base(&self) -> usize {
        self.regs.start()
    }

    pub fn new(mmio_start_addr: usize) -> (g: Self)
        ensures
            g.base() == mmio_start_addr,
    {
        Self { regs: MMIODerefWrapper::new(mmio_start_addr) }
    }

    /// Where the register block starts.
    pub fn registers_start(&self) -> (a: usize)
        ensures
            a == self.base(),
    {
        self.regs.start_addr()
    }

    /// The value to write back to GPFSEL1, read as `gpfsel1`, so that pins
    /// 15 and 14 take alternate function 0 (the PL011 UART).
    pub fn map_pl011_uart(&self, gpfsel1: u32) -> (r: u32)
        ensures
            r == uart_mapped(gpfsel1),
    {
        let fsel15 = field_value(FSEL_MASK, FSEL15_OFFSET, ALT_FUNC0);
        let fsel14 = field_value(FSEL_MASK, FSEL14_OFFSET, ALT_FUNC0);
        let r = fsel15.combine(fsel14).modify(gpfsel1);
        assert(((gpfsel1 & !((7u32 << 15u32) | (7u32 << 12u32))) | (((4u32 & 7u32) << 15u32) | ((4u32
            & 7u32) << 12u32))) == (gpfsel1 & !0x3_f000u32) | 0x2_4000u32) by (bit_vector);
        r
    }
}

/// Routing the UART pins twice is routing them once, the bits outside the
/// two fields keep their values, and both fields select alternate
/// function 0.
pub proof fn lemma_uart_mapping(gpfsel1: u32)
    ensures
        uart_mapped(uart_mapped(gpfsel1)) == uart_mapped(gpfsel1),
        uart_mapped(gpfsel1) & !0x3_f000u32 == gpfsel1 & !0x3_f000u32,
        (uart_mapped(gpfsel1) >> 15u32) & 0b111 == ALT_FUNC0,
        (uart_mapped(gpfsel1) >> 12u32) & 0b111 == ALT_FUNC0,
{
    assert(((((gpfsel1 & !0x3_f000u32) | 0x2_4000u32) & !0x3_f000u32) | 0x2_4000u32) == (gpfsel1
        & !0x3_f000u32) | 0x2_4000u32) by (bit_vector);
    assert(((gpfsel1 & !0x3_f000u32) | 0x2_4000u32) & !0x3_f000u32 == gpfsel1 & !0x3_f000u32) by (bit_vector);
    assert((((gpfsel1 & !0x3_f000u32) | 0x2_4000u32) >> 15u32) & 0b111 == 0b100) by (bit_vector);
    assert((((gpfsel1 & !0x3_f000u32) | 0x2_4000u32) >> 12u32) & 0b111 == 0b100) by (bit_vector);
}

} // verus!
