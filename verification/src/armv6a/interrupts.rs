//! Interrupt handling on the ARM1176: the decisions, taken on the value of
//! the CPSR that the caller reads.

use vstd::prelude::*;

verus! {

/// Bit 7 (I) of the CPSR: IRQ interrupts are masked.
pub open spec fn irq_masked(cpsr: u32) -> bool {
    (cpsr / 0x80) % 2 == 1
}

/// Processor mode IRQ (`0b10010`) in the mode bits M[4:0] of the CPSR.
pub const MODE_IRQ: u32 = 0b10010;

/// Processor mode FIQ (`0b10001`) in the mode bits M[4:0] of the CPSR.
pub const MODE_FIQ: u32 = 0b10001;

/// The processor mode: bits M[4:0] of the CPSR.
pub open spec fn cpsr_mode(cpsr: u32) -> u32 {
    cpsr % 32
}

/// The processor is handling an interrupt: its mode is IRQ or FIQ.
pub open spec fn in_interrupt(cpsr: u32) -> bool {
    cpsr_mode(cpsr) == MODE_IRQ || cpsr_mode(cpsr) == MODE_FIQ
}

/// Check if we are in an interrupt, given the current program status
/// register `cpsr`.
///
/// # Returns
/// * True if we are in an interrupt: the mode is IRQ or FIQ
/// * False otherwise
pub fn are_enabled(cpsr: u32) -> (r: bool)
    ensures
        r == in_interrupt(cpsr),
        r == (cpsr & 0x1f == 0x12 || cpsr & 0x1f == 0x11),
{
    let mode = cpsr & 0b1_1111;
    assert(cpsr & 0b1_1111u32 == cpsr % 32) by (bit_vector);
    mode == MODE_IRQ || mode == MODE_FIQ
}

/// Interrupt state after a `disable` that was or was not performed.
pub open spec fn after_disable(enabled: bool, disabled: bool) -> bool {
    enabled && !disabled
}

/// Interrupt state after an `enable` that was or was not performed.
pub open spec fn after_enable(enabled: bool, enabled_now: bool) -> bool {
    enabled || enabled_now
}

/// What a critical section remembers between its start and its end:
/// whether IRQ interrupts were enabled (the I bit clear) when it started.
pub struct CriticalSection {
    were_enabled: bool,
}

impl CriticalSection {
    /// IRQ interrupts were enabled when the section started.
    pub closed spec fn restores(&self) -> bool {
        self.were_enabled
    }

    /// Starts a section with the program status register `cpsr`. The flag
    /// returned beside it tells whether to disable interrupts now: exactly
    /// when the I bit is clear, so that they are enabled.
    pub fn enter(cpsr: u32) -> (r: (CriticalSection, bool))
        ensures
            r.1 == !irq_masked(cpsr),
            r.0.restores() == !irq_masked(cpsr),
            r.1 == (cpsr & 0x80 == 0),
    {
        assert(((cpsr & (1u32 << 7u32)) == 0) == ((cpsr / 0x80) % 2 != 1)) by (bit_vector);
        assert((cpsr & (1u32 << 7u32)) == (cpsr & 0x80)) by (bit_vector);
        let intpt_flag = cpsr & 1 << 7 == 0;
        (CriticalSection { were_enabled: intpt_flag }, intpt_flag)
    }

    /// Ends the section: tells whether to enable interrupts again, exactly
    /// when they were enabled at its start.
    pub fn leave(self) -> (enable: bool)
        ensures
            enable == self.restores(),
    {
        self.were_enabled
    }
}

/// Whatever the CPSR, interrupts are masked inside a critical section, and
/// after it they are as they were before it: a section entered with IRQs
/// masked never unmasks them.
pub proof fn lemma_critical_section(cpsr: u32)
    ensures
        ({
            let enabled = !irq_masked(cpsr);
            let inside = after_disable(enabled, enabled);
            &&& !inside
            &&& after_enable(inside, enabled) == enabled
            &&& irq_masked(cpsr) ==> !after_enable(inside, enabled)
        }),
{
}

/// The IRQ mask is bit 7 of the CPSR and nothing else: it is set exactly
/// when `cpsr & 0x80` is not zero, and flipping any other bit, such as the
/// FIQ mask in bit 6 or a mode bit, leaves it as it is.
pub proof fn lemma_irq_mask_bit(cpsr: u32, bit: u32)
    requires
        bit < 32,
        bit != 7,
    ensures
        irq_masked(cpsr) <==> cpsr & 0x80 != 0,
        irq_masked(cpsr ^ (1u32 << bit)) == irq_masked(cpsr),
{
    let flipped = cpsr ^ (1u32 << bit);
    assert(((cpsr / 0x80) % 2 == 1) == (cpsr & 0x80 != 0)) by (bit_vector);
    assert(((flipped / 0x80) % 2 == 1) == (flipped & 0x80 != 0)) by (bit_vector);
    assert((cpsr ^ (1u32 << bit)) & 0x80 == cpsr & 0x80) by (bit_vector)
        requires
            bit < 32,
            bit != 7,
    ;
}

/// Being in an interrupt is a matter of the five mode bits M[4:0] alone:
/// IRQ mode `0b10010` or FIQ mode `0b10001`.
pub proof fn lemma_interrupt_mode_bits(cpsr: u32)
    ensures
        in_interrupt(cpsr) <==> (cpsr & 0x1f == 0x12 || cpsr & 0x1f == 0x11),
{
    assert(cpsr & 0x1f == cpsr % 32) by (bit_vector);
}

} // verus!
