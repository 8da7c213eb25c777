use fusarium::armv6a::interrupts::{are_enabled, CriticalSection};

#[test]
fn interrupt_modes_decide() {
    assert!(are_enabled(0x12));
    assert!(are_enabled(0x11));
    assert!(are_enabled(0x92));
    assert!(are_enabled(0xFFFF_FFF2));
    assert!(!are_enabled(0x13));
    assert!(!are_enabled(0x93));
    assert!(!are_enabled(0x10));
    assert!(!are_enabled(0x1F));
    assert!(!are_enabled(0));
}

#[test]
fn critical_section_follows_the_irq_mask() {
    let (cs, disable) = CriticalSection::enter(0x13);
    assert!(disable);
    assert!(cs.leave());
    let (cs, disable) = CriticalSection::enter(0x92);
    assert!(!disable);
    assert!(!cs.leave());
    let (cs, disable) = CriticalSection::enter(0x12);
    assert!(disable);
    assert!(cs.leave());
    let (cs, disable) = CriticalSection::enter(0x93);
    assert!(!disable);
    assert!(!cs.leave());
}
