use fusarium::armv6a::memory::map::mmio::video::{MAIL0_READ, MAIL0_STATUS, MAIL0_WRITE};
use fusarium::armv6a::memory::map::mmio::{GPIO_START, INTERRUPT_BASE, PL011_UART_START};
use fusarium::armv6a::memory::AddressTranslation;

#[test]
fn physical_to_bus_and_back() {
    assert_eq!(0x0040_0000u32.phys_to_uncachedbus(), 0xC040_0000);
    assert_eq!(0xC040_0000u32.uncachedbus_to_phys(), 0x0040_0000);
    assert_eq!(0u32.phys_to_uncachedbus(), 0xC000_0000);
    assert_eq!(0x3FFF_FFFFu32.phys_to_uncachedbus(), 0xFFFF_FFFF);
    assert_eq!(0x1234_5678u32.phys_to_uncachedbus().uncachedbus_to_phys(), 0x1234_5678);
}

#[test]
fn device_addresses() {
    assert_eq!(GPIO_START, 0x2020_0000);
    assert_eq!(PL011_UART_START, 0x2020_1000);
    assert_eq!(INTERRUPT_BASE, 0x2000_B200);
    assert_eq!(MAIL0_READ, 0x2000_B880);
    assert_eq!(MAIL0_STATUS, 0x2000_B898);
    assert_eq!(MAIL0_WRITE, 0x2000_B8A0);
}
