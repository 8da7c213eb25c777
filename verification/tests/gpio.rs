use fusarium::armv6a::drivers::gpio::{GPIOInner, GPFSEL1_OFFSET};
use fusarium::armv6a::drivers::MMIODerefWrapper;
use fusarium::armv6a::memory::map::mmio::GPIO_START;

#[test]
fn uart_pins_mapping_value() {
    let g = GPIOInner::new(GPIO_START);
    assert_eq!(g.registers_start(), GPIO_START);
    assert_eq!(g.map_pl011_uart(0), 0x0002_4000);
    assert_eq!(g.map_pl011_uart(0xFFFF_FFFF), 0xFFFE_4FFF);
    assert_eq!(g.map_pl011_uart(0x0003_F000), 0x0002_4000);
    assert_eq!(g.map_pl011_uart(0x0000_0FFF), 0x0002_4FFF);
    assert_eq!(g.map_pl011_uart(g.map_pl011_uart(0x1234_5678)), g.map_pl011_uart(0x1234_5678));
    assert_eq!(GPFSEL1_OFFSET, 4);
}

#[test]
fn mmio_wrapper_keeps_address() {
    let w: MMIODerefWrapper<u32> = MMIODerefWrapper::new(0x2000_0000);
    assert_eq!(w.start_addr(), 0x2000_0000);
}
