# fusarium

The verified core of Fusarium, a small kernel for x86_64 (under QEMU) and
the Raspberry Pi Zero W (ARMv6, BCM2835).

`src/` is the library, checked by Verus: its functions carry contracts and
the properties the kernel relies on are proved as lemmas. Colours of
embedded-graphics are described by their channels.

- `allocator`: `align_up`, and the pages of the kernel heap (`HeapPages`).
- `armv6a::memory`: the BCM2835 memory map and physical/bus address
  translation.
- `armv6a::drivers::mailbox`: VideoCore mailbox words and status flags.
- `armv6a::drivers::framebuffer`: pixels, the framebuffer, and a painter
  with Bresenham lines; the framebuffer request sent to the VideoCore.
- `armv6a::drivers::video`: the video driver, handed out once.
- `armv6a::drivers::gpio`: the GPFSEL1 value that routes the UART pins.
- `armv6a::interrupts`: whether the CPSR shows an interrupt mode, and the decisions of a
  critical section.
- `armv6a::console`: the bytes sent to the QEMU serial port.
- `armv6a::vga_buffer`: the text console's line history and text.
- `QemuExitCode`: the QEMU exit status.

`app/` is the kernel around it: boot code, register and port accesses,
interrupt handlers, locks, the heap allocator and drawing text with
embedded-text. `tests/` exercises the library on concrete values.
