# prisma_drivers

Device drivers of the PrismaOS kernel — serial port, framebuffer, legacy IDE, PCI naming,
AHCI and a USB stack with an xHCI host controller — written in Verus. The decisions of each
driver (register values, command encodings, descriptor parsing, ring and slot management,
state machines) form the verified library; every public function states its result in its
contract.

Layout:

- `src/` — the verified library.
  - `serial.rs`, `framebuffer.rs`, `pci.rs`, `ide/` — the simpler drivers.
  - `ahci/` — ATA commands, command queue and PRDT construction, ports, devices and the
    controller registry.
  - `usb/` — descriptors, devices, endpoints, transfers, hubs, class drivers, enumeration,
    DMA memory bookkeeping, asynchronous transfer state, and `usb/xhci/` (TRBs, rings,
    contexts, register sets held as values, and the host controller).
  - `bits.rs` — bit-field helpers shared by the register code.
- `tests/` — tests of the library.
- `app/` — the hardware side: port and memory-mapped I/O, DMA memory, PCI configuration
  space access, futures and the glue to the `limine`, `usb-device` and `xhci` crates.

The library never touches hardware: a caller reads registers, hands their values to the
library, and writes back what the library computed.
