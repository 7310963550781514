pub mod ahci;
pub mod bits;
pub mod framebuffer;
pub mod ide;
pub mod pci;
pub mod serial;
pub mod usb;
mod probe_map;
