[package]
name = "prisma_drivers"
version = "0.1.0"
edition = "2021"
publish = false

[dependencies]
heapless = "0.8"
spin = "0.9"
volatile = "0.2"
x86_64 = "0.15"
limine = "0.5"
log = "0.4"
usb-device = "0.3"
xhci = "0.9"
ez_pci = "*"
ids_rs = "*"
