use prisma_drivers::framebuffer::{with_framebuffer, with_framebuffer_mut, FramebufferDriver};
use prisma_drivers::pci::{device_name, pci_type, vendor_name};

#[test]
fn framebuffer_pixels() {
    let mut fb = FramebufferDriver::new();
    assert!(!fb.get_info().initialized);
    fb.set_pixel(0, 0, 0xFF);
    assert_eq!(fb.get_pixel(0, 0), 0);
    fb.init(0xB800_0000, 8, 4, 32, 32);
    let info = fb.get_info();
    assert_eq!((info.width, info.height, info.pitch, info.bytes_per_pixel), (8, 4, 32, 4));
    assert!(info.initialized);
    assert_eq!(fb.get_pixel(3, 2), 0);
    fb.set_pixel(3, 2, 0x00FF_00FF);
    assert_eq!(fb.get_pixel(3, 2), 0x00FF_00FF);
    fb.set_pixel(8, 0, 1);
    assert_eq!(fb.get_pixel(8, 0), 0);
    fb.clear(0x1234);
    assert_eq!(fb.get_pixel(7, 3), 0x1234);
    assert_eq!(fb.get_pixel(3, 2), 0x1234);
}

#[test]
fn framebuffer_rectangles() {
    let mut fb = FramebufferDriver::new();
    fb.init(0x1000, 8, 8, 32, 32);
    fb.draw_rect(2, 2, 3, 2, 0xAA);
    assert_eq!(fb.get_pixel(2, 2), 0xAA);
    assert_eq!(fb.get_pixel(4, 3), 0xAA);
    assert_eq!(fb.get_pixel(5, 3), 0);
    assert_eq!(fb.get_pixel(2, 4), 0);
    // clipped at the edge
    fb.draw_rect(6, 6, 10, 10, 0xBB);
    assert_eq!(fb.get_pixel(7, 7), 0xBB);
    let src: Vec<u32> = (0..16).collect();
    // copy a 2x2 block from (1,1) of a 4-wide buffer to (0,0)
    fb.copy_from_buffer(&src, 1, 1, 4, 0, 0, 2, 2);
    assert_eq!(fb.get_pixel(0, 0), 5);
    assert_eq!(fb.get_pixel(1, 0), 6);
    assert_eq!(fb.get_pixel(0, 1), 9);
    assert_eq!(fb.get_pixel(1, 1), 10);
    fb.shutdown();
    assert_eq!(fb.get_pixel(0, 0), 0);
}

#[test]
fn framebuffer_slot_helpers() {
    let mut slot: Option<FramebufferDriver> = None;
    assert_eq!(with_framebuffer(&slot, |fb| fb.get_info().width), None);
    let mut fb = FramebufferDriver::new();
    fb.init(0x1000, 4, 4, 16, 32);
    slot = Some(fb);
    assert_eq!(with_framebuffer(&slot, |fb| fb.get_info().width), Some(4));
    assert_eq!(with_framebuffer_mut(&mut slot, |fb| fb.set_pixel(1, 1, 7)), Some(()));
    assert_eq!(with_framebuffer(&slot, |fb| fb.get_pixel(1, 1)), Some(7));
}

#[test]
fn pci_names_and_types() {
    assert_eq!(vendor_name(0x8086), "Intel Corporation");
    assert_eq!(device_name(0x8086, 0x0007), "82379AB");
    assert_eq!(vendor_name(0x0002), "Unknown Vendor");
    assert_eq!(device_name(0x8086, 0xFFFF), "Unknown Device");
    assert_eq!(pci_type(Some(&[0x01, 0x10, 0x05])), "PCI Express");
    assert_eq!(pci_type(Some(&[0x01, 0x05])), "PCI");
    assert_eq!(pci_type(Some(&[])), "Legacy/Non-PCI");
    assert_eq!(pci_type(None), "Legacy/Non-PCI");
}
