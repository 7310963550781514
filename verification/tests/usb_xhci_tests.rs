use prisma_drivers::usb::types::SetupPacket;
use prisma_drivers::usb::types::{UsbDirection, UsbSpeed};
use prisma_drivers::usb::xhci::ring::{CommandRing, TransferRing};
use prisma_drivers::usb::xhci::trb::{
    LinkTrb, NoOpCommandTrb, NormalTrb, SetupStageTrb, StatusStageTrb, TransferEvent, Trb, TrbType,
};
use prisma_drivers::usb::xhci::{XhciCapabilities, XhciPortStatus};

#[test]
fn trb_flags_and_type() {
    let mut t = Trb::new();
    assert_eq!((t.parameter, t.status, t.control), (0, 0, 0));
    t.set_trb_type(TrbType::Normal);
    assert_eq!(t.trb_type(), TrbType::Normal);
    assert_eq!(t.control >> 10, 1);
    t.set_cycle_bit(true);
    assert!(t.cycle_bit());
    t.set_interrupt_on_completion(true);
    assert!(t.interrupt_on_completion());
    t.set_cycle_bit(false);
    assert!(!t.cycle_bit());
    assert!(t.interrupt_on_completion());
    assert_eq!(TrbType::Link.code(), 6);
}

#[test]
fn setup_stage_trb_layout() {
    let p = SetupPacket::get_descriptor(1, 0, 18);
    let t = SetupStageTrb::new(&p, 8, true);
    assert_eq!(t.parameter, 0x0012_0000_0100_0680);
    assert_eq!(t.status, 8);
    assert_eq!(t.trb_type(), TrbType::SetupStage);
    assert!(t.immediate_data());
    assert!(t.cycle_bit());
    // an IN data stage follows
    assert_eq!((t.control >> 16) & 3, 3);
    let s = StatusStageTrb::new(UsbDirection::In, false);
    assert_eq!(s.trb_type(), TrbType::StatusStage);
    let n = NormalTrb::new(0x1000, 512, true, true);
    assert_eq!((n.parameter, n.status), (0x1000, 512));
    assert!(n.interrupt_on_completion());
    let l = LinkTrb::new(0x2000, true, true);
    assert_eq!(l.parameter, 0x2000);
    assert!(l.toggle_cycle());
    assert_eq!(NoOpCommandTrb::new(true).trb_type(), TrbType::NoOpCommand);
}

#[test]
fn transfer_event_fields() {
    let mut raw = Trb::new();
    raw.parameter = 0xABCD_0000;
    raw.status = (1 << 24) | 100;
    raw.control = (3 << 24) | (2 << 16) | (32 << 10);
    let ev = TransferEvent::from_trb(raw);
    assert_eq!(ev.trb_pointer(), 0xABCD_0000);
    assert_eq!(ev.transfer_length(), 100);
    assert_eq!(ev.completion_code(), 1);
    assert!(ev.is_success());
    assert_eq!(ev.slot_id(), 3);
    assert_eq!(ev.endpoint_id(), 2);
}

#[test]
fn transfer_ring_wraps_and_toggles_cycle() {
    let mut ring = TransferRing::new(&[0x1000, 0x2000], 4).unwrap();
    assert!(ring.cycle_state());
    assert_eq!(ring.enqueue_pointer(), 0x1000);
    ring.enqueue_trb(Trb::new()).unwrap();
    assert_eq!(ring.enqueue_pointer(), 0x1010);
    ring.enqueue_trbs(&[Trb::new(), Trb::new()]).unwrap();
    // three usable TRBs per segment: the fourth is the link
    assert_eq!(ring.enqueue_pointer(), 0x2000);
    for _ in 0..3 {
        ring.enqueue_trb(Trb::new()).unwrap();
    }
    assert_eq!(ring.enqueue_pointer(), 0x1000);
    assert!(!ring.cycle_state());
    let stats = ring.stats();
    assert_eq!((stats.segments, stats.trbs_per_segment, stats.current_segment, stats.current_trb), (2, 3, 0, 0));
    assert_eq!(ring.free_trbs(), 3);
    assert!(ring.has_space(3));
    assert!(!ring.has_space(4));
    assert!(TransferRing::new(&[], 4).is_err());
    assert!(TransferRing::new(&[0x1000], 0).is_err());
}

#[test]
fn command_ring_and_completions() {
    let mut cr = CommandRing::new(0x8000).unwrap();
    assert_eq!(cr.physical_address(), 0x8000);
    assert!(cr.cycle_state());
    cr.submit_command(NoOpCommandTrb::new(false)).unwrap();
    assert!(!cr.has_completions());
    let mut ev = Trb::new();
    ev.status = 1 << 24;
    cr.process_completion(ev);
    assert!(cr.has_completions());
    assert_eq!(cr.next_completion(), Some(ev));
    assert_eq!(cr.next_completion(), None);
}

#[test]
fn port_status_decoding() {
    let p = XhciPortStatus::new(0x0000_0e03 | (1 << 17));
    assert!(p.is_connected());
    assert!(p.is_enabled());
    assert_eq!(p.speed(), Some(UsbSpeed::High));
    assert!(p.connect_status_changed());
    assert_eq!(p.change_bits(), 1 << 17);
    assert_eq!(p.enable_port(), p.portsc | 0x02);
    assert_eq!(p.reset_port(), (p.portsc & !0x02) | 0x10);
    assert_eq!(p.set_port_power(false) & 0x100, 0);
    assert_eq!(XhciPortStatus::new(0).speed(), None);
}

#[test]
fn capability_fields() {
    let caps = XhciCapabilities {
        cap_length: 0x20,
        hci_version: 0x0110,
        hcsparams1: (8 << 24) | (64 << 8) | 32,
        hcsparams2: 0,
        hcsparams3: 0,
        hccparams1: 0x1,
        doorbell_offset: 0x800,
        runtime_offset: 0x600,
        hccparams2: 0,
    };
    assert_eq!(caps.max_device_slots(), 32);
    assert_eq!(caps.max_interrupters(), 64);
    assert_eq!(caps.max_ports(), 8);
    assert!(caps.supports_64bit());
    assert_eq!(caps.page_size(1), 4096);
    assert_eq!(caps.page_size(4), 16384);
}

#[test]
fn input_control_context_starts_all_zero() {
    let c = prisma_drivers::usb::xhci::context::InputControlContext::new();
    assert_eq!(c.reserved, [0u32; 5]);
    assert_eq!((c.drop_context_flags, c.add_context_flags), (0, 0));
    assert_eq!((c.configuration_value, c.interface_number, c.alternate_setting, c.reserved2), (0, 0, 0, 0));
}

#[test]
fn command_completions_come_out_oldest_first() {
    let mut cr = CommandRing::new(0x9000).unwrap();
    let mut first = Trb::new();
    first.status = 1 << 24;
    let mut second = Trb::new();
    second.status = 5 << 24;
    cr.process_completion(first);
    cr.process_completion(second);
    assert_eq!(cr.next_completion(), Some(first));
    assert_eq!(cr.next_completion(), Some(second));
    assert_eq!(cr.next_completion(), None);
}
