use stm32f103xx_usb::bus::UsbBus;
use stm32f103xx_usb::pma::BufferDescriptor;
use stm32f103xx_usb::regs::UsbRegisters;
use stm32f103xx_usb::usb::{EndpointDirection, EndpointType, PollResult, UsbError};

fn fresh() -> UsbBus {
    UsbBus::usb(UsbRegisters::new())
}

fn stat_tx(bus: &UsbBus, i: usize) -> u16 {
    (bus.regs.ep[i].bits >> 4) & 3
}

fn stat_rx(bus: &UsbBus, i: usize) -> u16 {
    (bus.regs.ep[i].bits >> 12) & 3
}

/// A bus with bulk OUT and IN on slot 1, enabled and reset by the host.
fn running() -> UsbBus {
    let mut bus = fresh();
    assert_eq!(bus.alloc_ep(EndpointDirection::Out, None, EndpointType::Bulk, 64, 0), Ok(0x01));
    assert_eq!(bus.alloc_ep(EndpointDirection::In, None, EndpointType::Bulk, 64, 0), Ok(0x81));
    bus.enable();
    bus.reset();
    bus
}

#[test]
fn alloc_out_then_in_share_slot() {
    let mut bus = fresh();
    assert_eq!(bus.alloc_ep(EndpointDirection::Out, None, EndpointType::Bulk, 64, 0), Ok(0x01));
    assert_eq!(bus.alloc_ep(EndpointDirection::In, None, EndpointType::Bulk, 64, 0), Ok(0x81));
    let rec = bus.endpoint(1);
    assert_eq!(rec.ep_type, Some(EndpointType::Bulk));
    assert!(rec.out_valid && rec.in_valid);
}

#[test]
fn alloc_fixed_address_of_other_type_is_taken() {
    let mut bus = fresh();
    assert_eq!(bus.alloc_ep(EndpointDirection::Out, None, EndpointType::Bulk, 64, 0), Ok(0x01));
    assert_eq!(bus.alloc_ep(EndpointDirection::In, None, EndpointType::Bulk, 64, 0), Ok(0x81));
    assert_eq!(
        bus.alloc_ep(EndpointDirection::Out, Some(1), EndpointType::Interrupt, 8, 0),
        Err(UsbError::EndpointTaken)
    );
    assert_eq!(bus.endpoint(1).ep_type, Some(EndpointType::Bulk));
}

#[test]
fn alloc_fixed_address_zero_for_control() {
    let mut bus = fresh();
    assert_eq!(bus.alloc_ep(EndpointDirection::Out, Some(0), EndpointType::Control, 8, 0), Ok(0x00));
    assert_eq!(bus.alloc_ep(EndpointDirection::In, Some(0x80), EndpointType::Control, 8, 0), Ok(0x80));
    assert_eq!(
        bus.alloc_ep(EndpointDirection::In, Some(0x80), EndpointType::Control, 8, 0),
        Err(UsbError::EndpointTaken)
    );
}

#[test]
fn alloc_fixed_address_out_of_range() {
    let mut bus = fresh();
    assert_eq!(
        bus.alloc_ep(EndpointDirection::Out, Some(8), EndpointType::Bulk, 8, 0),
        Err(UsbError::EndpointOverflow)
    );
}

#[test]
fn alloc_skips_slots_of_other_type() {
    let mut bus = fresh();
    assert_eq!(bus.alloc_ep(EndpointDirection::In, None, EndpointType::Interrupt, 8, 0), Ok(0x81));
    assert_eq!(bus.alloc_ep(EndpointDirection::Out, None, EndpointType::Bulk, 64, 0), Ok(0x02));
    assert_eq!(bus.alloc_ep(EndpointDirection::Out, None, EndpointType::Interrupt, 8, 0), Ok(0x01));
}

#[test]
fn alloc_replay_gives_same_addresses() {
    let reqs = [
        (EndpointDirection::Out, None, EndpointType::Bulk, 64u16),
        (EndpointDirection::In, None, EndpointType::Interrupt, 8),
        (EndpointDirection::In, None, EndpointType::Bulk, 64),
        (EndpointDirection::Out, Some(3u8), EndpointType::Isochronous, 200),
        (EndpointDirection::Out, None, EndpointType::Bulk, 64),
    ];
    let mut a = fresh();
    let mut b = fresh();
    let ra: Vec<_> = reqs.iter().map(|&(d, addr, t, n)| a.alloc_ep(d, addr, t, n, 0)).collect();
    let rb: Vec<_> = reqs.iter().map(|&(d, addr, t, n)| b.alloc_ep(d, addr, t, n, 0)).collect();
    assert_eq!(ra, rb);
    assert_eq!(ra, vec![Ok(0x01), Ok(0x82), Ok(0x81), Ok(0x03), Ok(0x04)]);
}

#[test]
fn alloc_beyond_slots_of_incompatible_type_overflows() {
    let mut bus = fresh();
    for i in 1..8u8 {
        assert_eq!(bus.alloc_ep(EndpointDirection::Out, None, EndpointType::Interrupt, 8, 0), Ok(i));
    }
    assert_eq!(
        bus.alloc_ep(EndpointDirection::Out, None, EndpointType::Bulk, 8, 0),
        Err(UsbError::EndpointOverflow)
    );
    assert_eq!(
        bus.alloc_ep(EndpointDirection::In, None, EndpointType::Bulk, 8, 0),
        Err(UsbError::EndpointOverflow)
    );
}

#[test]
fn alloc_records_buffers_in_descriptors() {
    let mut bus = fresh();
    assert_eq!(bus.alloc_ep(EndpointDirection::Out, None, EndpointType::Bulk, 64, 0), Ok(0x01));
    assert_eq!(bus.alloc_ep(EndpointDirection::In, None, EndpointType::Bulk, 63, 0), Ok(0x81));
    assert_eq!(bus.alloc_ep(EndpointDirection::Out, None, EndpointType::Interrupt, 10, 0), Ok(0x02));
    assert_eq!(
        bus.packet_mem.descriptor(1),
        BufferDescriptor { addr_tx: 128, count_tx: 0, addr_rx: 64, count_rx: 0x8400 }
    );
    assert_eq!(
        bus.packet_mem.descriptor(2),
        BufferDescriptor { addr_tx: 0, count_tx: 0, addr_rx: 192, count_rx: 5 << 10 }
    );
}

#[test]
fn alloc_packet_memory_exhausted() {
    let mut bus = fresh();
    assert_eq!(bus.alloc_ep(EndpointDirection::In, None, EndpointType::Bulk, 440, 0), Ok(0x81));
    assert_eq!(
        bus.alloc_ep(EndpointDirection::In, None, EndpointType::Bulk, 10, 0),
        Err(UsbError::EndpointOverflow)
    );
    assert_eq!(bus.alloc_ep(EndpointDirection::In, None, EndpointType::Bulk, 8, 0), Ok(0x82));
}

#[test]
fn alloc_out_size_beyond_encoding_overflows() {
    let mut bus = fresh();
    assert_eq!(
        bus.alloc_ep(EndpointDirection::Out, None, EndpointType::Bulk, 1025, 0),
        Err(UsbError::EndpointOverflow)
    );
}

#[test]
fn enable_fixes_scan_limit_and_control_bits() {
    let mut bus = fresh();
    bus.alloc_ep(EndpointDirection::Out, Some(3), EndpointType::Bulk, 8, 0).unwrap();
    bus.regs.istr = 0x8c00;
    bus.enable();
    assert_eq!(bus.max_endpoint, 3);
    assert_eq!(bus.regs.cntr, 0);
    assert_eq!(bus.regs.btable, 0);
    assert_eq!(bus.regs.istr, 0x8000);
}

#[test]
fn bus_reset_programs_endpoints() {
    let bus = running();
    let v = bus.regs.ep[1].bits;
    assert_eq!(v & 0x0f, 1);
    assert_eq!((v >> 9) & 3, 0);
    assert_eq!(stat_rx(&bus, 1), 3);
    assert_eq!(stat_tx(&bus, 1), 2);
    assert_eq!(bus.regs.ep[2].bits, 0);
    assert_eq!(bus.regs.daddr, 0x80);
}

#[test]
fn bus_reset_twice_is_same_as_once() {
    let mut bus = running();
    let first: Vec<u16> = bus.regs.ep.iter().map(|r| r.bits).collect();
    bus.reset();
    let second: Vec<u16> = bus.regs.ep.iter().map(|r| r.bits).collect();
    assert_eq!(first, second);
}

#[test]
fn set_device_address_keeps_enable() {
    let mut bus = running();
    bus.set_device_address(0x25);
    assert_eq!(bus.regs.daddr, 0xa5);
}

#[test]
fn write_arms_transmission() {
    let mut bus = running();
    assert_eq!(bus.write(0x81, &[1, 2, 3]), Ok(3));
    assert_eq!(stat_tx(&bus, 1), 3);
    assert_eq!(bus.packet_mem.descriptor(1).count_tx, 3);
    let mut out = [0u8; 3];
    bus.packet_mem.read(128, 3, &mut out);
    assert_eq!(out, [1, 2, 3]);
    assert_eq!(bus.write(0x81, &[4]), Err(UsbError::Busy));
}

#[test]
fn write_rejects_out_address() {
    let mut bus = running();
    assert_eq!(bus.write(0x01, &[1]), Err(UsbError::InvalidEndpoint));
    assert_eq!(bus.write(0x00, &[1]), Err(UsbError::InvalidEndpoint));
    assert_eq!(bus.write(0x88, &[1]), Err(UsbError::InvalidEndpoint));
}

#[test]
fn write_rejects_disabled_endpoint() {
    let mut bus = running();
    assert_eq!(bus.write(0x82, &[]), Err(UsbError::InvalidEndpoint));
}

/// Lets the peripheral receive `data` on slot 1 as it would from the host.
fn receive(bus: &mut UsbBus, data: &[u8], setup: bool) {
    let bd = bus.packet_mem.descriptor(1);
    bus.packet_mem.write(bd.addr_rx as usize, data);
    let count_rx = (bd.count_rx & !0x3ff) | data.len() as u16;
    bus.packet_mem.set_descriptor(1, BufferDescriptor { count_rx, ..bd });
    bus.regs.ep[1].bits |= 0x8000 | if setup { 0x0800 } else { 0 };
}

#[test]
fn read_takes_received_packet() {
    let mut bus = running();
    receive(&mut bus, &[9, 8, 7, 6, 5], false);
    let mut buf = [0xffu8; 8];
    assert_eq!(bus.read(1, &mut buf), Ok(5));
    assert_eq!(buf, [9, 8, 7, 6, 5, 0xff, 0xff, 0xff]);
    assert_eq!(bus.regs.ep[1].bits & 0x8000, 0);
    assert_eq!(stat_rx(&bus, 1), 3);
    assert_eq!(bus.read(1, &mut buf), Err(UsbError::NoData));
}

#[test]
fn read_into_short_buffer_overflows() {
    let mut bus = running();
    receive(&mut bus, &[1, 2, 3, 4], false);
    let mut small = [0u8; 3];
    assert_eq!(bus.read(1, &mut small), Err(UsbError::BufferOverflow));
    assert_eq!(small, [0, 0, 0]);
    let mut exact = [0u8; 4];
    assert_eq!(bus.read(1, &mut exact), Ok(4));
    assert_eq!(exact, [1, 2, 3, 4]);
}

#[test]
fn read_count_uses_low_six_bits() {
    let mut bus = running();
    receive(&mut bus, &[7; 64], false);
    let mut buf = [0u8; 64];
    assert_eq!(bus.read(1, &mut buf), Ok(0));
}

#[test]
fn read_rejects_in_address_and_disabled() {
    let mut bus = running();
    let mut buf = [0u8; 8];
    assert_eq!(bus.read(0x81, &mut buf), Err(UsbError::InvalidEndpoint));
    assert_eq!(bus.read(8, &mut buf), Err(UsbError::InvalidEndpoint));
    assert_eq!(bus.read(2, &mut buf), Err(UsbError::InvalidEndpoint));
}

#[test]
fn stall_then_unstall_restores_ready_status() {
    let mut bus = running();
    let before = bus.regs.ep[1].bits;
    bus.stall(0x81);
    assert_eq!(stat_tx(&bus, 1), 1);
    bus.stall(0x01);
    assert_eq!(stat_rx(&bus, 1), 1);
    bus.unstall(0x81);
    bus.unstall(0x01);
    assert_eq!(bus.regs.ep[1].bits, before);
    assert_eq!(stat_tx(&bus, 1), 2);
    assert_eq!(stat_rx(&bus, 1), 3);
}

#[test]
fn unstall_without_stall_is_noop() {
    let mut bus = running();
    assert_eq!(bus.write(0x81, &[1]), Ok(1));
    let before = bus.regs.ep[1].bits;
    bus.unstall(0x81);
    bus.unstall(0x01);
    assert_eq!(bus.regs.ep[1].bits, before);
}

#[test]
fn poll_wakeup_before_reset() {
    let mut bus = running();
    bus.regs.istr = 0x1400;
    bus.regs.fnr = 0;
    assert_eq!(bus.poll(), PollResult::Resume);
    assert_eq!(bus.regs.istr, 0x0400);
    assert_eq!(bus.poll(), PollResult::Reset);
    assert_eq!(bus.regs.istr, 0);
    assert_eq!(bus.poll(), PollResult::Idle);
}

#[test]
fn poll_wakeup_line_states() {
    for (fnr, expected) in [
        (0x0000u16, PollResult::Resume),
        (0x4000, PollResult::Resume),
        (0x8000, PollResult::Suspend),
        (0xc000, PollResult::Suspend),
    ] {
        let mut bus = running();
        bus.regs.istr = 0x1000;
        bus.regs.fnr = fnr;
        assert_eq!(bus.poll(), expected);
    }
}

#[test]
fn poll_suspend() {
    let mut bus = running();
    bus.regs.istr = 0x0800;
    assert_eq!(bus.poll(), PollResult::Suspend);
    assert_eq!(bus.regs.istr, 0);
}

#[test]
fn poll_reports_transfers() {
    let mut bus = running();
    receive(&mut bus, &[1], true);
    assert_eq!(bus.write(0x81, &[1]), Ok(1));
    bus.regs.ep[1].bits |= 0x0080;
    bus.regs.istr = 0x8000;
    assert_eq!(
        bus.poll(),
        PollResult::Data { ep_out: 0b10, ep_in_complete: 0b10, ep_setup: 0b10 }
    );
    assert_eq!(bus.regs.ep[1].bits & 0x0080, 0);
    assert_eq!(bus.regs.ep[1].bits & 0x8000, 0x8000);
}

#[test]
fn poll_ignores_slots_beyond_scan_limit() {
    let mut bus = running();
    bus.regs.ep[5].bits = 0x8080;
    bus.regs.istr = 0x8000;
    assert_eq!(bus.poll(), PollResult::Data { ep_out: 0, ep_in_complete: 0, ep_setup: 0 });
    assert_eq!(bus.regs.ep[5].bits, 0x8080);
}

#[test]
fn suspend_and_resume_control_bits() {
    let mut bus = running();
    bus.suspend();
    assert_eq!(bus.regs.cntr, 0x000c);
    bus.resume();
    assert_eq!(bus.regs.cntr, 0);
}

#[test]
fn force_reset_needs_configuration() {
    let mut bus = running();
    assert_eq!(bus.force_reset(), Err(UsbError::Unsupported));
    bus.enable_reset(72_000_000);
    let cntr = bus.regs.cntr;
    assert_eq!(bus.force_reset(), Ok(()));
    assert_eq!(bus.regs.cntr, cntr);
    let line = bus.reset.unwrap();
    assert!(line.driven_low);
    assert_eq!(line.delay, 72_000_000);
    assert_eq!(bus.endpoint(1).ep_type, Some(EndpointType::Bulk));
}
