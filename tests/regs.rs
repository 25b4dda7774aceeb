use stm32f103xx_usb::regs::{encode_receive_size, EndpointStatus, EpReg};
use stm32f103xx_usb::usb::{EndpointType, UsbError};
use stm32f103xx_usb::utils::SyncWrapper;

#[test]
fn receive_size_fine_encoding() {
    assert_eq!(encode_receive_size(0), Ok((0, 0)));
    assert_eq!(encode_receive_size(1), Ok((2, 0x0400)));
    assert_eq!(encode_receive_size(8), Ok((8, 0x1000)));
    assert_eq!(encode_receive_size(62), Ok((62, 0x7c00)));
}

#[test]
fn receive_size_coarse_encoding() {
    assert_eq!(encode_receive_size(63), Ok((64, 0x8400)));
    assert_eq!(encode_receive_size(64), Ok((64, 0x8400)));
    assert_eq!(encode_receive_size(65), Ok((96, 0x8800)));
    assert_eq!(encode_receive_size(1024), Ok((1024, 0xfc00)));
}

#[test]
fn receive_size_beyond_range() {
    assert_eq!(encode_receive_size(1025), Err(UsbError::EndpointOverflow));
}

#[test]
fn receive_size_decodes_to_at_least_requested() {
    for size in 0..=1024usize {
        let (rounded, bits) = encode_receive_size(size).unwrap();
        assert!(rounded >= size);
        let blocks = ((bits >> 10) & 0x1f) as usize;
        let cap = if bits & 0x8000 == 0 { blocks * 2 } else { (blocks + 1) * 32 };
        assert_eq!(cap, rounded);
    }
}

#[test]
fn register_write_kinds() {
    let mut r = EpReg { bits: 0x8080 | 0x0800 | 0x3030 };
    r.write(0x8080 | 0x1010 | 0x0203);
    assert_eq!(r.bits, 0x8080 | 0x0800 | 0x2020 | 0x0203);
    r.write(0x0000);
    assert_eq!(r.bits, 0x0800 | 0x2020);
}

#[test]
fn register_status_transitions() {
    let mut r = EpReg::new();
    r.configure(EndpointType::Interrupt, 3);
    assert_eq!(r.read(), 0x0603);
    r.set_stat_rx(EndpointStatus::Valid);
    r.set_stat_tx(EndpointStatus::Nak);
    assert_eq!(r.read(), 0x3623);
    r.set_stat_tx(EndpointStatus::Stall);
    assert_eq!(r.read(), 0x3613);
    r.bits |= 0x8080;
    r.clear_ctr_tx();
    assert_eq!(r.read(), 0xb613);
    r.clear_ctr_rx();
    assert_eq!(r.read(), 0x3613);
}

#[test]
fn status_bits_round_trip() {
    for s in [EndpointStatus::Disabled, EndpointStatus::Stall, EndpointStatus::Nak, EndpointStatus::Valid] {
        assert_eq!(EndpointStatus::from_bits(s.bits()), s);
    }
}

#[test]
fn sync_wrapper_gives_access() {
    let mut w = SyncWrapper::new(5u32);
    assert_eq!(*w, 5);
    *w += 1;
    assert_eq!(*w, 6);
}
