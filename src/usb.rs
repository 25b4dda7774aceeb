//! The vocabulary shared with the USB stack above the driver: directions,
//! transfer types, errors and poll events.
use vstd::prelude::*;

verus! {

/// Direction of an endpoint, as seen from the host.
#[derive(Clone, Copy, Debug, PartialEq, Eq, Structural)]
pub enum EndpointDirection {
    Out,
    In,
}

impl EndpointDirection {
    /// The direction bit of an endpoint address (bit 7).
    pub open spec fn spec_addr_bit(self) -> u8 {
        match self {
            EndpointDirection::Out => 0x00,
            EndpointDirection::In => 0x80,
        }
    }

    pub fn addr_bit(self) -> (r: u8)
        ensures
            r == self.spec_addr_bit(),
    {
        match self {
            EndpointDirection::Out => 0x00,
            EndpointDirection::In => 0x80,
        }
    }
}

/// Transfer type of an endpoint.
#[derive(Clone, Copy, Debug, PartialEq, Eq, Structural)]
pub enum EndpointType {
    Control,
    Isochronous,
    Bulk,
    Interrupt,
}

impl EndpointType {
    /// The two-bit code of the type in an endpoint register.
    pub open spec fn spec_bits(self) -> u16 {
        match self {
            EndpointType::Bulk => 0,
            EndpointType::Control => 1,
            EndpointType::Isochronous => 2,
            EndpointType::Interrupt => 3,
        }
    }

    pub fn bits(self) -> (r: u16)
        ensures
            r == self.spec_bits(),
            r < 4,
    {
        match self {
            EndpointType::Bulk => 0,
            EndpointType::Control => 1,
            EndpointType::Isochronous => 2,
            EndpointType::Interrupt => 3,
        }
    }
}

/// Errors that the driver reports to the stack.
#[derive(Clone, Copy, Debug, PartialEq, Eq, Structural)]
pub enum UsbError {
    /// A fixed endpoint address was asked for and that slot cannot take it.
    EndpointTaken,
    /// No slot is free, or the packet memory or the size encoding is exhausted.
    EndpointOverflow,
    /// Malformed address, index out of range, or a disabled endpoint.
    InvalidEndpoint,
    /// A transmission is still pending on the endpoint.
    Busy,
    /// No received packet is waiting.
    NoData,
    /// The caller's buffer is shorter than the received packet.
    BufferOverflow,
    /// Forced reset was asked for but never configured.
    Unsupported,
}

/// One event decoded from the interrupt status.
#[derive(Clone, Copy, Debug, PartialEq, Eq, Structural)]
pub enum PollResult {
    /// No event is pending.
    Idle,
    Reset,
    /// Bit `i` of each mask stands for endpoint slot `i`.
    Data { ep_out: u16, ep_in_complete: u16, ep_setup: u16 },
    Suspend,
    Resume,
}

} // verus!
