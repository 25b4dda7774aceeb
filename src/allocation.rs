//! Endpoint allocation rules: which slot an endpoint goes to, what buffer
//! it gets, and what the endpoint table looks like afterwards.
use vstd::prelude::*;
use crate::usb::{EndpointDirection, EndpointType, UsbError};
use crate::regs::{NUM_ENDPOINTS, rx_rounded, rx_count_bits};
use crate::pma::{BufferDescriptor, EP_MEM_SIZE, word_rounded};

verus! {

/// What the driver knows of one endpoint slot.
#[derive(Clone, Copy, Debug, PartialEq, Eq, Structural)]
pub struct EndpointRecord {
    pub ep_type: Option<EndpointType>,
    pub out_valid: bool,
    pub in_valid: bool,
}

/// Whether direction `d` of the slot is taken.
pub open spec fn claimed(r: EndpointRecord, d: EndpointDirection) -> bool {
    match d {
        EndpointDirection::Out => r.out_valid,
        EndpointDirection::In => r.in_valid,
    }
}

/// Whether the slot can take an endpoint of direction `d` and type `t`:
/// its type is unset or equal to `t`, and that direction is free.
pub open spec fn accepts(r: EndpointRecord, d: EndpointDirection, t: EndpointType) -> bool {
    (r.ep_type is None || r.ep_type == Some(t)) && !claimed(r, d)
}

/// The first slot from `i` on that accepts the endpoint, or the slot count.
pub open spec fn first_accepting(
    eps: Seq<EndpointRecord>,
    d: EndpointDirection,
    t: EndpointType,
    i: int,
) -> int
    decreases NUM_ENDPOINTS - i,
{
    if i >= NUM_ENDPOINTS {
        NUM_ENDPOINTS as int
    } else if accepts(eps[i], d, t) {
        i
    } else {
        first_accepting(eps, d, t, i + 1)
    }
}

/// The slot an allocation goes to: the requested one (its index is the
/// address without the direction bit), else the first from 1 on that accepts.
pub open spec fn target_slot(
    eps: Seq<EndpointRecord>,
    d: EndpointDirection,
    addr: Option<u8>,
    t: EndpointType,
) -> Result<int, UsbError> {
    match addr {
        Some(a) => {
            let i = (a & 0x7f) as int;
            if i >= NUM_ENDPOINTS {
                Err(UsbError::EndpointOverflow)
            } else if accepts(eps[i], d, t) {
                Ok(i)
            } else {
                Err(UsbError::EndpointTaken)
            }
        },
        None => {
            let i = first_accepting(eps, d, t, 1);
            if i >= NUM_ENDPOINTS {
                Err(UsbError::EndpointOverflow)
            } else {
                Ok(i)
            }
        },
    }
}

/// Bytes of packet memory an endpoint takes: the encoded receive size for
/// OUT (none beyond the encoding's range), the word-rounded size for IN.
pub open spec fn buffer_request(d: EndpointDirection, max_packet_size: u16) -> Option<nat> {
    match d {
        EndpointDirection::Out => if max_packet_size <= 1024 {
            Some(rx_rounded(max_packet_size as nat))
        } else {
            None
        },
        EndpointDirection::In => Some(word_rounded(max_packet_size as nat)),
    }
}

/// The result of an allocation from the endpoint table `eps` with the free
/// region starting at `free`.
pub open spec fn alloc_result(
    eps: Seq<EndpointRecord>,
    free: nat,
    d: EndpointDirection,
    addr: Option<u8>,
    t: EndpointType,
    max_packet_size: u16,
) -> Result<u8, UsbError> {
    match target_slot(eps, d, addr, t) {
        Err(e) => Err(e),
        Ok(i) => match buffer_request(d, max_packet_size) {
            None => Err(UsbError::EndpointOverflow),
            Some(n) => if free + n <= EP_MEM_SIZE {
                Ok((i as u8) | d.spec_addr_bit())
            } else {
                Err(UsbError::EndpointOverflow)
            },
        },
    }
}

/// The endpoint table after an allocation: the chosen slot gets the type,
/// and the direction when the buffer could be had.
pub open spec fn alloc_records(
    eps: Seq<EndpointRecord>,
    free: nat,
    d: EndpointDirection,
    addr: Option<u8>,
    t: EndpointType,
    max_packet_size: u16,
) -> Seq<EndpointRecord> {
    match target_slot(eps, d, addr, t) {
        Err(_) => eps,
        Ok(i) => {
            let ok = alloc_result(eps, free, d, addr, t, max_packet_size) is Ok;
            eps.update(
                i,
                EndpointRecord {
                    ep_type: Some(t),
                    out_valid: eps[i].out_valid || (ok && d == EndpointDirection::Out),
                    in_valid: eps[i].in_valid || (ok && d == EndpointDirection::In),
                },
            )
        },
    }
}

/// Start of the free region after an allocation.
pub open spec fn alloc_free(
    eps: Seq<EndpointRecord>,
    free: nat,
    d: EndpointDirection,
    addr: Option<u8>,
    t: EndpointType,
    max_packet_size: u16,
) -> nat {
    if alloc_result(eps, free, d, addr, t, max_packet_size) is Ok {
        free + buffer_request(d, max_packet_size).unwrap()
    } else {
        free
    }
}

/// The descriptor of a slot after direction `d` was claimed on it with its
/// buffer at offset `free`.
pub open spec fn claimed_descriptor(
    bd: BufferDescriptor,
    d: EndpointDirection,
    free: nat,
    max_packet_size: u16,
) -> BufferDescriptor {
    match d {
        EndpointDirection::Out => BufferDescriptor {
            addr_rx: free as u16,
            count_rx: rx_count_bits(max_packet_size as nat),
            ..bd
        },
        EndpointDirection::In => BufferDescriptor { addr_tx: free as u16, count_tx: 0, ..bd },
    }
}

/// One allocation request: direction, requested address, type, size.
pub struct AllocRequest {
    pub dir: EndpointDirection,
    pub addr: Option<u8>,
    pub ep_type: EndpointType,
    pub max_packet_size: u16,
}

/// The results of the allocation requests `reqs`, made in order from the
/// endpoint table `eps` with the free region starting at `free`.
pub open spec fn replay(eps: Seq<EndpointRecord>, free: nat, reqs: Seq<AllocRequest>) -> Seq<
    Result<u8, UsbError>,
>
    decreases reqs.len(),
{
    if reqs.len() == 0 {
        Seq::empty()
    } else {
        let q = reqs[0];
        let r = alloc_result(eps, free, q.dir, q.addr, q.ep_type, q.max_packet_size);
        let eps2 = alloc_records(eps, free, q.dir, q.addr, q.ep_type, q.max_packet_size);
        let free2 = alloc_free(eps, free, q.dir, q.addr, q.ep_type, q.max_packet_size);
        seq![r] + replay(eps2, free2, reqs.drop_first())
    }
}

proof fn lemma_no_slot_accepts(eps: Seq<EndpointRecord>, d: EndpointDirection, t: EndpointType, i: int)
    requires
        1 <= i,
        forall|j: int| i <= j < NUM_ENDPOINTS ==> !accepts(#[trigger] eps[j], d, t),
    ensures
        first_accepting(eps, d, t, i) == NUM_ENDPOINTS,
    decreases NUM_ENDPOINTS - i,
{
    if i < NUM_ENDPOINTS {
        lemma_no_slot_accepts(eps, d, t, i + 1);
    }
}

/// Once every slot from 1 on holds an endpoint of a type other than `t`, an
/// allocation of type `t` without a fixed address fails with
/// `EndpointOverflow`, whatever its direction and size.
pub proof fn lemma_alloc_overflow(
    eps: Seq<EndpointRecord>,
    free: nat,
    d: EndpointDirection,
    t: EndpointType,
    max_packet_size: u16,
)
    requires
        eps.len() == NUM_ENDPOINTS,
        forall|j: int|
            1 <= j < NUM_ENDPOINTS ==> (#[trigger] eps[j]).ep_type is Some && eps[j].ep_type != Some(
                t,
            ),
    ensures
        alloc_result(eps, free, d, None, t, max_packet_size) == Err::<u8, UsbError>(
            UsbError::EndpointOverflow,
        ),
{
    lemma_no_slot_accepts(eps, d, t, 1);
}

} // verus!
