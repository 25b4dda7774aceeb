//! The peripheral driver: endpoint allocation, device state changes, event
//! polling and packet transfer, over the register block and packet memory.
use vstd::prelude::*;
use crate::usb::{EndpointDirection, EndpointType, UsbError, PollResult};
use crate::regs::{
    NUM_ENDPOINTS, EndpointStatus, UsbRegisters, EpReg, encode_receive_size, with_config,
    with_stat_rx, with_stat_tx, CNTR_FRES, CNTR_PDWN, CNTR_LPMODE, CNTR_FSUSP, DADDR_EF,
    istr_write, stat_rx_of, stat_tx_of, lemma_with_stat_rx, lemma_with_stat_tx, ctr_rx_of,
    ctr_tx_of, setup_of, EP_CTR_RX, EP_CTR_TX, EP_SETUP, ISTR_CTR, ISTR_WKUP, ISTR_SUSP,
    ISTR_RESET,
};
use crate::pma::{PacketMemory, BufferDescriptor, EP_MEM_SIZE, BTABLE_SIZE};
use crate::allocation::{
    EndpointRecord, AllocRequest, accepts, first_accepting, target_slot, buffer_request,
    alloc_result, alloc_records, alloc_free, claimed_descriptor, replay,
};
use crate::event::{bit_set, status_event, reports_transfers, decode_wakeup, lemma_set_bit};

verus! {

/// The output line used to force a reset, and how long to hold it.
#[derive(Clone, Copy, Debug, PartialEq, Eq, Structural)]
pub struct ResetLine {
    /// Busy-wait length in processor cycles.
    pub delay: u32,
    /// Whether the line is currently driven low.
    pub driven_low: bool,
}

/// Whether either direction of the slot is allocated.
pub open spec fn allocated(r: EndpointRecord) -> bool {
    r.out_valid || r.in_valid
}

/// The highest index below `n` of an allocated slot, or 0 if there is none.
pub open spec fn highest_allocated(eps: Seq<EndpointRecord>, n: int) -> int
    decreases n,
{
    if n <= 0 {
        0
    } else if allocated(eps[n - 1]) {
        n - 1
    } else {
        highest_allocated(eps, n - 1)
    }
}

/// The register of slot `i` after a bus reset reprograms it from record `r`:
/// a typed slot gets its type and address, receive status Valid if OUT is
/// allocated and transmit status Nak if IN is; an untyped slot is untouched.
pub open spec fn after_bus_reset(v: u16, r: EndpointRecord, i: int) -> u16 {
    match r.ep_type {
        None => v,
        Some(t) => {
            let c = with_config(v, t, i as u8);
            let c2 = if r.out_valid {
                with_stat_rx(c, EndpointStatus::Valid)
            } else {
                c
            };
            if r.in_valid {
                with_stat_tx(c2, EndpointStatus::Nak)
            } else {
                c2
            }
        },
    }
}

/// A bus reset is idempotent: reprogramming a slot a second time from the
/// same record leaves its register as the first time did.
pub proof fn lemma_bus_reset_idempotent(v: u16, r: EndpointRecord, i: int)
    ensures
        after_bus_reset(after_bus_reset(v, r, i), r, i) == after_bus_reset(v, r, i),
{
    if let Some(t) = r.ep_type {
        let tb = t.spec_bits();
        let e = i as u8;
        assert(tb < 4);
        if r.out_valid && r.in_valid {
            assert((((((((((v & 0xf8f0) | (tb << 9u16) | ((e as u16) & 0xf)) & !0x3000u16) | (3u16
                << 12u16)) & !0x0030u16) | (2u16 << 4u16)) & 0xf8f0) | (tb << 9u16) | ((e as u16)
                & 0xf)) & !0x3000u16 | (3u16 << 12u16)) & !0x0030u16 | (2u16 << 4u16) == (((((v
                & 0xf8f0) | (tb << 9u16) | ((e as u16) & 0xf)) & !0x3000u16) | (3u16 << 12u16))
                & !0x0030u16) | (2u16 << 4u16)) by (bit_vector);
        } else if r.out_valid {
            assert(((((((v & 0xf8f0) | (tb << 9u16) | ((e as u16) & 0xf)) & !0x3000u16) | (3u16
                << 12u16)) & 0xf8f0) | (tb << 9u16) | ((e as u16) & 0xf)) & !0x3000u16 | (3u16
                << 12u16) == (((v & 0xf8f0) | (tb << 9u16) | ((e as u16) & 0xf)) & !0x3000u16) | (
            3u16 << 12u16)) by (bit_vector);
        } else if r.in_valid {
            assert(((((((v & 0xf8f0) | (tb << 9u16) | ((e as u16) & 0xf)) & !0x0030u16) | (2u16
                << 4u16)) & 0xf8f0) | (tb << 9u16) | ((e as u16) & 0xf)) & !0x0030u16 | (2u16
                << 4u16) == (((v & 0xf8f0) | (tb << 9u16) | ((e as u16) & 0xf)) & !0x0030u16) | (
            2u16 << 4u16)) by (bit_vector);
        } else {
            assert(((((v & 0xf8f0) | (tb << 9u16) | ((e as u16) & 0xf)) & 0xf8f0) | (tb << 9u16)
                | ((e as u16) & 0xf)) == ((v & 0xf8f0) | (tb << 9u16) | ((e as u16) & 0xf)))
                by (bit_vector);
        }
    }
}

/// The transmit side after `unstall`: Stall becomes Nak, any other status stays.
pub open spec fn unstalled_tx(v: u16) -> u16 {
    if stat_tx_of(v) == EndpointStatus::Stall {
        with_stat_tx(v, EndpointStatus::Nak)
    } else {
        v
    }
}

/// The receive side after `unstall`: Stall becomes Valid, any other status stays.
pub open spec fn unstalled_rx(v: u16) -> u16 {
    if stat_rx_of(v) == EndpointStatus::Stall {
        with_stat_rx(v, EndpointStatus::Valid)
    } else {
        v
    }
}

/// Stalling and then unstalling an endpoint leaves it in its ready status,
/// Nak for IN and Valid for OUT, with every other bit as before; an
/// endpoint that was ready comes back exactly as it was. Unstalling an
/// endpoint that is not stalled changes nothing.
pub proof fn lemma_stall_unstall(v: u16)
    ensures
        unstalled_tx(with_stat_tx(v, EndpointStatus::Stall)) == with_stat_tx(v, EndpointStatus::Nak),
        unstalled_rx(with_stat_rx(v, EndpointStatus::Stall)) == with_stat_rx(
            v,
            EndpointStatus::Valid,
        ),
        stat_tx_of(v) == EndpointStatus::Nak ==> unstalled_tx(with_stat_tx(v, EndpointStatus::Stall))
            == v,
        stat_rx_of(v) == EndpointStatus::Valid ==> unstalled_rx(
            with_stat_rx(v, EndpointStatus::Stall),
        ) == v,
        stat_tx_of(v) != EndpointStatus::Stall ==> unstalled_tx(v) == v,
        stat_rx_of(v) != EndpointStatus::Stall ==> unstalled_rx(v) == v,
{
    lemma_with_stat_tx(v, EndpointStatus::Stall, EndpointStatus::Nak);
    lemma_with_stat_tx(v, EndpointStatus::Nak, EndpointStatus::Nak);
    lemma_with_stat_rx(v, EndpointStatus::Stall, EndpointStatus::Valid);
    lemma_with_stat_rx(v, EndpointStatus::Valid, EndpointStatus::Valid);
}

/// Whether two register blocks agree on everything but the endpoint registers.
pub open spec fn same_common_regs(a: UsbRegisters, b: UsbRegisters) -> bool {
    &&& a.cntr == b.cntr
    &&& a.istr == b.istr
    &&& a.fnr == b.fnr
    &&& a.daddr == b.daddr
    &&& a.btable == b.btable
    &&& a.ep@.len() == b.ep@.len()
}

/// USB peripheral driver for STM32F103 microcontrollers.
pub struct UsbBus {
    /// The peripheral's registers, owned by the driver.
    pub regs: UsbRegisters,
    /// The peripheral's packet memory.
    pub packet_mem: PacketMemory,
    /// Highest slot index that `poll` scans, fixed by `enable`.
    pub max_endpoint: usize,
    /// The endpoint table, one record per slot.
    pub endpoints: Vec<EndpointRecord>,
    /// The forced-reset line, if one was configured.
    pub reset: Option<ResetLine>,
}

impl UsbBus {
    /// The endpoint table.
    pub open spec fn records(&self) -> Seq<EndpointRecord> {
        self.endpoints@
    }

    /// Highest slot index that `poll` scans.
    pub open spec fn scan_limit(&self) -> nat {
        self.max_endpoint as nat
    }

    /// The forced-reset line, if one was configured.
    pub open spec fn reset_line(&self) -> Option<ResetLine> {
        self.reset
    }

    pub open spec fn wf(&self) -> bool {
        &&& self.regs.wf()
        &&& self.packet_mem.wf()
        &&& self.records().len() == NUM_ENDPOINTS
        &&& self.scan_limit() < NUM_ENDPOINTS
        &&& forall|i: int|
            0 <= i < NUM_ENDPOINTS && (#[trigger] self.records()[i]).ep_type is None ==> !self.records()[i].out_valid
                && !self.records()[i].in_valid
    }

    /// Constructs the driver around a clock-enabled register block, with an
    /// empty endpoint table and nothing allocated in packet memory.
    pub fn usb(regs: UsbRegisters) -> (r: UsbBus)
        requires
            regs.wf(),
        ensures
            r.wf(),
            r.regs == regs,
            r.packet_mem.free_offset() == BTABLE_SIZE,
            r.scan_limit() == 0,
            r.reset_line() is None,
            forall|i: int|
                0 <= i < NUM_ENDPOINTS ==> #[trigger] r.records()[i] == (EndpointRecord {
                    ep_type: None,
                    out_valid: false,
                    in_valid: false,
                }),
    {
        let mut endpoints: Vec<EndpointRecord> = Vec::new();
        while endpoints.len() < NUM_ENDPOINTS
            invariant
                endpoints@.len() <= NUM_ENDPOINTS,
                forall|i: int|
                    0 <= i < endpoints@.len() ==> #[trigger] endpoints@[i] == (EndpointRecord {
                        ep_type: None,
                        out_valid: false,
                        in_valid: false,
                    }),
            decreases NUM_ENDPOINTS - endpoints@.len(),
        {
            endpoints.push(EndpointRecord { ep_type: None, out_valid: false, in_valid: false });
        }
        UsbBus { regs, packet_mem: PacketMemory::new(), max_endpoint: 0, endpoints, reset: None }
    }

    /// Configures forced reset: the line is held for `sysclk_hz` cycles,
    /// one second at that clock.
    pub fn enable_reset(&mut self, sysclk_hz: u32)
        requires
            old(self).wf(),
        ensures
            final(self).wf(),
            final(self).reset_line() == Some(ResetLine { delay: sysclk_hz, driven_low: false }),
            final(self).regs == old(self).regs,
            final(self).packet_mem == old(self).packet_mem,
            final(self).records() == old(self).records(),
            final(self).scan_limit() == old(self).scan_limit(),
    {
        self.reset = Some(ResetLine { delay: sysclk_hz, driven_low: false });
    }

    /// The endpoint table's record of slot `i`.
    pub fn endpoint(&self, i: usize) -> (r: EndpointRecord)
        requires
            self.wf(),
            i < NUM_ENDPOINTS,
        ensures
            r == self.records()[i as int],
    {
        self.endpoints[i]
    }

    fn slot_accepts(&self, i: usize, d: EndpointDirection, t: EndpointType) -> (r: bool)
        requires
            self.wf(),
            i < NUM_ENDPOINTS,
        ensures
            r == accepts(self.records()[i as int], d, t),
    {
        let ep = self.endpoints[i];
        let type_fits = match ep.ep_type {
            None => true,
            Some(et) => et == t,
        };
        let taken = match d {
            EndpointDirection::Out => ep.out_valid,
            EndpointDirection::In => ep.in_valid,
        };
        type_fits && !taken
    }

    /// Gives slot `i` the type `t` and claims direction `d` on it with a
    /// buffer of its own in packet memory.
    fn claim(&mut self, i: usize, d: EndpointDirection, t: EndpointType, max_packet_size: u16) -> (r:
        Result<u8, UsbError>)
        requires
            old(self).wf(),
            i < NUM_ENDPOINTS,
            accepts(old(self).records()[i as int], d, t),
        ensures
            final(self).wf(),
            final(self).regs == old(self).regs,
            final(self).scan_limit() == old(self).scan_limit(),
            final(self).reset_line() == old(self).reset_line(),
            r == (match buffer_request(d, max_packet_size) {
                None => Err(UsbError::EndpointOverflow),
                Some(n) => if old(self).packet_mem.free_offset() + n <= EP_MEM_SIZE {
                    Ok((i as u8) | d.spec_addr_bit())
                } else {
                    Err(UsbError::EndpointOverflow)
                },
            }),
            final(self).records() == old(self).records().update(
                i as int,
                EndpointRecord {
                    ep_type: Some(t),
                    out_valid: old(self).records()[i as int].out_valid || (r is Ok && d
                        == EndpointDirection::Out),
                    in_valid: old(self).records()[i as int].in_valid || (r is Ok && d
                        == EndpointDirection::In),
                },
            ),
            r is Ok ==> final(self).packet_mem.free_offset() == old(self).packet_mem.free_offset()
                + buffer_request(d, max_packet_size).unwrap(),
            r is Err ==> final(self).packet_mem == old(self).packet_mem,
            r is Ok ==> final(self).packet_mem.spec_descriptor(i as int) == claimed_descriptor(
                old(self).packet_mem.spec_descriptor(i as int),
                d,
                old(self).packet_mem.free_offset(),
                max_packet_size,
            ),
            forall|j: int|
                0 <= j < 256 && !(4 * i <= j < 4 * i + 4)
                    ==> #[trigger] final(self).packet_mem.words()[j] == old(self).packet_mem.words()[j],
    {
        let ep = self.endpoints[i];
        self.endpoints.set(i, EndpointRecord { ep_type: Some(t), ..ep });
        let res = match d {
            EndpointDirection::Out => {
                match encode_receive_size(max_packet_size as usize) {
                    Err(e) => Err(e),
                    Ok((size, bits)) => match self.packet_mem.allocate(size) {
                        Err(e) => Err(e),
                        Ok(addr_rx) => {
                            let bd = self.packet_mem.descriptor(i);
                            self.packet_mem.set_descriptor(
                                i,
                                BufferDescriptor { addr_rx: addr_rx as u16, count_rx: bits, ..bd },
                            );
                            self.endpoints.set(
                                i,
                                EndpointRecord { ep_type: Some(t), out_valid: true, ..ep },
                            );
                            Ok((i as u8) | d.addr_bit())
                        },
                    },
                }
            },
            EndpointDirection::In => {
                match self.packet_mem.allocate(max_packet_size as usize) {
                    Err(e) => Err(e),
                    Ok(addr_tx) => {
                        let bd = self.packet_mem.descriptor(i);
                        self.packet_mem.set_descriptor(
                            i,
                            BufferDescriptor { addr_tx: addr_tx as u16, count_tx: 0, ..bd },
                        );
                        self.endpoints.set(
                            i,
                            EndpointRecord { ep_type: Some(t), in_valid: true, ..ep },
                        );
                        Ok((i as u8) | d.addr_bit())
                    },
                }
            },
        };
        res
    }
    /// Allocates an endpoint of direction `ep_dir` and type `ep_type` with a
    /// buffer for `max_packet_size` bytes, at the slot that `ep_addr` names or
    /// else at the first slot from 1 on that can take it, and returns its
    /// address (slot index with the direction bit).
    pub fn alloc_ep(
        &mut self,
        ep_dir: EndpointDirection,
        ep_addr: Option<u8>,
        ep_type: EndpointType,
        max_packet_size: u16,
        _interval: u8,
    ) -> (r: Result<u8, UsbError>)
        requires
            old(self).wf(),
        ensures
            final(self).wf(),
            r == alloc_result(
                old(self).records(),
                old(self).packet_mem.free_offset(),
                ep_dir,
                ep_addr,
                ep_type,
                max_packet_size,
            ),
            final(self).records() == alloc_records(
                old(self).records(),
                old(self).packet_mem.free_offset(),
                ep_dir,
                ep_addr,
                ep_type,
                max_packet_size,
            ),
            final(self).packet_mem.free_offset() == alloc_free(
                old(self).records(),
                old(self).packet_mem.free_offset(),
                ep_dir,
                ep_addr,
                ep_type,
                max_packet_size,
            ),
            final(self).regs == old(self).regs,
            final(self).scan_limit() == old(self).scan_limit(),
            final(self).reset_line() == old(self).reset_line(),
            r is Err ==> final(self).packet_mem == old(self).packet_mem,
            r is Ok ==> ({
                let i = target_slot(old(self).records(), ep_dir, ep_addr, ep_type)->Ok_0;
                &&& final(self).packet_mem.spec_descriptor(i) == claimed_descriptor(
                    old(self).packet_mem.spec_descriptor(i),
                    ep_dir,
                    old(self).packet_mem.free_offset(),
                    max_packet_size,
                )
                &&& forall|j: int|
                    0 <= j < 256 && !(4 * i <= j < 4 * i + 4)
                        ==> #[trigger] final(self).packet_mem.words()[j] == old(self).packet_mem.words()[j]
            }),
    {
        match ep_addr {
            Some(a) => {
                let i = (a & 0x7f) as usize;
                if i >= NUM_ENDPOINTS {
                    return Err(UsbError::EndpointOverflow);
                }
                if !self.slot_accepts(i, ep_dir, ep_type) {
                    return Err(UsbError::EndpointTaken);
                }
                self.claim(i, ep_dir, ep_type, max_packet_size)
            },
            None => {
                let mut i: usize = 1;
                while i < NUM_ENDPOINTS && !self.slot_accepts(i, ep_dir, ep_type)
                    invariant
                        self.wf(),
                        *self == *old(self),
                        1 <= i <= NUM_ENDPOINTS,
                        first_accepting(self.records(), ep_dir, ep_type, 1) == first_accepting(
                            self.records(),
                            ep_dir,
                            ep_type,
                            i as int,
                        ),
                    decreases NUM_ENDPOINTS - i,
                {
                    i = i + 1;
                }
                if i >= NUM_ENDPOINTS {
                    return Err(UsbError::EndpointOverflow);
                }
                self.claim(i, ep_dir, ep_type, max_packet_size)
            },
        }
    }

    /// Starts the peripheral: fixes the highest allocated slot as the limit of
    /// `poll`'s scan, leaves power-down, places the descriptor table at the
    /// base of packet memory, leaves forced reset and clears pending
    /// interrupt flags.
    pub fn enable(&mut self)
        requires
            old(self).wf(),
        ensures
            final(self).wf(),
            final(self).scan_limit() == highest_allocated(old(self).records(), NUM_ENDPOINTS as int),
            final(self).regs.cntr == (old(self).regs.cntr & !CNTR_PDWN) & !CNTR_FRES,
            final(self).regs.btable == 0,
            final(self).regs.istr == istr_write(old(self).regs.istr, 0),
            final(self).regs.fnr == old(self).regs.fnr,
            final(self).regs.daddr == old(self).regs.daddr,
            final(self).regs.ep == old(self).regs.ep,
            final(self).records() == old(self).records(),
            final(self).packet_mem == old(self).packet_mem,
            final(self).reset_line() == old(self).reset_line(),
    {
        let mut max: usize = 0;
        let mut index: usize = 0;
        while index < NUM_ENDPOINTS
            invariant
                self.wf(),
                index <= NUM_ENDPOINTS,
                max < NUM_ENDPOINTS,
                max == highest_allocated(self.records(), index as int),
            decreases NUM_ENDPOINTS - index,
        {
            let ep = self.endpoints[index];
            if ep.out_valid || ep.in_valid {
                max = index;
            }
            index = index + 1;
        }
        self.max_endpoint = max;
        self.regs.cntr = self.regs.cntr & !CNTR_PDWN;
        // The analog transceiver needs about 1 us to start up before the
        // peripheral is used; on the chip this is a busy-wait of 72 cycles.
        self.regs.btable = 0;
        self.regs.cntr = self.regs.cntr & !CNTR_FRES;
        self.regs.write_istr(0);
    }

    /// Handles a bus reset from the host: clears pending interrupt flags,
    /// reprograms every typed slot from its record and enables the device at
    /// address 0.
    pub fn reset(&mut self)
        requires
            old(self).wf(),
        ensures
            final(self).wf(),
            final(self).regs.istr == istr_write(old(self).regs.istr, 0),
            forall|i: int|
                0 <= i < NUM_ENDPOINTS ==> #[trigger] final(self).regs.ep_bits(i) == after_bus_reset(
                    old(self).regs.ep_bits(i),
                    old(self).records()[i],
                    i,
                ),
            final(self).regs.daddr == (old(self).regs.daddr & 0xff00) | DADDR_EF,
            final(self).regs.cntr == old(self).regs.cntr,
            final(self).regs.fnr == old(self).regs.fnr,
            final(self).regs.btable == old(self).regs.btable,
            final(self).records() == old(self).records(),
            final(self).scan_limit() == old(self).scan_limit(),
            final(self).packet_mem == old(self).packet_mem,
            final(self).reset_line() == old(self).reset_line(),
    {
        self.regs.write_istr(0);
        let mut index: usize = 0;
        while index < NUM_ENDPOINTS
            invariant
                self.wf(),
                index <= NUM_ENDPOINTS,
                self.regs.istr == istr_write(old(self).regs.istr, 0),
                self.regs.cntr == old(self).regs.cntr,
                self.regs.fnr == old(self).regs.fnr,
                self.regs.daddr == old(self).regs.daddr,
                self.regs.btable == old(self).regs.btable,
                self.endpoints == old(self).endpoints,
                self.max_endpoint == old(self).max_endpoint,
                self.packet_mem == old(self).packet_mem,
                self.reset == old(self).reset,
                forall|i: int|
                    0 <= i < index ==> #[trigger] self.regs.ep_bits(i) == after_bus_reset(
                        old(self).regs.ep_bits(i),
                        old(self).records()[i],
                        i,
                    ),
                forall|i: int|
                    index <= i < NUM_ENDPOINTS ==> #[trigger] self.regs.ep_bits(i) == old(self).regs.ep_bits(i),
            decreases NUM_ENDPOINTS - index,
        {
            let ep = self.endpoints[index];
            let ghost pre = self.regs;
            assert(ep == old(self).records()[index as int]);
            assert(self.regs.ep_bits(index as int) == old(self).regs.ep_bits(index as int));
            if let Some(ep_type) = ep.ep_type {
                let mut reg = EpReg { bits: self.regs.ep[index].bits };
                reg.configure(ep_type, index as u8);
                if ep.out_valid {
                    reg.set_stat_rx(EndpointStatus::Valid);
                }
                if ep.in_valid {
                    reg.set_stat_tx(EndpointStatus::Nak);
                }
                self.regs.ep.set(index, reg);
            }
            assert forall|i: int| 0 <= i < NUM_ENDPOINTS implies #[trigger] self.regs.ep_bits(i)
                == if i < index + 1 {
                after_bus_reset(old(self).regs.ep_bits(i), old(self).records()[i], i)
            } else {
                old(self).regs.ep_bits(i)
            } by {
                if i != index {
                    assert(self.regs.ep_bits(i) == pre.ep_bits(i));
                }
            }
            index = index + 1;
        }
        let ghost looped = self.regs;
        self.regs.daddr = (self.regs.daddr & 0xff00) | DADDR_EF;
        assert forall|i: int| 0 <= i < NUM_ENDPOINTS implies #[trigger] self.regs.ep_bits(i)
            == after_bus_reset(old(self).regs.ep_bits(i), old(self).records()[i], i) by {
            assert(self.regs.ep_bits(i) == looped.ep_bits(i));
        }
    }

    /// Writes the 7-bit device address; the function-enable bit is kept.
    pub fn set_device_address(&mut self, addr: u8)
        requires
            old(self).wf(),
        ensures
            final(self).wf(),
            final(self).regs.daddr == (old(self).regs.daddr & !0x007fu16) | ((addr as u16) & 0x7f),
            final(self).regs.cntr == old(self).regs.cntr,
            final(self).regs.istr == old(self).regs.istr,
            final(self).regs.fnr == old(self).regs.fnr,
            final(self).regs.btable == old(self).regs.btable,
            final(self).regs.ep == old(self).regs.ep,
            final(self).records() == old(self).records(),
            final(self).scan_limit() == old(self).scan_limit(),
            final(self).packet_mem == old(self).packet_mem,
            final(self).reset_line() == old(self).reset_line(),
    {
        self.regs.daddr = (self.regs.daddr & !0x007fu16) | ((addr as u16) & 0x7f);
    }

    /// Enters suspend: force-suspend and low-power mode are set.
    pub fn suspend(&mut self)
        requires
            old(self).wf(),
        ensures
            final(self).wf(),
            final(self).regs.cntr == old(self).regs.cntr | CNTR_FSUSP | CNTR_LPMODE,
            final(self).regs.istr == old(self).regs.istr,
            final(self).regs.fnr == old(self).regs.fnr,
            final(self).regs.daddr == old(self).regs.daddr,
            final(self).regs.btable == old(self).regs.btable,
            final(self).regs.ep == old(self).regs.ep,
            final(self).records() == old(self).records(),
            final(self).scan_limit() == old(self).scan_limit(),
            final(self).packet_mem == old(self).packet_mem,
            final(self).reset_line() == old(self).reset_line(),
    {
        self.regs.cntr = self.regs.cntr | CNTR_FSUSP | CNTR_LPMODE;
    }

    /// Leaves suspend: force-suspend and low-power mode are cleared.
    pub fn resume(&mut self)
        requires
            old(self).wf(),
        ensures
            final(self).wf(),
            final(self).regs.cntr == old(self).regs.cntr & !(CNTR_FSUSP | CNTR_LPMODE),
            final(self).regs.istr == old(self).regs.istr,
            final(self).regs.fnr == old(self).regs.fnr,
            final(self).regs.daddr == old(self).regs.daddr,
            final(self).regs.btable == old(self).regs.btable,
            final(self).regs.ep == old(self).regs.ep,
            final(self).records() == old(self).records(),
            final(self).scan_limit() == old(self).scan_limit(),
            final(self).packet_mem == old(self).packet_mem,
            final(self).reset_line() == old(self).reset_line(),
    {
        self.regs.cntr = self.regs.cntr & !(CNTR_FSUSP | CNTR_LPMODE);
    }

    /// Makes the host see a disconnect: powers the peripheral down, drives
    /// the reset line low for the configured delay and restores the
    /// power-down bit as it was. Fails with `Unsupported` when no reset line
    /// was configured.
    pub fn force_reset(&mut self) -> (r: Result<(), UsbError>)
        requires
            old(self).wf(),
        ensures
            final(self).wf(),
            old(self).reset_line() is None <==> r == Err::<(), UsbError>(UsbError::Unsupported),
            r is Ok <==> old(self).reset_line() is Some,
            r is Ok ==> final(self).reset_line() == Some(
                ResetLine { driven_low: true, ..old(self).reset_line().unwrap() },
            ),
            r is Err ==> final(self).reset_line() == old(self).reset_line(),
            final(self).regs.cntr == old(self).regs.cntr,
            final(self).regs.istr == old(self).regs.istr,
            final(self).regs.fnr == old(self).regs.fnr,
            final(self).regs.daddr == old(self).regs.daddr,
            final(self).regs.btable == old(self).regs.btable,
            final(self).regs.ep == old(self).regs.ep,
            final(self).records() == old(self).records(),
            final(self).scan_limit() == old(self).scan_limit(),
            final(self).packet_mem == old(self).packet_mem,
    {
        match self.reset {
            None => Err(UsbError::Unsupported),
            Some(line) => {
                let cntr = self.regs.cntr;
                let pdwn = cntr & CNTR_PDWN;
                self.regs.cntr = cntr | CNTR_PDWN;
                self.reset = Some(ResetLine { driven_low: true, ..line });
                // On the chip the line is now held low for `line.delay` cycles.
                self.regs.cntr = (self.regs.cntr & !CNTR_PDWN) | pdwn;
                assert(((cntr | 0x0002u16) & !0x0002u16) | (cntr & 0x0002u16) == cntr)
                    by (bit_vector);
                Ok(())
            },
        }
    }

    /// Whether `a` and `b` differ at most in the endpoint registers.
    pub open spec fn same_but_ep_regs(a: UsbBus, b: UsbBus) -> bool {
        &&& same_common_regs(a.regs, b.regs)
        &&& a.records() == b.records()
        &&& a.scan_limit() == b.scan_limit()
        &&& a.reset_line() == b.reset_line()
        &&& a.packet_mem == b.packet_mem
    }

    /// Forces the addressed direction of an endpoint to Stall. The index is
    /// the address without its direction bit.
    pub fn stall(&mut self, ep_addr: u8)
        requires
            old(self).wf(),
            (ep_addr & 0x7f) < NUM_ENDPOINTS,
        ensures
            final(self).wf(),
            Self::same_but_ep_regs(*final(self), *old(self)),
            forall|j: int|
                0 <= j < NUM_ENDPOINTS ==> #[trigger] final(self).regs.ep_bits(j) == if j == (ep_addr
                    & 0x7f) {
                    if ep_addr & 0x80 != 0 {
                        with_stat_tx(old(self).regs.ep_bits(j), EndpointStatus::Stall)
                    } else {
                        with_stat_rx(old(self).regs.ep_bits(j), EndpointStatus::Stall)
                    }
                } else {
                    old(self).regs.ep_bits(j)
                },
    {
        let i = (ep_addr & 0x7f) as usize;
        let mut reg = EpReg { bits: self.regs.ep[i].bits };
        if ep_addr & 0x80 != 0 {
            reg.set_stat_tx(EndpointStatus::Stall);
        } else {
            reg.set_stat_rx(EndpointStatus::Stall);
        }
        self.regs.ep.set(i, reg);
    }

    /// Takes the addressed direction of an endpoint out of Stall into its
    /// ready status, Nak for IN and Valid for OUT; does nothing to an
    /// endpoint that is not stalled.
    pub fn unstall(&mut self, ep_addr: u8)
        requires
            old(self).wf(),
            (ep_addr & 0x7f) < NUM_ENDPOINTS,
        ensures
            final(self).wf(),
            Self::same_but_ep_regs(*final(self), *old(self)),
            forall|j: int|
                0 <= j < NUM_ENDPOINTS ==> #[trigger] final(self).regs.ep_bits(j) == if j == (ep_addr
                    & 0x7f) {
                    if ep_addr & 0x80 != 0 {
                        unstalled_tx(old(self).regs.ep_bits(j))
                    } else {
                        unstalled_rx(old(self).regs.ep_bits(j))
                    }
                } else {
                    old(self).regs.ep_bits(j)
                },
    {
        let i = (ep_addr & 0x7f) as usize;
        let mut reg = EpReg { bits: self.regs.ep[i].bits };
        let v = reg.read();
        if ep_addr & 0x80 != 0 {
            if EndpointStatus::from_bits(v >> 4u16) == EndpointStatus::Stall {
                reg.set_stat_tx(EndpointStatus::Nak);
            }
        } else {
            if EndpointStatus::from_bits(v >> 12u16) == EndpointStatus::Stall {
                reg.set_stat_rx(EndpointStatus::Valid);
            }
        }
        self.regs.ep.set(i, reg);
    }

    /// The outcome of `write` to endpoint address `ep_addr` with `len` bytes.
    pub open spec fn write_result(&self, ep_addr: u8, len: nat) -> Result<usize, UsbError> {
        let i = (ep_addr & 0x7f) as int;
        if ep_addr & 0x80 == 0 || i >= NUM_ENDPOINTS {
            Err(UsbError::InvalidEndpoint)
        } else if stat_tx_of(self.regs.ep_bits(i)) == EndpointStatus::Valid {
            Err(UsbError::Busy)
        } else if stat_tx_of(self.regs.ep_bits(i)) == EndpointStatus::Disabled {
            Err(UsbError::InvalidEndpoint)
        } else {
            Ok(len as usize)
        }
    }

    /// The outcome of `read` from endpoint `ep` into a buffer of `len` bytes.
    pub open spec fn read_result(&self, ep: u8, len: nat) -> Result<usize, UsbError> {
        let i = ep as int;
        if ep & 0x80 != 0 || i >= NUM_ENDPOINTS {
            Err(UsbError::InvalidEndpoint)
        } else if stat_rx_of(self.regs.ep_bits(i)) == EndpointStatus::Disabled {
            Err(UsbError::InvalidEndpoint)
        } else if !ctr_rx_of(self.regs.ep_bits(i)) {
            Err(UsbError::NoData)
        } else if (self.packet_mem.spec_descriptor(i).count_rx & 0x3f) as nat > len {
            Err(UsbError::BufferOverflow)
        } else {
            Ok((self.packet_mem.spec_descriptor(i).count_rx & 0x3f) as usize)
        }
    }

    /// Queues `buf` for transmission on IN endpoint `ep_addr`: copies it to
    /// the slot's transmit buffer, records its length and arms the transfer
    /// by setting the transmit status to Valid. Fails with `InvalidEndpoint`
    /// for an OUT address, an index out of range or a disabled endpoint, and
    /// with `Busy` while the previous packet has not been sent.
    pub fn write(&mut self, ep_addr: u8, buf: &[u8]) -> (r: Result<usize, UsbError>)
        requires
            old(self).wf(),
            ep_addr & 0x80 != 0 && (ep_addr & 0x7f) < NUM_ENDPOINTS ==> ({
                let bd = old(self).packet_mem.spec_descriptor((ep_addr & 0x7f) as int);
                &&& BTABLE_SIZE <= bd.addr_tx
                &&& bd.addr_tx + buf@.len() <= EP_MEM_SIZE
            }),
        ensures
            final(self).wf(),
            r == old(self).write_result(ep_addr, buf@.len()),
            r is Err ==> *final(self) == *old(self),
            r is Ok ==> ({
                let i = (ep_addr & 0x7f) as int;
                let bd = old(self).packet_mem.spec_descriptor(i);
                &&& same_common_regs(final(self).regs, old(self).regs)
                &&& final(self).records() == old(self).records()
                &&& final(self).scan_limit() == old(self).scan_limit()
                &&& final(self).reset_line() == old(self).reset_line()
                &&& final(self).packet_mem.free_offset() == old(self).packet_mem.free_offset()
                &&& forall|j: int|
                    0 <= j < NUM_ENDPOINTS ==> #[trigger] final(self).regs.ep_bits(j) == if j == i {
                        with_stat_tx(old(self).regs.ep_bits(j), EndpointStatus::Valid)
                    } else {
                        old(self).regs.ep_bits(j)
                    }
                &&& final(self).packet_mem.spec_descriptor(i) == (BufferDescriptor {
                    count_tx: buf@.len() as u16,
                    ..bd
                })
                &&& forall|k: int|
                    0 <= k < buf@.len() ==> #[trigger] final(self).packet_mem.bytes()[bd.addr_tx + k]
                        == buf@[k]
                &&& forall|j: int|
                    0 <= j < 256 && j != 4 * i + 1 && (2 * j + 1 < bd.addr_tx || 2 * j >= bd.addr_tx
                        + buf@.len()) ==> #[trigger] final(self).packet_mem.words()[j] == old(self).packet_mem.words()[j]
            }),
    {
        if ep_addr & 0x80 == 0 {
            return Err(UsbError::InvalidEndpoint);
        }
        let i = (ep_addr & 0x7f) as usize;
        if i >= NUM_ENDPOINTS {
            return Err(UsbError::InvalidEndpoint);
        }
        let mut reg = EpReg { bits: self.regs.ep[i].bits };
        let status = EndpointStatus::from_bits(reg.read() >> 4u16);
        match status {
            EndpointStatus::Valid => {
                return Err(UsbError::Busy);
            },
            EndpointStatus::Disabled => {
                return Err(UsbError::InvalidEndpoint);
            },
            _ => {},
        }
        let bd = self.packet_mem.descriptor(i);
        self.packet_mem.write(bd.addr_tx as usize, buf);
        let ghost written = self.packet_mem;
        self.packet_mem.set_descriptor(i, BufferDescriptor { count_tx: buf.len() as u16, ..bd });
        proof {
            assert forall|k: int| 0 <= k < buf@.len() implies #[trigger] self.packet_mem.bytes()[
                bd.addr_tx + k] == buf@[k] by {
                let m = bd.addr_tx + k;
                assert(written.bytes()[m] == buf@[k]);
                assert(self.packet_mem.words()[m / 2] == written.words()[m / 2]);
            }
        }
        reg.set_stat_tx(EndpointStatus::Valid);
        self.regs.ep.set(i, reg);
        Ok(buf.len())
    }

    /// Takes the packet waiting on OUT endpoint `ep`: copies its bytes to the
    /// front of `buf`, clears the receive-complete flag and re-arms
    /// reception. Fails with `InvalidEndpoint` for an IN address, an index
    /// out of range or a disabled endpoint, with `NoData` when no packet is
    /// waiting, and with `BufferOverflow` when the packet is longer than
    /// `buf`. The count is the low six bits of the descriptor's count field.
    pub fn read(&mut self, ep: u8, buf: &mut [u8]) -> (r: Result<usize, UsbError>)
        requires
            old(self).wf(),
            ep & 0x80 == 0 && ep < NUM_ENDPOINTS ==> ({
                let bd = old(self).packet_mem.spec_descriptor(ep as int);
                bd.addr_rx + (bd.count_rx & 0x3f) <= EP_MEM_SIZE
            }),
        ensures
            final(self).wf(),
            r == old(self).read_result(ep, old(buf)@.len()),
            final(buf)@.len() == old(buf)@.len(),
            r is Err ==> *final(self) == *old(self) && final(buf)@ == old(buf)@,
            r is Ok ==> ({
                let i = ep as int;
                let n = r->Ok_0 as int;
                let bd = old(self).packet_mem.spec_descriptor(i);
                &&& same_common_regs(final(self).regs, old(self).regs)
                &&& final(self).records() == old(self).records()
                &&& final(self).scan_limit() == old(self).scan_limit()
                &&& final(self).reset_line() == old(self).reset_line()
                &&& final(self).packet_mem == old(self).packet_mem
                &&& forall|j: int|
                    0 <= j < NUM_ENDPOINTS ==> #[trigger] final(self).regs.ep_bits(j) == if j == i {
                        with_stat_rx(old(self).regs.ep_bits(j) & !EP_CTR_RX, EndpointStatus::Valid)
                    } else {
                        old(self).regs.ep_bits(j)
                    }
                &&& forall|k: int|
                    0 <= k < n ==> #[trigger] final(buf)@[k] == old(self).packet_mem.bytes()[bd.addr_rx
                        + k]
                &&& forall|k: int| n <= k < old(buf)@.len() ==> #[trigger] final(buf)@[k] == old(buf)@[k]
            }),
    {
        if ep & 0x80 != 0 || ep as usize >= NUM_ENDPOINTS {
            return Err(UsbError::InvalidEndpoint);
        }
        let i = ep as usize;
        let mut reg = EpReg { bits: self.regs.ep[i].bits };
        let v = reg.read();
        if EndpointStatus::from_bits(v >> 12u16) == EndpointStatus::Disabled {
            return Err(UsbError::InvalidEndpoint);
        }
        if v & EP_CTR_RX == 0 {
            return Err(UsbError::NoData);
        }
        let bd = self.packet_mem.descriptor(i);
        let count = (bd.count_rx & 0x3f) as usize;
        if count > buf.len() {
            return Err(UsbError::BufferOverflow);
        }
        self.packet_mem.read(bd.addr_rx as usize, count, buf);
        reg.clear_ctr_rx();
        reg.set_stat_rx(EndpointStatus::Valid);
        self.regs.ep.set(i, reg);
        Ok(count)
    }

    /// Decodes one pending event from the interrupt status and clears its
    /// flag. For completed transfers it scans the endpoint registers up to
    /// the limit fixed by `enable` and clears each transmit-complete flag it
    /// reports; receive-complete flags stay for `read`.
    pub fn poll(&mut self) -> (r: PollResult)
        requires
            old(self).wf(),
        ensures
            final(self).wf(),
            final(self).records() == old(self).records(),
            final(self).scan_limit() == old(self).scan_limit(),
            final(self).reset_line() == old(self).reset_line(),
            final(self).packet_mem == old(self).packet_mem,
            final(self).regs.cntr == old(self).regs.cntr,
            final(self).regs.fnr == old(self).regs.fnr,
            final(self).regs.daddr == old(self).regs.daddr,
            final(self).regs.btable == old(self).regs.btable,
            r == status_event(old(self).regs.istr, old(self).regs.fnr, r),
            old(self).regs.istr & ISTR_WKUP != 0 ==> final(self).regs.istr == istr_write(
                old(self).regs.istr,
                !ISTR_WKUP,
            ),
            old(self).regs.istr & ISTR_WKUP == 0 && old(self).regs.istr & ISTR_RESET != 0
                ==> final(self).regs.istr == istr_write(old(self).regs.istr, !ISTR_RESET),
            old(self).regs.istr & (ISTR_WKUP | ISTR_RESET) == 0 && old(self).regs.istr & ISTR_SUSP
                != 0 ==> final(self).regs.istr == istr_write(old(self).regs.istr, !ISTR_SUSP),
            old(self).regs.istr & (ISTR_WKUP | ISTR_RESET | ISTR_SUSP) == 0 ==> final(self).regs.istr == old(self).regs.istr,
            old(self).regs.istr & (ISTR_WKUP | ISTR_RESET | ISTR_SUSP) == 0 && old(self).regs.istr
                & ISTR_CTR != 0 ==> reports_transfers(
                old(self).regs,
                old(self).scan_limit() as int,
                r,
            ),
            forall|j: int|
                0 <= j < NUM_ENDPOINTS ==> #[trigger] final(self).regs.ep_bits(j) == if old(self).regs.istr & (ISTR_WKUP | ISTR_RESET | ISTR_SUSP) == 0 && old(self).regs.istr
                    & ISTR_CTR != 0 && j <= old(self).scan_limit() && ctr_tx_of(
                    old(self).regs.ep_bits(j),
                ) {
                    old(self).regs.ep_bits(j) & !EP_CTR_TX
                } else {
                    old(self).regs.ep_bits(j)
                },
    {
        let istr = self.regs.istr;
        assert(istr & (ISTR_WKUP | ISTR_RESET | ISTR_SUSP) == 0 <==> (istr & ISTR_WKUP == 0
            && istr & ISTR_RESET == 0 && istr & ISTR_SUSP == 0)) by (bit_vector);
        assert(istr & (ISTR_WKUP | ISTR_RESET) == 0 <==> (istr & ISTR_WKUP == 0 && istr
            & ISTR_RESET == 0)) by (bit_vector);
        if istr & ISTR_WKUP != 0 {
            self.regs.write_istr(!ISTR_WKUP);
            decode_wakeup(self.regs.fnr)
        } else if istr & ISTR_RESET != 0 {
            self.regs.write_istr(!ISTR_RESET);
            PollResult::Reset
        } else if istr & ISTR_SUSP != 0 {
            self.regs.write_istr(!ISTR_SUSP);
            PollResult::Suspend
        } else if istr & ISTR_CTR != 0 {
            let mut ep_out: u16 = 0;
            let mut ep_in_complete: u16 = 0;
            let mut ep_setup: u16 = 0;
            let max = self.max_endpoint;
            let mut i: usize = 0;
            proof {
                assert forall|j: int| 0 <= j < 16 implies !bit_set(0u16, j) by {
                    lemma_set_bit(0, 0, j as u16);
                }
            }
            while i <= max
                invariant
                    self.wf(),
                    max == old(self).max_endpoint,
                    max < NUM_ENDPOINTS,
                    i <= max + 1,
                    Self::same_but_ep_regs(*self, *old(self)),
                    forall|j: int|
                        0 <= j < 16 ==> {
                            &&& #[trigger] bit_set(ep_out, j) == (j < i && ctr_rx_of(
                                old(self).regs.ep_bits(j),
                            ))
                            &&& bit_set(ep_setup, j) == (j < i && ctr_rx_of(old(self).regs.ep_bits(j))
                                && setup_of(old(self).regs.ep_bits(j)))
                            &&& bit_set(ep_in_complete, j) == (j < i && ctr_tx_of(
                                old(self).regs.ep_bits(j),
                            ))
                        },
                    forall|j: int|
                        0 <= j < NUM_ENDPOINTS ==> #[trigger] self.regs.ep_bits(j) == if j < i
                            && ctr_tx_of(old(self).regs.ep_bits(j)) {
                            old(self).regs.ep_bits(j) & !EP_CTR_TX
                        } else {
                            old(self).regs.ep_bits(j)
                        },
                decreases max + 1 - i,
            {
                let ghost pre_regs = self.regs;
                let ghost out0 = ep_out;
                let ghost setup0 = ep_setup;
                let ghost in0 = ep_in_complete;
                let bit: u16 = 1u16 << (i as u16);
                let mut reg = EpReg { bits: self.regs.ep[i].bits };
                let v = reg.read();
                assert(v == old(self).regs.ep_bits(i as int)) by {
                    assert(pre_regs.ep_bits(i as int) == old(self).regs.ep_bits(i as int));
                }
                if v & EP_CTR_RX != 0 {
                    ep_out = ep_out | bit;
                    if v & EP_SETUP != 0 {
                        ep_setup = ep_setup | bit;
                    }
                }
                if v & EP_CTR_TX != 0 {
                    ep_in_complete = ep_in_complete | bit;
                    reg.clear_ctr_tx();
                }
                self.regs.ep.set(i, reg);
                proof {
                    assert forall|j: int| 0 <= j < 16 implies {
                        &&& #[trigger] bit_set(ep_out, j) == (j < i + 1 && ctr_rx_of(
                            old(self).regs.ep_bits(j),
                        ))
                        &&& bit_set(ep_setup, j) == (j < i + 1 && ctr_rx_of(old(self).regs.ep_bits(j))
                            && setup_of(old(self).regs.ep_bits(j)))
                        &&& bit_set(ep_in_complete, j) == (j < i + 1 && ctr_tx_of(
                            old(self).regs.ep_bits(j),
                        ))
                    } by {
                        lemma_set_bit(out0, i as u16, j as u16);
                        lemma_set_bit(setup0, i as u16, j as u16);
                        lemma_set_bit(in0, i as u16, j as u16);
                        assert(bit_set(out0, j) == (j < i && ctr_rx_of(old(self).regs.ep_bits(j))));
                    }
                    assert forall|j: int| 0 <= j < NUM_ENDPOINTS implies #[trigger] self.regs.ep_bits(
                        j,
                    ) == if j < i + 1 && ctr_tx_of(old(self).regs.ep_bits(j)) {
                        old(self).regs.ep_bits(j) & !EP_CTR_TX
                    } else {
                        old(self).regs.ep_bits(j)
                    } by {
                        if j != i {
                            assert(self.regs.ep_bits(j) == pre_regs.ep_bits(j));
                        }
                    }
                }
                i = i + 1;
            }
            PollResult::Data { ep_out, ep_in_complete, ep_setup }
        } else {
            PollResult::Idle
        }
    }
}

/// Allocation is deterministic: two drivers that agree on their endpoint
/// tables and free offsets and get the same sequence of requests hand out
/// the same results, request by request, and agree again afterwards.
pub proof fn lemma_alloc_deterministic(a: UsbBus, b: UsbBus, reqs: Seq<AllocRequest>)
    requires
        a.records() == b.records(),
        a.packet_mem.free_offset() == b.packet_mem.free_offset(),
    ensures
        replay(a.records(), a.packet_mem.free_offset(), reqs) == replay(
            b.records(),
            b.packet_mem.free_offset(),
            reqs,
        ),
        reqs.len() > 0 ==> ({
            let q = reqs[0];
            &&& alloc_records(
                a.records(),
                a.packet_mem.free_offset(),
                q.dir,
                q.addr,
                q.ep_type,
                q.max_packet_size,
            ) == alloc_records(
                b.records(),
                b.packet_mem.free_offset(),
                q.dir,
                q.addr,
                q.ep_type,
                q.max_packet_size,
            )
            &&& alloc_free(
                a.records(),
                a.packet_mem.free_offset(),
                q.dir,
                q.addr,
                q.ep_type,
                q.max_packet_size,
            ) == alloc_free(
                b.records(),
                b.packet_mem.free_offset(),
                q.dir,
                q.addr,
                q.ep_type,
                q.max_packet_size,
            )
        }),
{
}

/// `write` refuses every address whose direction bit is clear, and `read`
/// every address whose direction bit is set, with `InvalidEndpoint`.
pub proof fn lemma_direction_checked(b: UsbBus, ep_addr: u8, len: nat)
    ensures
        ep_addr & 0x80 == 0 ==> b.write_result(ep_addr, len) == Err::<usize, UsbError>(
            UsbError::InvalidEndpoint,
        ),
        ep_addr & 0x80 != 0 ==> b.read_result(ep_addr, len) == Err::<usize, UsbError>(
            UsbError::InvalidEndpoint,
        ),
{
}

/// `read` never reports more bytes than the buffer holds, and fails with
/// `BufferOverflow` exactly when a packet waits on an enabled OUT endpoint
/// and its count exceeds the buffer's length.
pub proof fn lemma_read_fits(b: UsbBus, ep: u8, len: nat)
    ensures
        b.read_result(ep, len) is Ok ==> b.read_result(ep, len)->Ok_0 <= len,
        b.read_result(ep, len) == Err::<usize, UsbError>(UsbError::BufferOverflow) <==> ({
            &&& ep & 0x80 == 0
            &&& ep < NUM_ENDPOINTS
            &&& stat_rx_of(b.regs.ep_bits(ep as int)) != EndpointStatus::Disabled
            &&& ctr_rx_of(b.regs.ep_bits(ep as int))
            &&& (b.packet_mem.spec_descriptor(ep as int).count_rx & 0x3f) as nat > len
        }),
{
}

} // verus!
