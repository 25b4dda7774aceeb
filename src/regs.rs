//! Endpoint control/status registers and the receive-size encoding.
//!
//! An endpoint register mixes four kinds of bits: plain read/write fields
//! (type, kind, address), toggle-on-write bits (data toggles and the two
//! 2-bit status fields), write-zero-to-clear flags (transfer complete) and a
//! read-only flag (SETUP). `hw_write` states what the peripheral does with a
//! written word; every operation below is proved against it.
use vstd::prelude::*;
use crate::usb::{EndpointType, UsbError};

verus! {

/// Number of endpoint slots of the peripheral.
pub const NUM_ENDPOINTS: usize = 8;

/// Plain read/write bits: endpoint type, kind and address.
pub const EP_RW_MASK: u16 = 0x070f;
/// Toggle-on-write bits: data toggles and status fields of both directions.
pub const EP_TOGGLE_MASK: u16 = 0x7070;
/// Write-zero-to-clear bits: the two transfer-complete flags.
pub const EP_W0C_MASK: u16 = 0x8080;
/// Read-only bit: the last received packet was a SETUP packet.
pub const EP_SETUP: u16 = 0x0800;
pub const EP_CTR_RX: u16 = 0x8000;
pub const EP_CTR_TX: u16 = 0x0080;

/// 2-bit status of one direction of an endpoint.
#[derive(Clone, Copy, Debug, PartialEq, Eq, Structural)]
pub enum EndpointStatus {
    Disabled,
    Stall,
    Nak,
    Valid,
}

impl EndpointStatus {
    pub open spec fn spec_bits(self) -> u16 {
        match self {
            EndpointStatus::Disabled => 0,
            EndpointStatus::Stall => 1,
            EndpointStatus::Nak => 2,
            EndpointStatus::Valid => 3,
        }
    }

    /// The status held in the low two bits of `b`.
    pub open spec fn spec_from_bits(b: u16) -> EndpointStatus {
        let v = b & 3;
        if v == 0 {
            EndpointStatus::Disabled
        } else if v == 1 {
            EndpointStatus::Stall
        } else if v == 2 {
            EndpointStatus::Nak
        } else {
            EndpointStatus::Valid
        }
    }

    pub fn bits(self) -> (r: u16)
        ensures
            r == self.spec_bits(),
            r < 4,
    {
        match self {
            EndpointStatus::Disabled => 0,
            EndpointStatus::Stall => 1,
            EndpointStatus::Nak => 2,
            EndpointStatus::Valid => 3,
        }
    }

    pub fn from_bits(b: u16) -> (r: EndpointStatus)
        ensures
            r == Self::spec_from_bits(b),
    {
        let v = b & 3;
        if v == 0 {
            EndpointStatus::Disabled
        } else if v == 1 {
            EndpointStatus::Stall
        } else if v == 2 {
            EndpointStatus::Nak
        } else {
            EndpointStatus::Valid
        }
    }
}

/// What the register holds after the word `w` is written while it held `cur`.
pub open spec fn hw_write(cur: u16, w: u16) -> u16 {
    (w & EP_RW_MASK) | ((cur ^ w) & EP_TOGGLE_MASK) | (cur & w & EP_W0C_MASK) | (cur & EP_SETUP)
}

pub open spec fn stat_rx_of(v: u16) -> EndpointStatus {
    EndpointStatus::spec_from_bits(v >> 12)
}

pub open spec fn stat_tx_of(v: u16) -> EndpointStatus {
    EndpointStatus::spec_from_bits(v >> 4)
}

pub open spec fn ctr_rx_of(v: u16) -> bool {
    v & EP_CTR_RX != 0
}

pub open spec fn ctr_tx_of(v: u16) -> bool {
    v & EP_CTR_TX != 0
}

pub open spec fn setup_of(v: u16) -> bool {
    v & EP_SETUP != 0
}

/// The register value with its receive status replaced by `s`.
pub open spec fn with_stat_rx(v: u16, s: EndpointStatus) -> u16 {
    (v & !0x3000u16) | (s.spec_bits() << 12u16)
}

/// The register value with its transmit status replaced by `s`.
pub open spec fn with_stat_tx(v: u16, s: EndpointStatus) -> u16 {
    (v & !0x0030u16) | (s.spec_bits() << 4u16)
}

/// The register value with type and address replaced and the kind bit clear.
pub open spec fn with_config(v: u16, t: EndpointType, index: u8) -> u16 {
    (v & 0xf8f0) | (t.spec_bits() << 9u16) | ((index as u16) & 0x000f)
}

proof fn lemma_stat_rx_write(cur: u16, s: u16)
    requires
        s < 4,
    ensures
        hw_write(cur, (cur & EP_RW_MASK) | EP_W0C_MASK | ((((cur >> 12u16) & 3) ^ s) << 12u16))
            == (cur & !0x3000u16) | (s << 12u16),
{
    assert(hw_write(cur, (cur & 0x070f) | 0x8080 | ((((cur >> 12u16) & 3) ^ s) << 12u16))
        == (cur & !0x3000u16) | (s << 12u16)) by (bit_vector)
        requires
            s < 4,
    ;
}

proof fn lemma_stat_tx_write(cur: u16, s: u16)
    requires
        s < 4,
    ensures
        hw_write(cur, (cur & EP_RW_MASK) | EP_W0C_MASK | ((((cur >> 4u16) & 3) ^ s) << 4u16))
            == (cur & !0x0030u16) | (s << 4u16),
{
    assert(hw_write(cur, (cur & 0x070f) | 0x8080 | ((((cur >> 4u16) & 3) ^ s) << 4u16))
        == (cur & !0x0030u16) | (s << 4u16)) by (bit_vector)
        requires
            s < 4,
    ;
}

/// One endpoint control/status register.
pub struct EpReg {
    pub bits: u16,
}

impl EpReg {
    /// A register as the peripheral holds it after power-on.
    pub fn new() -> (r: EpReg)
        ensures
            r.bits == 0,
    {
        EpReg { bits: 0 }
    }

    /// The current register bits.
    pub fn read(&self) -> (r: u16)
        ensures
            r == self.bits,
    {
        self.bits
    }

    /// Writes one word; the peripheral applies it bit kind by bit kind.
    pub fn write(&mut self, w: u16)
        ensures
            final(self).bits == hw_write(old(self).bits, w),
    {
        let cur = self.bits;
        self.bits = (w & EP_RW_MASK) | ((cur ^ w) & EP_TOGGLE_MASK) | (cur & w & EP_W0C_MASK) | (
        cur & EP_SETUP);
    }

    /// Sets type and address; status, toggles and flags keep their values.
    pub fn configure(&mut self, ep_type: EndpointType, index: u8)
        ensures
            final(self).bits == with_config(old(self).bits, ep_type, index),
    {
        let cur = self.read();
        let t = ep_type.bits();
        let w = EP_W0C_MASK | (t << 9u16) | ((index as u16) & 0x000f);
        self.write(w);
        proof {
            let idx = index as u16;
            assert(hw_write(cur, 0x8080 | (t << 9u16) | (idx & 0x000f)) == (cur & 0xf8f0) | (t
                << 9u16) | (idx & 0x000f)) by (bit_vector)
                requires
                    t < 4,
            ;
        }
    }

    /// Moves the receive status to `status` by toggling the bits that differ.
    pub fn set_stat_rx(&mut self, status: EndpointStatus)
        ensures
            final(self).bits == with_stat_rx(old(self).bits, status),
    {
        let cur = self.read();
        let s = status.bits();
        let w = (cur & EP_RW_MASK) | EP_W0C_MASK | ((((cur >> 12u16) & 3) ^ s) << 12u16);
        self.write(w);
        proof {
            lemma_stat_rx_write(cur, s);
        }
    }

    /// Moves the transmit status to `status` by toggling the bits that differ.
    pub fn set_stat_tx(&mut self, status: EndpointStatus)
        ensures
            final(self).bits == with_stat_tx(old(self).bits, status),
    {
        let cur = self.read();
        let s = status.bits();
        let w = (cur & EP_RW_MASK) | EP_W0C_MASK | ((((cur >> 4u16) & 3) ^ s) << 4u16);
        self.write(w);
        proof {
            lemma_stat_tx_write(cur, s);
        }
    }

    /// Clears the receive-complete flag and leaves every other bit as it is.
    pub fn clear_ctr_rx(&mut self)
        ensures
            final(self).bits == old(self).bits & !EP_CTR_RX,
    {
        let cur = self.read();
        self.write((cur & EP_RW_MASK) | EP_CTR_TX);
        assert(hw_write(cur, (cur & 0x070f) | 0x0080) == cur & !0x8000u16) by (bit_vector);
    }

    /// Clears the transmit-complete flag and leaves every other bit as it is.
    pub fn clear_ctr_tx(&mut self)
        ensures
            final(self).bits == old(self).bits & !EP_CTR_TX,
    {
        let cur = self.read();
        self.write((cur & EP_RW_MASK) | EP_CTR_RX);
        assert(hw_write(cur, (cur & 0x070f) | 0x8000) == cur & !0x0080u16) by (bit_vector);
    }
}

/// Largest receive buffer of the fine (2-byte block) encoding.
pub const RX_FINE_MAX: usize = 62;
/// Largest receive buffer of the coarse (32-byte block) encoding.
pub const RX_COARSE_MAX: usize = 1024;

/// The buffer size that `encode_receive_size` allocates for `size` bytes.
pub open spec fn rx_rounded(size: nat) -> nat {
    if size <= 62 {
        ((size + 1) / 2 * 2) as nat
    } else {
        ((size + 31) / 32 * 32) as nat
    }
}

/// The receive count field that describes a buffer of `size` bytes.
pub open spec fn rx_count_bits(size: nat) -> u16 {
    if size <= 62 {
        (((size + 1) / 2) * 1024) as u16
    } else {
        (0x8000 + ((size + 31) / 32 - 1) * 1024) as u16
    }
}

/// The buffer capacity that a receive count field describes.
pub open spec fn rx_capacity(bits: u16) -> nat {
    let blocks = ((bits >> 10u16) & 0x1f) as nat;
    if bits & 0x8000 == 0 {
        blocks * 2
    } else {
        (blocks + 1) * 32
    }
}

/// Rounded buffer size and receive count field for a maximum packet size.
/// Sizes up to 62 bytes use 2-byte blocks, larger ones up to 1024 bytes
/// use 32-byte blocks; beyond that there is no encoding.
pub fn encode_receive_size(size: usize) -> (r: Result<(usize, u16), UsbError>)
    ensures
        size <= RX_COARSE_MAX ==> r == Ok::<(usize, u16), UsbError>(
            (rx_rounded(size as nat) as usize, rx_count_bits(size as nat)),
        ),
        size > RX_COARSE_MAX ==> r == Err::<(usize, u16), UsbError>(UsbError::EndpointOverflow),
{
    if size <= RX_FINE_MAX {
        let blocks = (size + 1) / 2;
        Ok((blocks * 2, (blocks * 1024) as u16))
    } else if size <= RX_COARSE_MAX {
        let blocks = (size + 31) / 32;
        Ok((blocks * 32, (0x8000 + (blocks - 1) * 1024) as u16))
    } else {
        Err(UsbError::EndpointOverflow)
    }
}

/// For every size that has an encoding, the rounded size is at least the
/// requested one, and decoding the count field gives back exactly the
/// rounded size, so the buffer always holds a packet of the requested size.
pub proof fn lemma_receive_size_covers(size: nat)
    requires
        size <= RX_COARSE_MAX,
    ensures
        rx_rounded(size) >= size,
        rx_capacity(rx_count_bits(size)) == rx_rounded(size),
        rx_capacity(rx_count_bits(size)) >= size,
{
    if size <= 62 {
        let b: u16 = ((size + 1) / 2) as u16;
        assert(b < 32);
        assert(rx_count_bits(size) == b * 1024);
        assert(((b * 1024) as u16 >> 10u16) & 0x1f == b && (b * 1024) as u16 & 0x8000 == 0)
            by (bit_vector)
            requires
                b < 32,
        ;
    } else {
        let b: u16 = ((size + 31) / 32 - 1) as u16;
        assert(b < 32);
        assert(rx_count_bits(size) == 0x8000 + b * 1024);
        assert(((0x8000 + b * 1024) as u16 >> 10u16) & 0x1f == b && (0x8000 + b * 1024) as u16
            & 0x8000 != 0) by (bit_vector)
            requires
                b < 32,
        ;
    }
}

/// Control register: force USB reset.
pub const CNTR_FRES: u16 = 0x0001;
/// Control register: power down.
pub const CNTR_PDWN: u16 = 0x0002;
/// Control register: low-power mode.
pub const CNTR_LPMODE: u16 = 0x0004;
/// Control register: force suspend.
pub const CNTR_FSUSP: u16 = 0x0008;

/// Interrupt status: a transfer completed on some endpoint (read-only).
pub const ISTR_CTR: u16 = 0x8000;
/// Interrupt status: wakeup request.
pub const ISTR_WKUP: u16 = 0x1000;
/// Interrupt status: suspend request.
pub const ISTR_SUSP: u16 = 0x0800;
/// Interrupt status: bus reset.
pub const ISTR_RESET: u16 = 0x0400;
/// Interrupt status bits cleared by writing zero; the others are read-only.
pub const ISTR_W0C_MASK: u16 = 0x7f00;

/// Frame number register: line state of D+.
pub const FNR_RXDP: u16 = 0x8000;
/// Frame number register: line state of D-.
pub const FNR_RXDM: u16 = 0x4000;

/// Device address register: function enable.
pub const DADDR_EF: u16 = 0x0080;

/// What the interrupt status register holds after `w` is written to it.
pub open spec fn istr_write(cur: u16, w: u16) -> u16 {
    cur & (w | !ISTR_W0C_MASK)
}

/// The peripheral's register block.
pub struct UsbRegisters {
    pub cntr: u16,
    pub istr: u16,
    pub fnr: u16,
    pub daddr: u16,
    pub btable: u16,
    /// One control/status register per endpoint slot.
    pub ep: Vec<EpReg>,
}

impl UsbRegisters {
    pub open spec fn wf(&self) -> bool {
        self.ep@.len() == NUM_ENDPOINTS
    }

    /// Bits of the register of endpoint slot `i`.
    pub open spec fn ep_bits(&self, i: int) -> u16 {
        self.ep@[i].bits
    }

    /// The register block as it comes out of power-on reset: forced reset
    /// and power-down set, everything else clear.
    pub fn new() -> (r: UsbRegisters)
        ensures
            r.wf(),
            r.cntr == CNTR_FRES | CNTR_PDWN,
            r.istr == 0 && r.fnr == 0 && r.daddr == 0 && r.btable == 0,
            forall|i: int| 0 <= i < NUM_ENDPOINTS ==> #[trigger] r.ep_bits(i) == 0,
    {
        let mut ep: Vec<EpReg> = Vec::new();
        while ep.len() < NUM_ENDPOINTS
            invariant
                ep@.len() <= NUM_ENDPOINTS,
                forall|i: int| 0 <= i < ep@.len() ==> #[trigger] ep@[i].bits == 0,
            decreases NUM_ENDPOINTS - ep@.len(),
        {
            ep.push(EpReg::new());
        }
        UsbRegisters { cntr: CNTR_FRES | CNTR_PDWN, istr: 0, fnr: 0, daddr: 0, btable: 0, ep }
    }

    /// Writes the interrupt status register: flags written as zero clear.
    pub fn write_istr(&mut self, w: u16)
        ensures
            final(self).istr == istr_write(old(self).istr, w),
            final(self).cntr == old(self).cntr,
            final(self).fnr == old(self).fnr,
            final(self).daddr == old(self).daddr,
            final(self).btable == old(self).btable,
            final(self).ep == old(self).ep,
    {
        self.istr = self.istr & (w | !ISTR_W0C_MASK);
    }
}

proof fn lemma_from_bits_of(x: u16, s: EndpointStatus)
    requires
        x & 3 == s.spec_bits(),
    ensures
        EndpointStatus::spec_from_bits(x) == s,
{
}

proof fn lemma_bits_of_from(x: u16, s: EndpointStatus)
    requires
        EndpointStatus::spec_from_bits(x) == s,
    ensures
        x & 3 == s.spec_bits(),
{
    assert(x & 3 < 4) by (bit_vector);
}

/// Replacing the transmit status gives that status, replacing it twice is
/// replacing it once with the second value, and writing back the status a
/// register already has leaves it unchanged.
pub proof fn lemma_with_stat_tx(v: u16, a: EndpointStatus, b: EndpointStatus)
    ensures
        stat_tx_of(with_stat_tx(v, a)) == a,
        with_stat_tx(with_stat_tx(v, a), b) == with_stat_tx(v, b),
        stat_tx_of(v) == a ==> with_stat_tx(v, a) == v,
{
    let sa = a.spec_bits();
    let sb = b.spec_bits();
    assert(((((v & !0x0030u16) | (sa << 4u16)) >> 4u16) & 3) == sa) by (bit_vector)
        requires
            sa < 4,
    ;
    lemma_from_bits_of(with_stat_tx(v, a) >> 4u16, a);
    assert((((v & !0x0030u16) | (sa << 4u16)) & !0x0030u16) | (sb << 4u16) == (v & !0x0030u16) | (
    sb << 4u16)) by (bit_vector)
        requires
            sa < 4,
            sb < 4,
    ;
    if stat_tx_of(v) == a {
        lemma_bits_of_from(v >> 4u16, a);
        assert(((v >> 4u16) & 3) == sa ==> (v & !0x0030u16) | (sa << 4u16) == v) by (bit_vector);
    }
}

/// The receive-status counterpart of `lemma_with_stat_tx`.
pub proof fn lemma_with_stat_rx(v: u16, a: EndpointStatus, b: EndpointStatus)
    ensures
        stat_rx_of(with_stat_rx(v, a)) == a,
        with_stat_rx(with_stat_rx(v, a), b) == with_stat_rx(v, b),
        stat_rx_of(v) == a ==> with_stat_rx(v, a) == v,
{
    let sa = a.spec_bits();
    let sb = b.spec_bits();
    assert(((((v & !0x3000u16) | (sa << 12u16)) >> 12u16) & 3) == sa) by (bit_vector)
        requires
            sa < 4,
    ;
    lemma_from_bits_of(with_stat_rx(v, a) >> 12u16, a);
    assert((((v & !0x3000u16) | (sa << 12u16)) & !0x3000u16) | (sb << 12u16) == (v & !0x3000u16)
        | (sb << 12u16)) by (bit_vector)
        requires
            sa < 4,
            sb < 4,
    ;
    if stat_rx_of(v) == a {
        lemma_bits_of_from(v >> 12u16, a);
        assert(((v >> 12u16) & 3) == sa ==> (v & !0x3000u16) | (sa << 12u16) == v)
            by (bit_vector);
    }
}

} // verus!
