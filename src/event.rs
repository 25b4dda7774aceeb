//! Decoding of the interrupt status into poll events.
use vstd::prelude::*;
use crate::usb::PollResult;
use crate::regs::{
    UsbRegisters, ctr_rx_of, ctr_tx_of, setup_of, ISTR_CTR, ISTR_WKUP, ISTR_SUSP, ISTR_RESET,
    FNR_RXDP, FNR_RXDM,
};

verus! {

/// Whether bit `i` of `m` is set.
pub open spec fn bit_set(m: u16, i: int) -> bool {
    (m >> (i as u16)) & 1 == 1
}

/// The event of a wakeup interrupt, from the line state latched in the frame
/// number register: D+ low is a genuine resume whatever D- is; D+ high is
/// noise and is reported as a suspend.
pub open spec fn wakeup_event(fnr: u16) -> PollResult {
    if fnr & FNR_RXDP == 0 {
        PollResult::Resume
    } else {
        PollResult::Suspend
    }
}

/// The event that interrupt status `istr` stands for, by fixed priority:
/// wakeup, then reset, then suspend, then transfer complete (reported as
/// `data`), else none.
pub open spec fn status_event(istr: u16, fnr: u16, data: PollResult) -> PollResult {
    if istr & ISTR_WKUP != 0 {
        wakeup_event(fnr)
    } else if istr & ISTR_RESET != 0 {
        PollResult::Reset
    } else if istr & ISTR_SUSP != 0 {
        PollResult::Suspend
    } else if istr & ISTR_CTR != 0 {
        data
    } else {
        PollResult::Idle
    }
}

/// Whether `r` reports the completed transfers of `regs`' endpoint
/// registers 0 through `max`: bit `i` of `ep_out` for a completed
/// reception, of `ep_setup` for one that was a SETUP packet, of
/// `ep_in_complete` for a completed transmission.
pub open spec fn reports_transfers(regs: UsbRegisters, max: int, r: PollResult) -> bool {
    match r {
        PollResult::Data { ep_out, ep_in_complete, ep_setup } => forall|i: int|
            0 <= i < 16 ==> {
                &&& #[trigger] bit_set(ep_out, i) == (i <= max && ctr_rx_of(regs.ep_bits(i)))
                &&& bit_set(ep_setup, i) == (i <= max && ctr_rx_of(regs.ep_bits(i)) && setup_of(
                    regs.ep_bits(i),
                ))
                &&& bit_set(ep_in_complete, i) == (i <= max && ctr_tx_of(regs.ep_bits(i)))
            },
        _ => false,
    }
}

/// Decodes a wakeup interrupt from the latched line state.
pub fn decode_wakeup(fnr: u16) -> (r: PollResult)
    ensures
        r == wakeup_event(fnr),
{
    // D- does not matter: D+ low alone marks a genuine resume.
    let dp = fnr & FNR_RXDP != 0;
    if !dp {
        PollResult::Resume
    } else {
        // A wakeup with D+ high was caused by noise.
        PollResult::Suspend
    }
}

/// The wakeup flag takes precedence: with it set, the decoded event is the
/// wakeup outcome, whatever else is pending, and never a bus reset.
pub proof fn lemma_wakeup_first(istr: u16, fnr: u16, data: PollResult)
    requires
        istr & ISTR_WKUP != 0,
    ensures
        status_event(istr, fnr, data) == wakeup_event(fnr),
        status_event(istr, fnr, data) != PollResult::Reset,
{
}

/// The four line states of a wakeup: (D+ low, D- low) and (D+ low, D- high)
/// are a resume, (D+ high, D- low) and (D+ high, D- high) a suspend.
pub proof fn lemma_wakeup_line_states(fnr: u16)
    ensures
        fnr & FNR_RXDP == 0 && fnr & FNR_RXDM == 0 ==> wakeup_event(fnr) == PollResult::Resume,
        fnr & FNR_RXDP == 0 && fnr & FNR_RXDM != 0 ==> wakeup_event(fnr) == PollResult::Resume,
        fnr & FNR_RXDP != 0 && fnr & FNR_RXDM == 0 ==> wakeup_event(fnr) == PollResult::Suspend,
        fnr & FNR_RXDP != 0 && fnr & FNR_RXDM != 0 ==> wakeup_event(fnr) == PollResult::Suspend,
{
}

pub(crate) proof fn lemma_set_bit(m: u16, i: u16, j: u16)
    requires
        i < 16,
        j < 16,
    ensures
        ((m | (1u16 << i)) >> j) & 1 == 1 <==> (((m >> j) & 1 == 1) || i == j),
        (0u16 >> j) & 1 != 1,
{
    assert(((m | (1u16 << i)) >> j) & 1 == 1 <==> (((m >> j) & 1 == 1) || i == j)) by (bit_vector)
        requires
            i < 16,
            j < 16,
    ;
    assert((0u16 >> j) & 1 != 1) by (bit_vector);
}

} // verus!
