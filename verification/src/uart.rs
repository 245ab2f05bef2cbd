//! Simple mini-UART driver over an explicit device model.
//!
//! The receive FIFO is the queue of bytes that have arrived and not yet been
//! read; the transmit side is the trace of every byte sent, in order — on
//! the model the transmitter drains instantly, so there is always room and
//! the line is always idle. Configuration registers are carried as plain
//! words with the values the driver writes on a real board.

use vstd::prelude::*;

use crate::bits::{spec_bit, spec_field};
use vstd::string::StringSliceAdditionalSpecFns;
use crate::gpio::{gpio_set_fn, GpioState};

verus! {

/// Function-select mode that routes a pin to the mini-UART (TXD1/RXD1).
pub const FN_UART: u8 = 2;

/// The mini-UART device: receive queue, transmit trace and configuration.
pub struct UartState {
    pub rx: Vec<u8>,
    pub tx: Vec<u8>,
    pub enabled: bool,
    pub cntl: u32,
    pub lcr: u32,
    pub ier: u32,
    pub iir: u32,
    pub baud: u32,
}

impl UartState {
    /// A device that has never been touched: disabled, nothing queued.
    pub fn off() -> (u: UartState)
        ensures
            !u.enabled,
            u.rx@.len() == 0,
            u.tx@.len() == 0,
    {
        UartState { rx: Vec::new(), tx: Vec::new(), enabled: false, cntl: 0, lcr: 0, ier: 0, iir: 0, baud: 0 }
    }
}

/// Called first to set the UART up for 8-bit frames at 115200 baud with
/// interrupts off: routes pins 14 and 15 to the UART, enables the device,
/// clears both FIFOs and re-enables transmit and receive.
pub fn uart_init(g: &mut GpioState, u: &mut UartState)
    requires
        old(g).wf(),
    ensures
        final(g).wf(),
        final(g).lev0 == old(g).lev0 && final(g).lev1 == old(g).lev1,
        spec_field(final(g).fsel@[1], 14, 12) == FN_UART,
        spec_field(final(g).fsel@[1], 17, 15) == FN_UART,
        final(u).enabled,
        final(u).rx@.len() == 0,
        final(u).tx@.len() == 0,
        final(u).cntl == 0b11u32,
        final(u).lcr == 0b11u32,
        final(u).ier == 0u32,
        final(u).baud == 270u32,
{
    gpio_set_fn(g, 14, FN_UART);
    let ghost mid = *g;
    gpio_set_fn(g, 15, FN_UART);
    proof {
        let a = g.fsel@[1];
        let b = mid.fsel@[1];
        assert(spec_bit(a, 12) == spec_bit(b, 12) && spec_bit(a, 13) == spec_bit(b, 13)
            && spec_bit(a, 14) == spec_bit(b, 14));
        assert(spec_bit(a, 12) == spec_bit(b, 12) && spec_bit(a, 13) == spec_bit(b, 13)
            && spec_bit(a, 14) == spec_bit(b, 14) ==> spec_field(a, 14, 12) == spec_field(
            b,
            14,
            12,
        )) by (bit_vector);
    }
    u.enabled = true;
    u.cntl = 0;
    u.lcr = 0b11;
    u.ier = 0;
    u.iir = 0b110;
    u.rx = Vec::new();
    u.tx = Vec::new();
    u.baud = 270;
    u.cntl = 0b11;
}

/// Disables the UART: transmit and receive stop, the FIFOs are cleared and
/// the device is switched off.
pub fn uart_disable(u: &mut UartState)
    ensures
        !final(u).enabled,
        final(u).cntl == 0u32,
        final(u).rx@.len() == 0,
        final(u).tx@ == old(u).tx@,
{
    u.cntl = 0;
    u.iir = 0b110;
    u.rx = Vec::new();
    u.enabled = false;
}

/// Returns whether there is at least one byte on the RX FIFO.
pub fn uart_has_data(u: &UartState) -> (r: bool)
    ensures
        r == (u.rx@.len() > 0),
{
    u.rx.len() > 0
}

/// Returns one byte from the RX FIFO. On a real board an empty FIFO blocks
/// until a byte arrives; a caller here must know one is queued.
pub fn uart_get8(u: &mut UartState) -> (r: u8)
    requires
        old(u).rx@.len() > 0,
    ensures
        r == old(u).rx@[0],
        final(u).rx@ == old(u).rx@.subrange(1, old(u).rx@.len() as int),
        final(u).tx@ == old(u).tx@,
        final(u).enabled == old(u).enabled,
{
    rx_remove_front(u)
}

/// Returns one byte from the RX FIFO, or `None` when it is empty.
pub fn uart_get8_async(u: &mut UartState) -> (r: Option<u8>)
    ensures
        final(u).tx@ == old(u).tx@,
        final(u).enabled == old(u).enabled,
        old(u).rx@.len() == 0 ==> r is None && *final(u) == *old(u),
        old(u).rx@.len() > 0 ==> {
            &&& r == Some(old(u).rx@[0])
            &&& final(u).rx@ == old(u).rx@.subrange(1, old(u).rx@.len() as int)
        },
{
    if u.rx.len() > 0 {
        Some(rx_remove_front(u))
    } else {
        None
    }
}

/// Puts one byte on the TX side. On a real board a full FIFO blocks until
/// there is room; on the model the transmitter always has room.
pub fn uart_put8(u: &mut UartState, x: u8)
    ensures
        final(u).tx@ == old(u).tx@.push(x),
        final(u).rx@ == old(u).rx@,
        final(u).enabled == old(u).enabled,
{
    u.tx.push(x);
}

/// Writes a string to the UART, sending it byte by byte.
pub fn uart_write(u: &mut UartState, msg: &str)
    ensures
        final(u).tx@ == old(u).tx@ + msg.spec_bytes(),
        final(u).rx@ == old(u).rx@,
        final(u).enabled == old(u).enabled,
{
    let bytes = msg.as_bytes();
    let mut i: usize = 0;
    while i < bytes.len()
        invariant
            i <= bytes@.len(),
            bytes@ == msg.spec_bytes(),
            u.tx@ == old(u).tx@ + bytes@.subrange(0, i as int),
            u.rx@ == old(u).rx@,
            u.enabled == old(u).enabled,
        decreases bytes@.len() - i,
    {
        let b = bytes[i];
        uart_put8(u, b);
        proof {
            assert(u.tx@ =~= old(u).tx@ + bytes@.subrange(0, i + 1));
        }
        i += 1;
    }
    proof {
        assert(u.tx@ =~= old(u).tx@ + msg.spec_bytes());
    }
}

/// Returns whether the TX side has room for at least one byte; on the model
/// the transmitter always has.
pub fn uart_can_put8(u: &UartState) -> (r: bool)
    ensures
        r,
{
    true
}

/// Returns whether the TX side is empty and idle; on the model every sent
/// byte has already gone out on the line.
pub fn uart_tx_is_empty(u: &UartState) -> (r: bool)
    ensures
        r,
{
    true
}

/// Returns only when the TX side is empty and idle — on the model,
/// immediately.
pub fn uart_flush_tx(u: &UartState) -> (idle: bool)
    ensures
        idle,
{
    uart_tx_is_empty(u)
}

/// Removes and returns the front byte of the receive queue.
fn rx_remove_front(u: &mut UartState) -> (r: u8)
    requires
        old(u).rx@.len() > 0,
    ensures
        r == old(u).rx@[0],
        final(u).rx@ == old(u).rx@.subrange(1, old(u).rx@.len() as int),
        final(u).tx@ == old(u).tx@,
        final(u).enabled == old(u).enabled,
        final(u).cntl == old(u).cntl,
{
    u.rx.remove(0)
}

} // verus!
