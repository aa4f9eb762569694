use vstd::prelude::*;

use crate::packet::{Packet, PACKET_CAPACITY};

verus! {

/// Baud rate that every UART starts with, and that the USB side assumes the
/// host wants until it says otherwise.
pub const STARTING_BAUD_RATE: u32 = 115_200;

/// On a new connection at `rate`, with `last` the rate last forwarded:
/// the rate to forward to the UART side, if any, and the rate to remember.
pub open spec fn baud_step(last: u32, rate: u32) -> (Option<u32>, u32) {
    if rate != last {
        (Some(rate), rate)
    } else {
        (None, last)
    }
}

/// Remembers the baud rate last forwarded to the UART side, so that only
/// changes are forwarded.
pub struct BaudTracker {
    last_baud: u32,
}

impl BaudTracker {
    /// The UART starts at `STARTING_BAUD_RATE`.
    pub fn new() -> (t: Self)
        ensures
            t@ == STARTING_BAUD_RATE,
    {
        BaudTracker { last_baud: STARTING_BAUD_RATE }
    }

    /// The host connected with line coding at `data_rate` bits per second.
    /// Returns the rate to forward to the UART side, if it changed.
    pub fn on_connect(&mut self, data_rate: u32) -> (forward: Option<u32>)
        ensures
            (forward, final(self)@) == baud_step(old(self)@, data_rate),
            data_rate != old(self)@ ==> forward == Some(data_rate),
            data_rate == old(self)@ ==> forward == None::<u32>,
            final(self)@ == data_rate,
    {
        if data_rate != self.last_baud {
            self.last_baud = data_rate;
            Some(data_rate)
        } else {
            None
        }
    }
}

impl View for BaudTracker {
    type V = u32;

    /// The rate last forwarded (or the starting rate).
    closed spec fn view(&self) -> u32 {
        self.last_baud
    }
}

/// After a connection the UART runs at the host's rate: a changed rate is
/// forwarded as it is, an unchanged one is not forwarded, and a second
/// connection at the same rate forwards nothing.
pub proof fn lemma_baud_settles(last: u32, rate: u32)
    ensures
        baud_step(last, rate).1 == rate,
        baud_step(baud_step(last, rate).1, rate).0 == None::<u32>,
        baud_step(last, rate).0 == None::<u32> <==> last == rate,
        rate != last ==> baud_step(last, rate).0 == Some(rate),
{
}

/// Why a USB endpoint transfer failed.
#[derive(Debug, Clone, Copy, PartialEq, Eq, Structural)]
pub enum EndpointFault {
    /// The packet did not fit in the buffer.
    BufferOverflow,
    /// The endpoint is disabled: the host went away.
    Disabled,
}

/// The USB host went away.
#[derive(Debug)]
pub struct Disconnected {}

impl Disconnected {
    /// A disabled endpoint means the host disconnected. A buffer overflow is
    /// a fault of the firmware itself and is not a disconnection.
    pub fn from_fault(fault: EndpointFault) -> (d: Disconnected)
        requires
            fault == EndpointFault::Disabled,
    {
        Disconnected {}
    }
}

/// What the USB receive side does with the outcome of one packet read.
#[derive(Debug)]
pub enum UsbRxAction {
    /// Queue this packet for the UART.
    Forward(Packet),
    /// The read failed: the host went away.
    Disconnect,
    /// An empty packet: read again.
    Ignore,
}

/// Decides what to do with the outcome `read` of reading one USB packet into
/// `buf`: a non-empty packet is forwarded with exactly the bytes read
/// (followed by zeros in its buffer), an
/// empty one is ignored, and any failure ends the connection.
pub fn usb_rx_step(read: Result<usize, EndpointFault>, buf: &[u8; 64]) -> (a: UsbRxAction)
    requires
        read matches Ok(n) ==> n <= PACKET_CAPACITY,
    ensures
        match read {
            Ok(n) => if n > 0 {
                a matches UsbRxAction::Forward(p) && p@ == buf@.take(n as int) && p.zero_padded()
            } else {
                a is Ignore
            },
            Err(_) => a is Disconnect,
        },
{
    match read {
        Ok(n) => {
            if n > 0 {
                UsbRxAction::Forward(Packet::from_prefix(buf.as_slice(), n))
            } else {
                UsbRxAction::Ignore
            }
        },
        Err(_) => UsbRxAction::Disconnect,
    }
}

} // verus!
