use vstd::prelude::*;

use crate::batch::concat_payloads;
use crate::packet::{Packet, PACKET_CAPACITY};

verus! {

/// What makes the UART side of a bridge stop moving data and hand control
/// back to its supervisor.
#[derive(Debug, Clone, Copy, PartialEq, Eq, Structural)]
pub enum UartEvent {
    /// The USB host asked for a new baud rate.
    BaudChange(u32),
}

/// A UART half (receiver or transmitter) whose baud rate can be changed at
/// run time.
pub trait BaudRateControl {
    /// Switches the UART half to `baud` bits per second.
    fn change_baud_rate(&mut self, baud: u32);
}

/// The two halves of one UART.
pub struct PioUart<RX, TX> {
    pub rx: RX,
    pub tx: TX,
}

/// Clock frequency, in Hz, that a PIO state machine needs to run a UART at
/// `baud` with `cycles_per_bit` PIO cycles per bit.
pub fn pio_frequency(baud: u32, cycles_per_bit: u32) -> (f: u32)
    requires
        baud * cycles_per_bit <= u32::MAX,
    ensures
        f == baud * cycles_per_bit,
{
    baud * cycles_per_bit
}

/// One step of the UART receive batching, on the bytes already collected:
/// a received byte (`Some`) joins them, and a full packet leaves at once;
/// silence (`None`: a timeout or a failed read) sends what has been
/// collected, if anything. Returns the packet sent, if any, and what stays
/// collected.
pub open spec fn rx_step(pending: Seq<u8>, event: Option<u8>) -> (Option<Seq<u8>>, Seq<u8>) {
    match event {
        Some(b) => {
            let grown = pending.push(b);
            if grown.len() >= PACKET_CAPACITY {
                (Some(grown), Seq::empty())
            } else {
                (None, grown)
            }
        },
        None => {
            if pending.len() == 0 {
                (None, pending)
            } else {
                (Some(pending), Seq::empty())
            }
        },
    }
}

/// The packets sent, in order, and what stays collected, after the events
/// `events` starting from the collected bytes `pending`.
pub open spec fn rx_run(pending: Seq<u8>, events: Seq<Option<u8>>) -> (Seq<Seq<u8>>, Seq<u8>)
    decreases events.len(),
{
    if events.len() == 0 {
        (Seq::empty(), pending)
    } else {
        let (sent, rest) = rx_run(pending, events.drop_last());
        let (out, now) = rx_step(rest, events.last());
        match out {
            Some(p) => (sent.push(p), now),
            None => (sent, now),
        }
    }
}

/// The bytes carried by a sequence of receive events.
pub open spec fn received_bytes(events: Seq<Option<u8>>) -> Seq<u8>
    decreases events.len(),
{
    if events.len() == 0 {
        Seq::empty()
    } else {
        match events.last() {
            Some(b) => received_bytes(events.drop_last()).push(b),
            None => received_bytes(events.drop_last()),
        }
    }
}

/// Collects the bytes read from a UART into packets. A packet is sent when
/// it is full, or when the line falls silent after at least one byte.
pub struct RxAssembler {
    data: [u8; 64],
    n: usize,
}

impl RxAssembler {
    #[verifier::type_invariant]
    spec fn inv(self) -> bool {
        self.n < PACKET_CAPACITY
    }

    /// No bytes collected.
    pub fn new() -> (a: Self)
        ensures
            a@ == Seq::<u8>::empty(),
            a@.len() < PACKET_CAPACITY,
    {
        let a = RxAssembler { data: [0u8; 64], n: 0 };
        assert(a.data@.take(0) =~= Seq::<u8>::empty());
        a
    }

    /// Whether bytes are being collected: then the next read waits only a
    /// short while before the collected bytes are sent.
    pub fn is_collecting(&self) -> (c: bool)
        ensures
            c == (self@.len() > 0),
    {
        proof {
            use_type_invariant(self);
        }
        self.n > 0
    }

    /// A byte was read from the UART.
    pub fn on_byte(&mut self, byte: u8) -> (sent: Option<Packet>)
        ensures
            rx_step(old(self)@, Some(byte)) == (match sent {
                Some(p) => Some(p@),
                None => None::<Seq<u8>>,
            }, final(self)@),
            old(self)@.len() + 1 == PACKET_CAPACITY ==> (sent matches Some(p) && p@ == old(self)@.push(byte)
                && final(self)@.len() == 0),
            old(self)@.len() + 1 < PACKET_CAPACITY ==> (sent is None && final(self)@ == old(self)@.push(byte)),
            sent matches Some(p) ==> p.zero_padded(),
            final(self)@.len() < PACKET_CAPACITY,
    {
        proof {
            use_type_invariant(&*self);
        }
        let ghost before = self@;
        self.data[self.n] = byte;
        let filled = self.n + 1;
        assert(self.data@.take(filled as int) =~= before.push(byte));
        if filled == PACKET_CAPACITY {
            let p = Packet::from_prefix(self.data.as_slice(), filled);
            self.n = 0;
            assert(self.data@.take(0) =~= Seq::<u8>::empty());
            Some(p)
        } else {
            self.n = filled;
            None
        }
    }

    /// The read timed out or failed.
    pub fn on_silence(&mut self) -> (sent: Option<Packet>)
        ensures
            rx_step(old(self)@, None) == (match sent {
                Some(p) => Some(p@),
                None => None::<Seq<u8>>,
            }, final(self)@),
            old(self)@.len() > 0 ==> (sent matches Some(p) && p@ == old(self)@ && final(self)@.len() == 0),
            old(self)@.len() == 0 ==> (sent is None && final(self)@.len() == 0),
            sent matches Some(p) ==> p.zero_padded(),
            final(self)@.len() < PACKET_CAPACITY,
    {
        proof {
            use_type_invariant(&*self);
        }
        if self.n == 0 {
            None
        } else {
            let p = Packet::from_prefix(self.data.as_slice(), self.n);
            self.n = 0;
            assert(self.data@.take(0) =~= Seq::<u8>::empty());
            Some(p)
        }
    }
}

impl View for RxAssembler {
    type V = Seq<u8>;

    /// The bytes collected and not yet sent.
    closed spec fn view(&self) -> Seq<u8> {
        self.data@.take(self.n as int)
    }
}

/// What one receive step does. A byte joins the collected bytes; when that
/// makes a full packet, exactly those bytes are sent and nothing stays
/// collected, and otherwise nothing is sent. Silence sends every collected
/// byte at once, if there is any, and leaves nothing collected; silence with
/// nothing collected sends nothing.
pub proof fn lemma_rx_step_sends(pending: Seq<u8>, byte: u8)
    requires
        pending.len() < PACKET_CAPACITY,
    ensures
        pending.len() + 1 == PACKET_CAPACITY ==> rx_step(pending, Some(byte)) == (
            Some(pending.push(byte)),
            Seq::<u8>::empty(),
        ),
        pending.len() + 1 < PACKET_CAPACITY ==> rx_step(pending, Some(byte)) == (
            None::<Seq<u8>>,
            pending.push(byte),
        ),
        pending.len() > 0 ==> rx_step(pending, None) == (Some(pending), Seq::<u8>::empty()),
        pending.len() == 0 ==> rx_step(pending, None).0 == None::<Seq<u8>> && rx_step(
            pending,
            None,
        ).1.len() == 0,
{
}

/// The receive batching loses no byte and reorders none: after any events,
/// the packets sent followed by what is still collected are the bytes that
/// were collected before followed by the bytes received. Every packet sent is
/// non-empty and fits in a packet, and less than a full packet stays
/// collected.
pub proof fn lemma_rx_keeps_byte_stream(pending: Seq<u8>, events: Seq<Option<u8>>)
    requires
        pending.len() < PACKET_CAPACITY,
    ensures
        concat_payloads(rx_run(pending, events).0) + rx_run(pending, events).1
            == pending + received_bytes(events),
        rx_run(pending, events).1.len() < PACKET_CAPACITY,
        forall|i: int|
            0 <= i < rx_run(pending, events).0.len() ==> 0 < (#[trigger] rx_run(
                pending,
                events,
            ).0[i]).len() <= PACKET_CAPACITY,
    decreases events.len(),
{
    if events.len() == 0 {
        assert(pending + Seq::<u8>::empty() =~= pending);
        assert(Seq::<u8>::empty() + pending =~= pending);
    } else {
        let init = events.drop_last();
        lemma_rx_keeps_byte_stream(pending, init);
        let (sent, rest) = rx_run(pending, init);
        let (out, now) = rx_step(rest, events.last());
        match events.last() {
            Some(b) => {
                assert(received_bytes(events) == received_bytes(init).push(b));
                assert(pending + received_bytes(init).push(b) =~= (pending + received_bytes(init)).push(b));
                match out {
                    Some(p) => {
                        assert(sent.push(p).drop_last() =~= sent);
                        assert(concat_payloads(sent.push(p)) + now =~= (concat_payloads(sent) + rest).push(b));
                    },
                    None => {
                        assert(concat_payloads(sent) + now =~= (concat_payloads(sent) + rest).push(b));
                    },
                }
            },
            None => {
                assert(received_bytes(events) == received_bytes(init));
                match out {
                    Some(p) => {
                        assert(sent.push(p).drop_last() =~= sent);
                        assert(concat_payloads(sent.push(p)) + now =~= concat_payloads(sent) + rest);
                    },
                    None => {},
                }
            },
        }
    }
}

} // verus!
