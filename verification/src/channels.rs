use vstd::prelude::*;

use embassy_sync::blocking_mutex::raw::CriticalSectionRawMutex;
use embassy_sync::channel::Channel;

use crate::batch::{
    batched, concat_payloads, extend_usb_batch, fit_in_packet, lemma_concat_len_grows,
    lemma_concat_single, lemma_fit_append,
};
use crate::packet::{Packet, PACKET_CAPACITY};

verus! {

/// How many messages each bridge channel buffers.
pub const CHANNEL_DEPTH: usize = 4;

/// The queues that connect the USB side and the UART side of one bridge.
///
/// The channels are shared between tasks and change through shared
/// references, so their contents are not part of this type's model: the
/// type is opaque to proofs.
#[verifier::external_body]
pub struct BridgeChannels {
    /// Packets received from the USB host, to be written to the UART.
    pub usb_to_uart: Channel<CriticalSectionRawMutex, Packet, 4>,
    /// Packets read from the UART, to be sent to the USB host.
    pub uart_to_usb: Channel<CriticalSectionRawMutex, Packet, 4>,
    /// Baud rates requested by the USB host, for the UART side to apply.
    pub baud_rate: Channel<CriticalSectionRawMutex, u32, 4>,
}

impl BridgeChannels {
    /// Calls `embassy_sync::channel::Channel::new` for each of the three
    /// channels, which makes them empty. The contents of a channel change
    /// through shared references and are not a function of the returned
    /// value, so nothing is stated of the result.
    #[verifier::external_body]
    pub fn new() -> (c: Self) {
        BridgeChannels {
            usb_to_uart: Channel::new(),
            uart_to_usb: Channel::new(),
            baud_rate: Channel::new(),
        }
    }
}

/// Calls `embassy_sync::channel::Channel::try_receive` on the UART-to-USB
/// channel, which removes and returns the oldest queued packet, or fails when
/// the queue is empty; the failure is mapped to `None`. Which packet comes
/// back depends on what other tasks have sent, so nothing is stated of the
/// result beyond its type.
#[verifier::external_body]
fn take_waiting_packet(channels: &BridgeChannels) -> Option<Packet> {
    channels.uart_to_usb.try_receive().ok()
}

/// Builds the USB transfer that starts with `first` and continues with the
/// packets already waiting in the UART-to-USB channel, taken oldest first, until the
/// transfer holds `PACKET_CAPACITY` bytes or the queue is empty. The packet
/// that fills the transfer is cut off there.
///
/// The queue is drained without yielding, so no task running on the same
/// executor can refill it meanwhile: at most `CHANNEL_DEPTH` packets are
/// waiting, and at most that many are taken.
pub fn collect_usb_batch(first: &Packet, channels: &BridgeChannels) -> (b: Packet)
    ensures
        b.zero_padded(),
        exists|more: Seq<Seq<u8>>|
            #![trigger batched(seq![first@] + more)]
            more.len() <= CHANNEL_DEPTH
                && (forall|i: int| 0 <= i < more.len() ==> (#[trigger] more[i]).len() <= PACKET_CAPACITY)
                && b@ == batched(seq![first@] + more),
        first@.len() <= b@.len(),
        b@.take(first@.len() as int) == first@,
{
    let first_len = first.len();
    let mut batch = Packet::from_prefix(first.as_slice(), first_len);
    let mut more = first_len < PACKET_CAPACITY;
    let ghost mut taken: Seq<Seq<u8>> = Seq::empty();
    proof {
        assert(first@.take(first_len as int) =~= first@);
        lemma_concat_single(first@);
        assert(seq![first@] + taken =~= seq![first@]);
    }
    let mut count: usize = 0;
    while more && count < CHANNEL_DEPTH
        invariant
            batch.zero_padded(),
            more ==> batch@.len() < PACKET_CAPACITY,
            count <= CHANNEL_DEPTH,
            taken.len() <= count,
            forall|i: int| 0 <= i < taken.len() ==> (#[trigger] taken[i]).len() <= PACKET_CAPACITY,
            batch@ == batched(seq![first@] + taken),
        decreases CHANNEL_DEPTH - count,
    {
        let next = take_waiting_packet(channels);
        let ghost before = seq![first@] + taken;
        let ghost answered = next;
        let (extended, again) = extend_usb_batch(&batch, next);
        proof {
            if let Some(p) = answered {
                assert(batch@.len() < PACKET_CAPACITY);
                assert(batched(before) == concat_payloads(before));
                taken = taken.push(p@);
                assert((seq![first@] + taken).drop_last() =~= before);
                lemma_fit_append(concat_payloads(before), p@);
            }
        }
        batch = extended;
        more = again;
        count = count + 1;
    }
    proof {
        lemma_concat_len_grows(seq![first@], taken);
        lemma_concat_single(first@);
        let all = concat_payloads(seq![first@] + taken);
        assert(fit_in_packet(all).take(first_len as int) =~= all.take(first_len as int));
    }
    batch
}

} // verus!
