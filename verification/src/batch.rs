use vstd::prelude::*;

use crate::packet::{Packet, PACKET_CAPACITY};

verus! {

/// The payloads of `ps`, one after the other.
pub open spec fn concat_payloads(ps: Seq<Seq<u8>>) -> Seq<u8>
    decreases ps.len(),
{
    if ps.len() == 0 {
        Seq::empty()
    } else {
        concat_payloads(ps.drop_last()) + ps.last()
    }
}

/// One payload, concatenated, is itself.
pub proof fn lemma_concat_single(x: Seq<u8>)
    ensures
        concat_payloads(seq![x]) == x,
{
    reveal_with_fuel(concat_payloads, 2);
    assert(seq![x].drop_last() =~= Seq::<Seq<u8>>::empty());
    assert(Seq::<u8>::empty() + x =~= x);
}

/// `bytes` cut down to what fits in one USB packet.
pub open spec fn fit_in_packet(bytes: Seq<u8>) -> Seq<u8> {
    if bytes.len() <= PACKET_CAPACITY {
        bytes
    } else {
        bytes.take(PACKET_CAPACITY as int)
    }
}

/// What one USB transfer carries when the payloads `ps` are batched into it:
/// the payloads in order, cut off once the transfer is full.
pub open spec fn batched(ps: Seq<Seq<u8>>) -> Seq<u8> {
    fit_in_packet(concat_payloads(ps))
}

/// The payloads of a sequence of packets.
pub open spec fn payloads(ps: Seq<Packet>) -> Seq<Seq<u8>> {
    ps.map_values(|p: Packet| p@)
}

/// A USB transfer never holds more than one packet's worth of bytes, and
/// those bytes are the start of the batched payloads, in order: batching
/// only ever cuts at the end, and cuts only when the payloads do not fit.
pub proof fn lemma_batched_is_prefix(ps: Seq<Seq<u8>>)
    ensures
        batched(ps).len() <= PACKET_CAPACITY,
        batched(ps) == concat_payloads(ps).take(batched(ps).len() as int),
        batched(ps).len() < concat_payloads(ps).len() ==> batched(ps).len() == PACKET_CAPACITY,
{
    let c = concat_payloads(ps);
    if c.len() <= PACKET_CAPACITY {
        assert(c.take(c.len() as int) =~= c);
    }
}

/// Cutting twice is cutting once: appending to an already full transfer
/// changes nothing.
pub proof fn lemma_fit_append(a: Seq<u8>, b: Seq<u8>)
    ensures
        fit_in_packet(fit_in_packet(a) + b) == fit_in_packet(a + b),
{
    if a.len() <= PACKET_CAPACITY {
    } else {
        assert(fit_in_packet(a) + b =~= a.take(PACKET_CAPACITY as int) + b);
        assert((a.take(PACKET_CAPACITY as int) + b).take(PACKET_CAPACITY as int)
            =~= a.take(PACKET_CAPACITY as int));
        assert((a + b).take(PACKET_CAPACITY as int) =~= a.take(PACKET_CAPACITY as int));
    }
}

/// Once a transfer is full, further payloads are not part of it.
pub proof fn lemma_batched_full_ignores_rest(ps: Seq<Seq<u8>>, more: Seq<Seq<u8>>)
    requires
        concat_payloads(ps).len() >= PACKET_CAPACITY,
    ensures
        batched(ps + more) == batched(ps),
    decreases more.len(),
{
    if more.len() == 0 {
        assert(ps + more =~= ps);
    } else {
        lemma_batched_full_ignores_rest(ps, more.drop_last());
        assert((ps + more).drop_last() =~= ps + more.drop_last());
        lemma_concat_len_grows(ps, more.drop_last());
        let c = concat_payloads(ps + more.drop_last());
        assert(concat_payloads(ps + more) == c + more.last());
        assert((c + more.last()).take(PACKET_CAPACITY as int) =~= c.take(PACKET_CAPACITY as int));
    }
}

/// Appending payloads never shortens the concatenation, and keeps it as a prefix.
pub proof fn lemma_concat_len_grows(ps: Seq<Seq<u8>>, more: Seq<Seq<u8>>)
    ensures
        concat_payloads(ps + more).len() >= concat_payloads(ps).len(),
        concat_payloads(ps + more).take(concat_payloads(ps).len() as int) == concat_payloads(ps),
    decreases more.len(),
{
    if more.len() == 0 {
        assert(ps + more =~= ps);
        assert(concat_payloads(ps).take(concat_payloads(ps).len() as int) =~= concat_payloads(ps));
    } else {
        lemma_concat_len_grows(ps, more.drop_last());
        assert((ps + more).drop_last() =~= ps + more.drop_last());
        let c = concat_payloads(ps + more.drop_last());
        let k = concat_payloads(ps).len() as int;
        assert((c + more.last()).take(k) =~= c.take(k));
    }
}

/// Appends the payload of `p` to the transfer buffer `buf`, whose first `*n`
/// bytes are in use, stopping when the buffer is full.
fn absorb(buf: &mut [u8; 64], n: &mut usize, p: &Packet)
    requires
        *old(n) <= PACKET_CAPACITY,
    ensures
        p@.len() <= PACKET_CAPACITY,
        *final(n) <= PACKET_CAPACITY,
        *final(n) == if *old(n) + p@.len() <= PACKET_CAPACITY {
            *old(n) + p@.len()
        } else {
            PACKET_CAPACITY as int
        },
        final(buf)@.take(*final(n) as int) == fit_in_packet(old(buf)@.take(*old(n) as int) + p@),
{
    let ghost start = buf@.take(*n as int);
    let src = p.as_slice();
    let plen = p.len();
    let mut i: usize = 0;
    while i < plen && *n < PACKET_CAPACITY
        invariant
            plen == src@.len(),
            src@ == p@,
            i <= plen,
            *n <= PACKET_CAPACITY,
            *n == start.len() + i,
            buf@.len() == PACKET_CAPACITY,
            buf@.take(*n as int) == fit_in_packet(start + p@.take(i as int)),
            *n < PACKET_CAPACITY ==> buf@.take(*n as int) == start + p@.take(i as int),
        decreases plen - i,
    {
        let ghost before = buf@.take(*n as int);
        buf[*n] = src[i];
        *n = *n + 1;
        i = i + 1;
        assert(p@.take(i as int) =~= p@.take(i - 1) + seq![src@[i - 1]]);
        assert(buf@.take(*n as int) =~= before + seq![src@[i - 1]]);
        assert(start + p@.take(i as int) =~= (start + p@.take(i - 1)) + seq![src@[i - 1]]);
    }
    proof {
        if i == plen {
            assert(p@.take(i as int) =~= p@);
        } else {
            // the buffer filled up before the payload ended
            let whole = start + p@;
            let part = start + p@.take(i as int);
            assert(part.len() == PACKET_CAPACITY);
            assert(whole.take(PACKET_CAPACITY as int) =~= part);
        }
    }
}

/// One step of building a USB transfer: `next` is what the queue of waiting
/// packets answered. A packet is appended to `batch`, cut off where the
/// transfer is full; an empty queue (`None`) leaves the transfer as it is.
/// The flag says whether to ask the queue again: only after a packet, and
/// only while the transfer is not full.
pub fn extend_usb_batch(batch: &Packet, next: Option<Packet>) -> (r: (Packet, bool))
    ensures
        r.0.zero_padded(),
        next matches Some(p) ==> p@.len() <= PACKET_CAPACITY,
        match next {
            Some(p) => r.0@ == fit_in_packet(batch@ + p@) && r.1 == (r.0@.len() < PACKET_CAPACITY),
            None => r.0@ == batch@ && !r.1,
        },
{
    match next {
        Some(p) => {
            let mut buf: [u8; 64] = *batch.data();
            let mut n: usize = batch.len();
            absorb(&mut buf, &mut n, &p);
            let out = Packet::from_prefix(buf.as_slice(), n);
            (out, n < PACKET_CAPACITY)
        },
        None => {
            let n = batch.len();
            assert(batch@.take(n as int) =~= batch@);
            (Packet::from_prefix(batch.as_slice(), n), false)
        },
    }
}

/// Batches `packets` into one USB transfer: their payloads in order, cut off
/// after `PACKET_CAPACITY` bytes. Returns the transfer and its length.
pub fn batch_packets(packets: &[Packet]) -> (r: (Vec<u8>, usize))
    ensures
        r.0@ == batched(payloads(packets@)),
        r.1 == r.0@.len(),
        r.1 <= PACKET_CAPACITY,
{
    let mut buf = [0u8; 64];
    let mut n: usize = 0;
    let mut k: usize = 0;
    assert(payloads(packets@.take(0)) =~= Seq::<Seq<u8>>::empty());
    while k < packets.len() && n < PACKET_CAPACITY
        invariant
            k <= packets@.len(),
            n <= PACKET_CAPACITY,
            buf@.len() == PACKET_CAPACITY,
            buf@.take(n as int) == batched(payloads(packets@.take(k as int))),
            n < PACKET_CAPACITY ==> concat_payloads(payloads(packets@.take(k as int))).len() == n,
        decreases packets@.len() - k,
    {
        let ghost before = payloads(packets@.take(k as int));
        absorb(&mut buf, &mut n, &packets[k]);
        k = k + 1;
        proof {
            let now = payloads(packets@.take(k as int));
            assert(now =~= before.push(packets@[k - 1]@));
            assert(now.drop_last() =~= before);
            lemma_fit_append(concat_payloads(before), packets@[k - 1]@);
        }
    }
    proof {
        let done = payloads(packets@.take(k as int));
        if k < packets@.len() {
            // the transfer is full: the remaining packets do not matter
            let rest = payloads(packets@.skip(k as int));
            assert(done + rest =~= payloads(packets@));
            lemma_batched_full_ignores_rest(done, rest);
        } else {
            assert(packets@.take(k as int) =~= packets@);
        }
    }
    let out = vstd::slice::slice_to_vec(vstd::slice::slice_subrange(buf.as_slice(), 0, n));
    (out, n)
}

} // verus!
