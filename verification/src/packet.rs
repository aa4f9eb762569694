use vstd::prelude::*;

verus! {

/// Number of payload bytes a packet can carry (one full-speed USB packet).
pub const PACKET_CAPACITY: usize = 64;

/// `n` zero bytes.
pub open spec fn zero_bytes(n: nat) -> Seq<u8> {
    Seq::new(n, |i: int| 0u8)
}

/// A burst of at most `PACKET_CAPACITY` bytes travelling between the USB
/// side and the UART side of a bridge.
///
/// The buffer always has `PACKET_CAPACITY` bytes; only the first `len` of
/// them are the payload, and the rest are zero.
#[derive(Debug)]
pub struct Packet {
    data: [u8; 64],
    len: usize,
}

impl Packet {
    #[verifier::type_invariant]
    spec fn inv(self) -> bool {
        &&& self.len <= PACKET_CAPACITY
        &&& self.data@ == self.data@.take(self.len as int) + zero_bytes((PACKET_CAPACITY - self.len) as nat)
    }

    /// The whole buffer, payload and padding.
    pub closed spec fn buffer(self) -> Seq<u8> {
        self.data@
    }

    /// The buffer is the payload followed by zeros.
    pub open spec fn zero_padded(self) -> bool {
        self.buffer() == self@ + zero_bytes((PACKET_CAPACITY - self@.len()) as nat)
    }

    /// Builds a packet whose payload is a copy of `src`; the rest of the
    /// buffer is zero.
    pub fn new(src: &[u8]) -> (p: Packet)
        requires
            src@.len() <= PACKET_CAPACITY,
        ensures
            p@ == src@,
            p.zero_padded(),
    {
        Self::from_prefix(src, src.len())
    }

    /// Builds a packet from the first `n` bytes of `src`; the rest of the
    /// buffer is zero.
    pub fn from_prefix(src: &[u8], n: usize) -> (p: Packet)
        requires
            n <= src@.len(),
            n <= PACKET_CAPACITY,
        ensures
            p@ == src@.take(n as int),
            p.zero_padded(),
    {
        let mut data = [0u8; 64];
        let mut i: usize = 0;
        while i < n
            invariant
                i <= n,
                n <= src@.len(),
                n <= PACKET_CAPACITY,
                data@.len() == PACKET_CAPACITY,
                forall|k: int| 0 <= k < i ==> data@[k] == src@[k],
                forall|k: int| i <= k < PACKET_CAPACITY ==> data@[k] == 0u8,
            decreases n - i,
        {
            data[i] = src[i];
            i = i + 1;
        }
        assert(data@.take(n as int) =~= src@.take(n as int));
        assert(data@ =~= data@.take(n as int) + zero_bytes((PACKET_CAPACITY - n) as nat));
        let p = Packet { data, len: n };
        p
    }

    /// The payload bytes.
    pub fn as_slice(&self) -> (s: &[u8])
        ensures
            s@ == self@,
    {
        proof {
            use_type_invariant(self);
        }
        vstd::slice::slice_subrange(self.data.as_slice(), 0, self.len)
    }

    /// Length of the payload.
    pub fn len(&self) -> (n: usize)
        ensures
            n == self@.len(),
            n <= PACKET_CAPACITY,
    {
        proof {
            use_type_invariant(self);
        }
        self.len
    }

    /// The whole buffer, of which the payload is a prefix.
    pub fn data(&self) -> (d: &[u8; 64])
        ensures
            d@ == self.buffer(),
            d@.len() == PACKET_CAPACITY,
            d@.take(self@.len() as int) == self@,
            d@ == self@ + zero_bytes((PACKET_CAPACITY - self@.len()) as nat),
    {
        proof {
            use_type_invariant(self);
        }
        &self.data
    }
}

impl View for Packet {
    type V = Seq<u8>;

    /// The payload bytes.
    closed spec fn view(&self) -> Seq<u8> {
        self.data@.take(self.len as int)
    }
}

} // verus!
