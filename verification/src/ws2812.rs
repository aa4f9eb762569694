use vstd::prelude::*;

verus! {

/// CPU cycles the data line stays high for a one bit.
pub const ONE_HIGH_CYCLES: u32 = 80;
/// CPU cycles the data line stays low after a one bit.
pub const ONE_LOW_CYCLES: u32 = 44;
/// CPU cycles the data line stays high for a zero bit.
pub const ZERO_HIGH_CYCLES: u32 = 26;
/// CPU cycles the data line stays low after a zero bit.
pub const ZERO_LOW_CYCLES: u32 = 90;
/// CPU cycles of low line (about 60 µs) that reset the LED before a retry.
pub const RESET_CYCLES: u32 = 7500;
/// Longest time, in microseconds, that sending one frame may take; a slower
/// frame was stretched by an interrupt and is sent again.
pub const MAX_FRAME_MICROS: u32 = 38;
/// Number of bits in one frame: green, red and blue, eight bits each.
pub const FRAME_BITS: usize = 24;

/// Bit `i` of the frame for the colour (`r`, `g`, `b`): the LED takes green,
/// then red, then blue, each most significant bit first.
pub open spec fn color_bit(r: u8, g: u8, b: u8, i: int) -> bool {
    let byte = if i < 8 {
        g
    } else if i < 16 {
        r
    } else {
        b
    };
    (byte >> ((7 - i % 8) as u8)) & 1u8 == 1u8
}

/// The bits of the frame for the colour (`r`, `g`, `b`).
pub open spec fn frame_bits(r: u8, g: u8, b: u8) -> Seq<bool> {
    Seq::new(FRAME_BITS as nat, |i: int| color_bit(r, g, b, i))
}

/// The value of eight bits, most significant first.
pub open spec fn byte_value(bits: Seq<bool>) -> int {
    (if bits[0] { 128int } else { 0int }) + (if bits[1] { 64int } else { 0int }) + (if bits[2] {
        32int
    } else {
        0int
    }) + (if bits[3] { 16int } else { 0int }) + (if bits[4] { 8int } else { 0int }) + (if bits[5] {
        4int
    } else {
        0int
    }) + (if bits[6] { 2int } else { 0int }) + (if bits[7] { 1int } else { 0int })
}

/// How long the data line stays high, then low, to send one bit.
#[derive(Debug, Clone, Copy, PartialEq, Eq, Structural)]
pub struct Pulse {
    pub high_cycles: u32,
    pub low_cycles: u32,
}

/// The pulse that sends `bit`.
pub open spec fn pulse_for(bit: bool) -> Pulse {
    if bit {
        Pulse { high_cycles: ONE_HIGH_CYCLES, low_cycles: ONE_LOW_CYCLES }
    } else {
        Pulse { high_cycles: ZERO_HIGH_CYCLES, low_cycles: ZERO_LOW_CYCLES }
    }
}

/// The pulse that sends `bit`.
pub fn bit_pulse(bit: bool) -> (p: Pulse)
    ensures
        p == pulse_for(bit),
{
    if bit {
        Pulse { high_cycles: ONE_HIGH_CYCLES, low_cycles: ONE_LOW_CYCLES }
    } else {
        Pulse { high_cycles: ZERO_HIGH_CYCLES, low_cycles: ZERO_LOW_CYCLES }
    }
}

/// The pulses that send the colour (`r`, `g`, `b`) to the LED, in order.
pub fn frame_pulses(r: u8, g: u8, b: u8) -> (ps: [Pulse; 24])
    ensures
        forall|i: int| 0 <= i < FRAME_BITS ==> #[trigger] ps@[i] == pulse_for(frame_bits(r, g, b)[i]),
{
    let colors: [u8; 3] = [g, r, b];
    let zero = bit_pulse(false);
    let mut ps: [Pulse; 24] = [zero; 24];
    let mut k: usize = 0;
    while k < 3
        invariant
            k <= 3,
            colors@ == seq![g, r, b],
            ps@.len() == FRAME_BITS,
            forall|i: int| 0 <= i < 8 * k ==> #[trigger] ps@[i] == pulse_for(color_bit(r, g, b, i)),
        decreases 3 - k,
    {
        let byte = colors[k];
        let mut bit: u8 = 8;
        while bit > 0
            invariant
                k < 3,
                byte == colors@[k as int],
                colors@ == seq![g, r, b],
                bit <= 8,
                ps@.len() == FRAME_BITS,
                forall|i: int| 0 <= i < 8 * k + (8 - bit) ==> #[trigger] ps@[i] == pulse_for(color_bit(r, g, b, i)),
            decreases bit,
        {
            bit = bit - 1;
            let is_high = (byte >> bit) & 1 == 1;
            let i: usize = 8 * k + (7 - bit as usize);
            ps[i] = bit_pulse(is_high);
            proof {
                assert(i as int % 8 == 7 - bit);
                assert(ps@[i as int] == pulse_for(color_bit(r, g, b, i as int)));
            }
        }
        k = k + 1;
    }
    ps
}

/// Whether a frame whose sending started at timer reading `start` and ended
/// at `end` (microseconds, wrapping at 2^32) took too long.
pub fn frame_corrupted(start: u32, end: u32) -> (c: bool)
    ensures
        c == ((end as int - start as int + 0x1_0000_0000) % 0x1_0000_0000 > MAX_FRAME_MICROS),
{
    let elapsed = end.wrapping_sub(start);
    elapsed > MAX_FRAME_MICROS
}

/// Each eight bits of the frame carry one colour byte, green first, then red,
/// then blue.
pub proof fn lemma_frame_carries_color(r: u8, g: u8, b: u8)
    ensures
        byte_value(frame_bits(r, g, b).subrange(0, 8)) == g,
        byte_value(frame_bits(r, g, b).subrange(8, 16)) == r,
        byte_value(frame_bits(r, g, b).subrange(16, 24)) == b,
{
    lemma_byte_bits(g);
    lemma_byte_bits(r);
    lemma_byte_bits(b);
    assert(forall|i: int| 0 <= i < 8 ==> (#[trigger] (i + 8)) % 8 == i % 8);
    assert(forall|i: int| 0 <= i < 8 ==> (#[trigger] (i + 16)) % 8 == i % 8);
}

/// A byte is the sum of its bits.
proof fn lemma_byte_bits(x: u8)
    ensures
        x as int == (if (x >> 7u8) & 1u8 == 1u8 { 128int } else { 0int }) + (if (x >> 6u8) & 1u8
            == 1u8 {
            64int
        } else {
            0int
        }) + (if (x >> 5u8) & 1u8 == 1u8 { 32int } else { 0int }) + (if (x >> 4u8) & 1u8 == 1u8 {
            16int
        } else {
            0int
        }) + (if (x >> 3u8) & 1u8 == 1u8 { 8int } else { 0int }) + (if (x >> 2u8) & 1u8 == 1u8 {
            4int
        } else {
            0int
        }) + (if (x >> 1u8) & 1u8 == 1u8 { 2int } else { 0int }) + (if (x >> 0u8) & 1u8 == 1u8 {
            1int
        } else {
            0int
        }),
{
    assert(x as int == (if (x >> 7u8) & 1u8 == 1u8 { 128int } else { 0int }) + (if (x >> 6u8) & 1u8
        == 1u8 {
        64int
    } else {
        0int
    }) + (if (x >> 5u8) & 1u8 == 1u8 { 32int } else { 0int }) + (if (x >> 4u8) & 1u8 == 1u8 {
        16int
    } else {
        0int
    }) + (if (x >> 3u8) & 1u8 == 1u8 { 8int } else { 0int }) + (if (x >> 2u8) & 1u8 == 1u8 {
        4int
    } else {
        0int
    }) + (if (x >> 1u8) & 1u8 == 1u8 { 2int } else { 0int }) + (if (x >> 0u8) & 1u8 == 1u8 {
        1int
    } else {
        0int
    })) by (bit_vector);
}

} // verus!
