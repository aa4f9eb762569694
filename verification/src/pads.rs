use vstd::prelude::*;

verus! {

/// Address of the first register of the GPIO pad control bank.
pub const PAD_BANK0_BASE: u32 = 0x4001_c000;
/// The pull-up enable bit of a pad control register.
pub const PULL_UP_ENABLE: u32 = 0x8;

/// Address of the pad control register of GPIO `pin`: the bank starts with
/// one voltage-select register, then one register per pin.
pub fn pad_control_address(pin: u32) -> (a: u32)
    requires
        PAD_BANK0_BASE + pin * 4 + 4 <= u32::MAX,
    ensures
        a == PAD_BANK0_BASE + pin * 4 + 4,
{
    PAD_BANK0_BASE + pin * 4 + 4
}

/// The pad control value `reg` with the pull-up enabled.
pub fn with_pull_up(reg: u32) -> (v: u32)
    ensures
        v == reg | PULL_UP_ENABLE,
        v & PULL_UP_ENABLE == PULL_UP_ENABLE,
        v & !PULL_UP_ENABLE == reg & !PULL_UP_ENABLE,
{
    let v = reg | (1u32 << 3u32);
    assert(1u32 << 3u32 == 8u32) by (bit_vector);
    assert(v & 8u32 == 8u32 && v & !8u32 == reg & !8u32) by (bit_vector)
        requires
            v == reg | 8u32,
    ;
    v
}

/// Enabling the pull-up changes no other bit, and enabling it again changes
/// nothing.
pub proof fn lemma_pull_up_idempotent(reg: u32)
    ensures
        (reg | PULL_UP_ENABLE) | PULL_UP_ENABLE == reg | PULL_UP_ENABLE,
        (reg | PULL_UP_ENABLE) & !PULL_UP_ENABLE == reg & !PULL_UP_ENABLE,
{
    assert((reg | 8u32) | 8u32 == reg | 8u32) by (bit_vector);
    assert((reg | 8u32) & !8u32 == reg & !8u32) by (bit_vector);
}

} // verus!
