use vstd::prelude::*;

verus! {

/// The shortest time a frame may be set to stay, in milliseconds.
pub const MIN_FRAME_DELAY: u32 = 10;

/// The longest time a frame may be set to stay, in milliseconds.
pub const MAX_FRAME_DELAY: u32 = 5000;

/// How long a frame stays where none is recorded for it, in milliseconds.
pub const DEFAULT_FRAME_DELAY: u32 = 100;

/// How long a frame stays that is recorded with a delay in hundredths of
/// a second, in milliseconds.
pub fn frame_delay_ms(hundredths: u16) -> (ms: u32)
    ensures
        ms == hundredths * 10,
{
    (hundredths as u32) * 10
}

/// The delay that is recorded for frame `index` on export, in hundredths
/// of a second: the frame's own, or the default where none is held, one
/// at least, and no more than a recorded delay can hold.
pub open spec fn spec_export_delay(delays: Seq<u32>, index: int) -> u16 {
    let ms = if 0 <= index < delays.len() {
        delays[index]
    } else {
        DEFAULT_FRAME_DELAY
    };
    if ms / 10 < 1 {
        1
    } else if ms / 10 > u16::MAX {
        u16::MAX
    } else {
        (ms / 10) as u16
    }
}

/// The delay that is recorded for frame `index` on export, in hundredths of
/// a second.
pub fn export_delay(delays: &Vec<u32>, index: usize) -> (hundredths: u16)
    ensures
        hundredths == spec_export_delay(delays@, index as int),
        hundredths >= 1,
{
    let ms = if index < delays.len() {
        delays[index]
    } else {
        DEFAULT_FRAME_DELAY
    };
    let hundredths = ms / 10;
    if hundredths < 1 {
        1
    } else if hundredths > u16::MAX as u32 {
        u16::MAX
    } else {
        hundredths as u16
    }
}

/// A delay that a person typed, brought into the range allowed.
pub fn clamp_frame_delay(ms: u32) -> (clamped: u32)
    ensures
        MIN_FRAME_DELAY <= clamped <= MAX_FRAME_DELAY,
        MIN_FRAME_DELAY <= ms <= MAX_FRAME_DELAY ==> clamped == ms,
        ms < MIN_FRAME_DELAY ==> clamped == MIN_FRAME_DELAY,
        ms > MAX_FRAME_DELAY ==> clamped == MAX_FRAME_DELAY,
{
    if ms < MIN_FRAME_DELAY {
        MIN_FRAME_DELAY
    } else if ms > MAX_FRAME_DELAY {
        MAX_FRAME_DELAY
    } else {
        ms
    }
}

/// The frame shown after frame `index` of `count`: the next, and the
/// first after the last.
pub fn next_frame(index: usize, count: usize) -> (next: usize)
    requires
        count > 0,
    ensures
        next == (index % count + 1) % (count as int),
        next < count,
{
    let here = index % count;
    if here + 1 == count {
        proof {
            vstd::arithmetic::div_mod::lemma_mod_self_0(count as int);
        }
        0
    } else {
        proof {
            vstd::arithmetic::div_mod::lemma_small_mod((here + 1) as nat, count as nat);
        }
        here + 1
    }
}

/// How long to wait before the frame after frame `index` is shown, in
/// milliseconds: the frame's delay, ten at least, or the default where
/// none is held.
pub fn tick_interval(delays: &Vec<u32>, index: usize) -> (ms: u64)
    ensures
        ms == (if index < delays@.len() {
            if delays@[index as int] < MIN_FRAME_DELAY {
                MIN_FRAME_DELAY
            } else {
                delays@[index as int]
            }
        } else {
            DEFAULT_FRAME_DELAY
        }),
{
    if index < delays.len() {
        let delay = delays[index];
        if delay < MIN_FRAME_DELAY {
            MIN_FRAME_DELAY as u64
        } else {
            delay as u64
        }
    } else {
        DEFAULT_FRAME_DELAY as u64
    }
}

} // verus!
