use vstd::prelude::*;

verus! {

/// A frame count read as a signed 32-bit counter: counts beyond `i32::MAX`
/// wrap around to negative values.
pub open spec fn wrap_i32(v: u32) -> int {
    if v <= i32::MAX {
        v as int
    } else {
        v - 0x1_0000_0000
    }
}

/// Converts a frame count to a signed counter, wrapping as `as` does.
pub fn to_counter(v: u32) -> (r: i32)
    ensures
        r == wrap_i32(v),
{
    let r = v as i32;
    assert(v <= 0x7fff_ffff ==> r == v) by (bit_vector)
        requires
            r == v as i32,
    ;
    assert(v > 0x7fff_ffff ==> r == v - 0x1_0000_0000) by (bit_vector)
        requires
            r == v as i32,
    ;
    r
}

/// One step of a frame counter that counts down: `frames` frames pass and
/// the counter is used up once it reaches zero or less.
pub open spec fn spec_tick(v: int, frames: int) -> (int, bool) {
    (v - frames, v - frames <= 0)
}

/// The counter after `n` steps of `frames` frames each.
pub open spec fn spec_ticks(v: int, frames: int, n: nat) -> int
    decreases n,
{
    if n == 0 {
        v
    } else {
        spec_tick(spec_ticks(v, frames, (n - 1) as nat), frames).0
    }
}

/// Whether the `n`-th step (counting from 1) reports the counter used up.
pub open spec fn used_up_at(v: int, frames: int, n: nat) -> bool
    recommends
        n >= 1,
{
    spec_tick(spec_ticks(v, frames, (n - 1) as nat), frames).1
}

/// The counter after `n` steps is its start value less `n` times the
/// frames per step.
pub proof fn lemma_ticks_value(v: int, frames: int, n: nat)
    requires
        frames >= 0,
    ensures
        spec_ticks(v, frames, n) == v - n * frames,
    decreases n,
{
    if n > 0 {
        assert((n - 1) * frames <= n * frames) by (nonlinear_arith)
            requires
                n >= 1,
                frames >= 0,
        ;
        lemma_ticks_value(v, frames, (n - 1) as nat);
        assert(n * frames == (n - 1) * frames + frames) by (nonlinear_arith)
            requires
                n >= 1,
        ;
        assert(spec_ticks(v, frames, n) == spec_ticks(v, frames, (n - 1) as nat) - frames);
    } else {
        assert(n * frames == 0) by (nonlinear_arith)
            requires
                n == 0,
        ;
    }
}

/// A counter started at `v` frames, lowered by `frames` per step, is
/// reported used up at exactly the steps that complete `v` frames or more.
pub proof fn lemma_used_up_at(v: int, frames: int, n: nat)
    requires
        n >= 1,
        frames >= 0,
    ensures
        used_up_at(v, frames, n) == (n * frames >= v),
{
    assert((n - 1) * frames <= n * frames) by (nonlinear_arith)
        requires
            n >= 1,
            frames >= 0,
    ;
    lemma_ticks_value(v, frames, (n - 1) as nat);
    assert(n * frames == (n - 1) * frames + frames) by (nonlinear_arith)
        requires
            n >= 1,
    ;
}

} // verus!
