use crate::command::{uniform_motor, uniform_motor_spec, Command};
use vstd::prelude::*;

verus! {

/// Highest magnitude the standard ramp reaches.
pub const RAMP_PEAK: i8 = 100;

/// Pause between two ramp steps, in milliseconds.
pub const STEP_DELAY_MS: u64 = 50;

/// How long a constant drive is held, in milliseconds.
pub const HOLD_MS: u64 = 5000;

/// Drive level at position `step` of a ramp to `peak`: magnitudes
/// `0, 1, ..., peak` and then `peak, ..., 1, 0`, times `direction`.
pub open spec fn ramp_level(direction: i8, peak: i8, step: int) -> int {
    if step <= peak {
        step * direction
    } else {
        (2 * peak + 1 - step) * direction
    }
}

/// Number of commands in a ramp to `peak`.
pub open spec fn ramp_len(peak: i8) -> int {
    2 * (peak + 1)
}

/// The commands of a ramp: every motor at the same level, the magnitude
/// rising from 0 to `peak` and falling back to 0, with the sign of
/// `direction`.
pub fn ramp_plan(direction: i8, peak: i8) -> (r: Vec<Command>)
    requires
        direction == 1 || direction == -1,
        peak >= 0,
    ensures
        r@.len() == ramp_len(peak),
        forall|i: int|
            0 <= i < r@.len() ==> r@[i] == uniform_motor_spec(ramp_level(direction, peak, i) as i8),
{
    let mut r: Vec<Command> = Vec::new();
    let mut i: i8 = 0;
    while i < peak
        invariant
            direction == 1 || direction == -1,
            0 <= i <= peak,
            r@.len() == i,
            forall|j: int|
                0 <= j < r@.len() ==> r@[j] == uniform_motor_spec(
                    ramp_level(direction, peak, j) as i8,
                ),
        decreases peak - i,
    {
        r.push(uniform_motor(i * direction));
        i = i + 1;
    }
    r.push(uniform_motor(peak * direction));
    r.push(uniform_motor(peak * direction));
    let mut k: i8 = peak;
    while k > 0
        invariant
            direction == 1 || direction == -1,
            0 <= k <= peak,
            r@.len() == 2 * peak + 2 - k,
            forall|j: int|
                0 <= j < r@.len() ==> r@[j] == uniform_motor_spec(
                    ramp_level(direction, peak, j) as i8,
                ),
        decreases k,
    {
        k = k - 1;
        r.push(uniform_motor(k * direction));
    }
    r
}

/// Whether a constant drive is still to be held after `elapsed_ms`.
pub fn hold_continues(elapsed_ms: u64) -> (r: bool)
    ensures
        r == (elapsed_ms <= HOLD_MS),
{
    elapsed_ms <= HOLD_MS
}

/// Shape of a ramp to `peak`: it has `2 * (peak + 1)` steps (202 for the
/// standard peak), starts and ends at 0, rises by exactly one per step up to
/// the peak, repeats the peak once, then falls by exactly one per step; the
/// ramp in the negative direction is the positive one negated.
pub proof fn lemma_ramp_shape(peak: i8)
    requires
        peak >= 0,
    ensures
        ramp_len(RAMP_PEAK) == 202,
        ramp_level(1, peak, 0) == 0,
        ramp_level(1, peak, ramp_len(peak) - 1) == 0,
        ramp_level(1, peak, peak + 1) == ramp_level(1, peak, peak as int),
        forall|i: int| 0 < i <= peak ==> #[trigger] ramp_level(1, peak, i) == ramp_level(1, peak, i - 1) + 1,
        forall|i: int|
            peak + 1 < i < ramp_len(peak) ==> #[trigger] ramp_level(1, peak, i) == ramp_level(1, peak, i - 1)
                - 1,
        forall|i: int| 0 <= i < ramp_len(peak) ==> ramp_level(-1i8, peak, i) == -ramp_level(1, peak, i),
{
}

} // verus!
