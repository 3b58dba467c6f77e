//! Planning a humanized key-sequence replay: each key gets a randomized hold
//! duration and a randomized inter-key delay, drawn within fixed bounds.

use vstd::prelude::*;
use crate::keys::KeyCode;

verus! {

/// Lower bound, inclusive, of a randomized key-hold duration in milliseconds.
pub const HOLD_MS_MIN: u64 = 80;

/// Upper bound, exclusive, of a randomized key-hold duration in milliseconds.
pub const HOLD_MS_MAX: u64 = 120;

/// Relies on rand's `random_range` (thread-local generator): it returns a
/// value inside the given range and panics only on an empty range, which the
/// precondition rules out. Nothing more is promised of a random draw.
#[verifier::external_body]
fn sample_range(lo: u64, hi: u64) -> (r: u64)
    requires
        lo < hi,
    ensures
        lo <= r < hi,
{
    rand::random_range(lo..hi)
}

/// One planned step of a key-sequence replay.
#[derive(Debug, Clone, Copy, PartialEq, Eq, Structural)]
pub struct PlannedKey {
    /// The key to press and release.
    pub key: KeyCode,
    /// How long to hold the key, in milliseconds.
    pub hold_ms: u64,
    /// How long to wait after releasing it before the next key, in
    /// milliseconds.
    pub delay_after_ms: u64,
}

/// Plans the replay of `keys` in order: every hold duration falls in the
/// fixed hold window, and every inter-key delay falls in
/// `min_delay..max_delay` when that range is nonempty and is 0 otherwise.
pub fn plan_key_sequence(keys: &[KeyCode], min_delay: u64, max_delay: u64) -> (plan: Vec<
    PlannedKey,
>)
    ensures
        plan@.len() == keys@.len(),
        forall|i: int| 0 <= i < plan@.len() ==> (#[trigger] plan@[i]).key == keys@[i],
        forall|i: int|
            0 <= i < plan@.len() ==> HOLD_MS_MIN <= (#[trigger] plan@[i]).hold_ms < HOLD_MS_MAX,
        forall|i: int|
            0 <= i < plan@.len() ==> if min_delay < max_delay {
                min_delay <= (#[trigger] plan@[i]).delay_after_ms < max_delay
            } else {
                (#[trigger] plan@[i]).delay_after_ms == 0
            },
{
    let mut plan: Vec<PlannedKey> = Vec::new();
    let mut i: usize = 0;
    while i < keys.len()
        invariant
            i <= keys@.len(),
            plan@.len() == i,
            forall|j: int| 0 <= j < i ==> (#[trigger] plan@[j]).key == keys@[j],
            forall|j: int|
                0 <= j < i ==> HOLD_MS_MIN <= (#[trigger] plan@[j]).hold_ms < HOLD_MS_MAX,
            forall|j: int|
                0 <= j < i ==> if min_delay < max_delay {
                    min_delay <= (#[trigger] plan@[j]).delay_after_ms < max_delay
                } else {
                    (#[trigger] plan@[j]).delay_after_ms == 0
                },
        decreases keys@.len() - i,
    {
        let hold_ms = sample_range(HOLD_MS_MIN, HOLD_MS_MAX);
        let delay_after_ms = if min_delay < max_delay {
            sample_range(min_delay, max_delay)
        } else {
            0
        };
        plan.push(PlannedKey { key: keys[i], hold_ms, delay_after_ms });
        i += 1;
    }
    plan
}

} // verus!
