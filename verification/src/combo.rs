//! Combos: a named synthetic key sequence with per-step timing, bound to the
//! trigger that fires it, plus the rules that decide firing and suppression.

use vstd::prelude::*;
use crate::keys::{ActionKey, KeyCode};
use crate::history::KeyHistory;

verus! {

/// The condition that fires a combo.
#[derive(Debug, Clone)]
pub enum TriggerType {
    /// Fires whenever this key is pressed.
    SingleKey(KeyCode),
    /// Fires when `keys` were pressed in order, the last of them being the
    /// incoming press, with no more than `timeout_ms` from first to last.
    KeySequence { keys: Vec<KeyCode>, timeout_ms: u64 },
    /// Fires when `key` is pressed while `modifier` is held.
    KeyModifier { modifier: KeyCode, key: KeyCode },
    /// Never fires on its own.
    Manual,
}

/// A sequence trigger carries at least one key; the other variants carry no
/// structural obligation.
pub open spec fn trigger_wf(t: &TriggerType) -> bool {
    match *t {
        TriggerType::KeySequence { keys, .. } => keys@.len() >= 1,
        _ => true,
    }
}

/// A named, ordered sequence of synthetic input actions with per-step delays,
/// bound to a trigger.
#[derive(Debug, Clone)]
pub struct Combo {
    /// Display name.
    pub name: String,
    /// The synthetic actions replayed when the combo fires, in order.
    pub sequence: Vec<ActionKey>,
    /// Per-step `(before_ms, after_ms)` delays; steps past the end of this
    /// list use `(0, 0)`.
    pub delays: Vec<(u64, u64)>,
    /// The condition that fires this combo.
    pub trigger: TriggerType,
    /// Whether the triggering key press is withheld from the application.
    pub block_original_input: bool,
    /// Inactive combos never fire.
    pub active: bool,
}

/// The suppression rule: the combo asks for suppression, its trigger is a key
/// sequence of more than one key ending in the incoming key, the presses just
/// before the incoming key match the sequence's earlier keys in order, and
/// the observed interval is within the trigger's own window. Only then is the
/// finishing key of the sequence withheld.
pub open spec fn should_block_spec(
    c: &Combo,
    key: KeyCode,
    recent: Seq<KeyCode>,
    observed_ms: u64,
) -> bool {
    &&& c.block_original_input
    &&& match c.trigger {
        TriggerType::KeySequence { keys, timeout_ms } => {
            let n = keys@.len() as int;
            &&& n > 1
            &&& keys@.last() == key
            &&& recent.len() >= n - 1
            &&& (forall|i: int| 0 <= i < n - 1 ==> recent[recent.len() - (n - 1) + i] == keys@[i])
            &&& observed_ms <= timeout_ms
        },
        _ => false,
    }
}

/// Whether an active check of `c`'s trigger succeeds for the incoming press
/// of `key` against the history `h` (which already includes that press).
pub open spec fn should_trigger_spec(c: &Combo, key: KeyCode, h: &KeyHistory) -> bool
    recommends
        c.wf(),
{
    match c.trigger {
        TriggerType::SingleKey(t) => t == key,
        TriggerType::KeySequence { keys, timeout_ms } => {
            &&& keys@.len() >= 1
            &&& keys@.last() == key
            &&& h.seq_match(keys@, timeout_ms)
        },
        TriggerType::KeyModifier { modifier, key: t } => t == key && h.modifier_match(
            modifier,
            key,
        ),
        TriggerType::Manual => false,
    }
}

impl Combo {
    /// Structural invariant.
    pub open spec fn wf(&self) -> bool {
        trigger_wf(&self.trigger)
    }

    /// A new, active combo.
    pub fn new(
        name: String,
        sequence: Vec<ActionKey>,
        delays: Vec<(u64, u64)>,
        trigger: TriggerType,
        block_original_input: bool,
    ) -> (c: Combo)
        ensures
            c.name == name,
            c.sequence == sequence,
            c.delays == delays,
            c.trigger == trigger,
            c.block_original_input == block_original_input,
            c.active,
    {
        Combo { name, sequence, delays, trigger, block_original_input, active: true }
    }

    /// Decides whether the incoming press of `key` must be withheld from the
    /// application because it finishes this combo's key-sequence trigger.
    #[verifier::loop_isolation(false)]
    pub fn should_block_input(&self, key: KeyCode, key_sequence: &[KeyCode], timeout_ms: u64) -> (r:
        bool)
        ensures
            r == should_block_spec(self, key, key_sequence@, timeout_ms),
    {
        if !self.block_original_input {
            return false;
        }
        match &self.trigger {
            TriggerType::KeySequence { keys, timeout_ms: trigger_timeout } => {
                let n = keys.len();
                let m = key_sequence.len();
                if n > 1 && keys[n - 1] == key && m >= n - 1 {
                    let start = m - (n - 1);
                    let mut i: usize = 0;
                    while i < n - 1
                        invariant
                            n > 1,
                            n == keys@.len(),
                            m == key_sequence@.len(),
                            m >= n - 1,
                            start == m - (n - 1),
                            i <= n - 1,
                            forall|j: int| 0 <= j < i ==> key_sequence@[start + j] == keys@[j],
                        decreases n - 1 - i,
                    {
                        if key_sequence[start + i] != keys[i] {
                            proof {
                                let gi = i as int;
                                assert(key_sequence@[key_sequence@.len() - (keys@.len() - 1) + gi]
                                    != keys@[gi]);
                            }
                            return false;
                        }
                        i += 1;
                    }
                    timeout_ms <= *trigger_timeout
                } else {
                    false
                }
            },
            _ => false,
        }
    }

    /// The timed replay plan of this combo: for each step, the synthetic key
    /// and the delays to observe before and after it; steps without a
    /// configured delay pair use `(0, 0)`.
    pub fn execution_steps(&self) -> (steps: Vec<(ActionKey, u64, u64)>)
        ensures
            steps@.len() == self.sequence@.len(),
            forall|i: int|
                0 <= i < steps@.len() ==> #[trigger] steps@[i] == (
                    self.sequence@[i],
                    if i < self.delays@.len() {
                        self.delays@[i].0
                    } else {
                        0u64
                    },
                    if i < self.delays@.len() {
                        self.delays@[i].1
                    } else {
                        0u64
                    },
                ),
    {
        let mut steps: Vec<(ActionKey, u64, u64)> = Vec::new();
        let mut idx: usize = 0;
        while idx < self.sequence.len()
            invariant
                idx <= self.sequence@.len(),
                steps@.len() == idx,
                forall|i: int|
                    0 <= i < idx ==> #[trigger] steps@[i] == (
                        self.sequence@[i],
                        if i < self.delays@.len() {
                            self.delays@[i].0
                        } else {
                            0u64
                        },
                        if i < self.delays@.len() {
                            self.delays@[i].1
                        } else {
                            0u64
                        },
                    ),
            decreases self.sequence@.len() - idx,
        {
            let (before_ms, after_ms) = if idx < self.delays.len() {
                self.delays[idx]
            } else {
                (0, 0)
            };
            steps.push((self.sequence[idx], before_ms, after_ms));
            idx += 1;
        }
        steps
    }
}

} // verus!
