//! The action log: a rolling, capacity- and time-bounded record of observed
//! input, the set of currently held keys, and the recent keyboard-press
//! sequence that trigger matching reads.

use vstd::prelude::*;
use std::collections::VecDeque;
use crate::keys::{ActionKey, KeyCode};

verus! {

/// Whether an observed event was a press or a release.
#[derive(Debug, Clone, Copy, PartialEq, Eq, Structural)]
pub enum ActionType {
    Press,
    Release,
}

/// One observed input event, stamped with its capture time in milliseconds.
#[derive(Debug, Clone, Copy, PartialEq, Eq, Structural)]
pub struct Action {
    pub key: ActionKey,
    pub action_type: ActionType,
    pub timestamp: u64,
}

/// Milliseconds from `earlier` to `later`; zero when `later` is the earlier of
/// the two, mirroring how monotonic clock differences saturate.
pub open spec fn elapsed_ms(later: u64, earlier: u64) -> u64 {
    if later >= earlier {
        (later - earlier) as u64
    } else {
        0
    }
}

/// Executable twin of [`elapsed_ms`].
pub fn ms_between(later: u64, earlier: u64) -> (d: u64)
    ensures
        d == elapsed_ms(later, earlier),
{
    if later >= earlier {
        later - earlier
    } else {
        0
    }
}

/// Some entry of the association sequence has key `k`.
pub open spec fn key_in<K>(s: Seq<(K, u64)>, k: K) -> bool {
    exists|i: int| 0 <= i < s.len() && s[i].0 == k
}

/// The exact pair `(k, t)` is an entry of the association sequence.
pub open spec fn pair_in<K>(s: Seq<(K, u64)>, k: K, t: u64) -> bool {
    exists|i: int| 0 <= i < s.len() && s[i] == (k, t)
}

/// No two entries of the association sequence share a key.
pub open spec fn unique_keys<K>(s: Seq<(K, u64)>) -> bool {
    forall|i: int, j: int| 0 <= i < j < s.len() ==> s[i].0 != s[j].0
}

/// Removing the entry at `at` removes exactly the entries keyed by `s[at].0`.
pub proof fn lemma_remove_entry<K>(s: Seq<(K, u64)>, at: int)
    requires
        unique_keys(s),
        0 <= at < s.len(),
    ensures
        unique_keys(s.remove(at)),
        forall|k: K| #[trigger] key_in(s.remove(at), k) <==> key_in(s, k) && k != s[at].0,
        forall|k: K, t: u64| #[trigger]
            pair_in(s.remove(at), k, t) <==> pair_in(s, k, t) && k != s[at].0,
{
    let r = s.remove(at);
    s.remove_ensures(at);
    assert forall|k: K, t: u64| #[trigger] pair_in(r, k, t) implies pair_in(s, k, t) && k
        != s[at].0 by {
        let i = choose|i: int| 0 <= i < r.len() && r[i] == (k, t);
        if i < at {
            assert(s[i] == (k, t));
            assert(s[i].0 != s[at].0);
        } else {
            assert(s[i + 1] == (k, t));
            assert(s[i + 1].0 != s[at].0);
        }
    }
    assert forall|k: K, t: u64| pair_in(s, k, t) && k != s[at].0 implies #[trigger] pair_in(
        r,
        k,
        t,
    ) by {
        let i = choose|i: int| 0 <= i < s.len() && s[i] == (k, t);
        if i < at {
            assert(r[i] == (k, t));
        } else {
            assert(i != at);
            assert(r[i - 1] == (k, t));
        }
    }
    assert forall|k: K| #[trigger] key_in(r, k) implies key_in(s, k) && k != s[at].0 by {
        let i = choose|i: int| 0 <= i < r.len() && r[i].0 == k;
        assert(pair_in(r, k, r[i].1));
    }
    assert forall|k: K| key_in(s, k) && k != s[at].0 implies #[trigger] key_in(r, k) by {
        let i = choose|i: int| 0 <= i < s.len() && s[i].0 == k;
        assert(pair_in(s, k, s[i].1));
        assert(pair_in(r, k, s[i].1));
        let j = choose|j: int| 0 <= j < r.len() && r[j] == (k, s[i].1);
        assert(r[j].0 == k);
    }
}

/// Appending an entry extends membership by exactly that pair.
pub proof fn lemma_push_entry<K>(s: Seq<(K, u64)>, k: K, t: u64)
    ensures
        forall|k2: K| #[trigger] key_in(s.push((k, t)), k2) <==> key_in(s, k2) || k2 == k,
        forall|k2: K, t2: u64| #[trigger]
            pair_in(s.push((k, t)), k2, t2) <==> pair_in(s, k2, t2) || (k2 == k && t2 == t),
        !key_in(s, k) && unique_keys(s) ==> unique_keys(s.push((k, t))),
{
    let r = s.push((k, t));
    assert(r[s.len() as int] == (k, t));
    assert forall|k2: K, t2: u64| #[trigger] pair_in(r, k2, t2) implies pair_in(s, k2, t2) || (k2
        == k && t2 == t) by {
        let i = choose|i: int| 0 <= i < r.len() && r[i] == (k2, t2);
        if i < s.len() {
            assert(s[i] == (k2, t2));
        }
    }
    assert forall|k2: K, t2: u64| pair_in(s, k2, t2) implies #[trigger] pair_in(r, k2, t2) by {
        let i = choose|i: int| 0 <= i < s.len() && s[i] == (k2, t2);
        assert(r[i] == (k2, t2));
    }
    assert forall|k2: K| #[trigger] key_in(r, k2) implies key_in(s, k2) || k2 == k by {
        let i = choose|i: int| 0 <= i < r.len() && r[i].0 == k2;
        if i < s.len() {
            assert(s[i].0 == k2);
        }
    }
    assert forall|k2: K| key_in(s, k2) implies #[trigger] key_in(r, k2) by {
        let i = choose|i: int| 0 <= i < s.len() && s[i].0 == k2;
        assert(r[i].0 == k2);
    }
    if !key_in(s, k) && unique_keys(s) {
        assert forall|i: int, j: int| 0 <= i < j < r.len() implies r[i].0 != r[j].0 by {
            if j == s.len() {
                assert(r[i].0 == s[i].0);
                assert(!(s[i].0 == k)) by {
                    if s[i].0 == k {
                        assert(key_in(s, k));
                    }
                }
            }
        }
    }
}

/// Entries whose timestamps are in nondecreasing order.
pub open spec fn stamps_sorted(s: Seq<(KeyCode, u64)>) -> bool {
    forall|i: int, j: int| 0 <= i <= j < s.len() ==> s[i].1 <= s[j].1
}

/// Actions whose timestamps are in nondecreasing order.
pub open spec fn actions_sorted(s: Seq<Action>) -> bool {
    forall|i: int, j: int| 0 <= i <= j < s.len() ==> s[i].timestamp <= s[j].timestamp
}

/// Drops entries from the front of the log for as long as the front entry is
/// older than `timeout` milliseconds before `now`.
pub open spec fn evict_expired(s: Seq<Action>, now: u64, timeout: u64) -> Seq<Action>
    decreases s.len(),
{
    if s.len() > 0 && elapsed_ms(now, s.first().timestamp) > timeout {
        evict_expired(s.drop_first(), now, timeout)
    } else {
        s
    }
}

/// The log after recording `a`: expired entries leave the front, `a` is
/// appended, and the oldest entry leaves if the capacity `max` is exceeded.
pub open spec fn log_step(s: Seq<Action>, a: Action, max: int, timeout: u64) -> Seq<Action> {
    let grown = evict_expired(s, a.timestamp, timeout).push(a);
    if grown.len() > max {
        grown.drop_first()
    } else {
        grown
    }
}

/// The recent keyboard-press sequence after recording `a`: a keyboard press is
/// appended (evicting the oldest entry past the capacity `cap`); anything else
/// leaves the sequence unchanged.
pub open spec fn recent_step(s: Seq<(KeyCode, u64)>, a: Action, cap: int) -> Seq<(KeyCode, u64)> {
    match a.key {
        ActionKey::Keyboard(k) => {
            if a.action_type is Press {
                let grown = s.push((k, a.timestamp));
                if grown.len() > cap {
                    grown.drop_first()
                } else {
                    grown
                }
            } else {
                s
            }
        },
        ActionKey::Mouse(_) => s,
    }
}

/// How the held-key table changes when `a` is recorded: a press binds `a.key`
/// to `a.timestamp` (replacing any earlier binding), a release drops `a.key`;
/// all other keys keep their bindings.
pub open spec fn pressed_step(
    pre: Seq<(ActionKey, u64)>,
    post: Seq<(ActionKey, u64)>,
    a: Action,
) -> bool {
    if a.action_type is Press {
        &&& post.len() >= 1
        &&& post.last() == (a.key, a.timestamp)
        &&& forall|k: ActionKey, t: u64|
            k != a.key ==> (#[trigger] pair_in(post, k, t) <==> pair_in(pre, k, t))
        &&& forall|t: u64| #[trigger] pair_in(post, a.key, t) <==> t == a.timestamp
        &&& forall|k: ActionKey| #[trigger] key_in(post, k) <==> key_in(pre, k) || k == a.key
    } else {
        &&& forall|k: ActionKey, t: u64|
            k != a.key ==> (#[trigger] pair_in(post, k, t) <==> pair_in(pre, k, t))
        &&& !key_in(post, a.key)
        &&& forall|k: ActionKey| #[trigger] key_in(post, k) <==> key_in(pre, k) && k != a.key
    }
}

/// The rolling input history.
pub struct KeyHistory {
    /// Every recorded press and release, oldest first.
    pub actions: VecDeque<Action>,
    /// The keys currently held down, each with its press timestamp.
    pub pressed_keys: Vec<(ActionKey, u64)>,
    /// Recent keyboard presses only, oldest first, with their timestamps.
    pub recent_keys: VecDeque<(KeyCode, u64)>,
    /// Capacity of `actions`.
    pub max_size: usize,
    /// Capacity of `recent_keys`.
    pub sequence_max_size: usize,
    /// Age in milliseconds past which log entries are evicted.
    pub history_timeout_ms: u64,
}

impl KeyHistory {
    /// Structural invariant: both bounded sequences respect their capacities,
    /// held keys are recorded at most once, and times run oldest to newest.
    pub open spec fn wf(&self) -> bool {
        &&& self.actions@.len() <= self.max_size
        &&& self.recent_keys@.len() <= self.sequence_max_size
        &&& unique_keys(self.pressed_keys@)
        &&& stamps_sorted(self.recent_keys@)
        &&& actions_sorted(self.actions@)
    }

    /// An event captured at `ts` may be recorded: it is no older than what the
    /// history already holds.
    pub open spec fn can_record(&self, ts: u64) -> bool {
        &&& (self.actions@.len() > 0 ==> self.actions@.last().timestamp <= ts)
        &&& (self.recent_keys@.len() > 0 ==> self.recent_keys@.last().1 <= ts)
    }

    /// The recent keyboard presses, oldest first, without their timestamps.
    pub open spec fn recent_seq(&self) -> Seq<KeyCode> {
        self.recent_keys@.map_values(|p: (KeyCode, u64)| p.0)
    }

    /// The configuration fields of `self` and `other` agree.
    pub open spec fn same_config(&self, other: &KeyHistory) -> bool {
        &&& self.max_size == other.max_size
        &&& self.sequence_max_size == other.sequence_max_size
        &&& self.history_timeout_ms == other.history_timeout_ms
    }

    /// `post` is `pre` with `a` recorded.
    pub open spec fn recorded(pre: &KeyHistory, post: &KeyHistory, a: Action) -> bool {
        &&& post.same_config(pre)
        &&& post.actions@ == log_step(pre.actions@, a, pre.max_size as int, pre.history_timeout_ms)
        &&& post.recent_keys@ == recent_step(pre.recent_keys@, a, pre.sequence_max_size as int)
        &&& pressed_step(pre.pressed_keys@, post.pressed_keys@, a)
    }

    /// The time between the two most recent keyboard presses, or 0 when fewer
    /// than two have been recorded.
    pub open spec fn last_interval_spec(&self) -> u64 {
        let r = self.recent_keys@;
        if r.len() < 2 {
            0
        } else {
            elapsed_ms(r[r.len() - 1].1, r[r.len() - 2].1)
        }
    }

    /// The modifier key is currently held and `key` is the most recent
    /// keyboard press.
    pub open spec fn modifier_match(&self, modifier: KeyCode, key: KeyCode) -> bool {
        &&& key_in(self.pressed_keys@, ActionKey::Keyboard(modifier))
        &&& self.recent_keys@.len() > 0
        &&& self.recent_keys@.last().0 == key
    }

    /// The last `keys.len()` recent keyboard presses are exactly `keys`, in
    /// order, and the time from the first to the last of them is within
    /// `timeout_ms`.
    pub open spec fn seq_match(&self, keys: Seq<KeyCode>, timeout_ms: u64) -> bool
        recommends
            keys.len() >= 1,
    {
        let r = self.recent_keys@;
        let n = keys.len() as int;
        &&& n <= r.len()
        &&& (forall|i: int| 0 <= i < n ==> r[r.len() - n + i].0 == keys[i])
        &&& elapsed_ms(r.last().1, r[r.len() - n].1) <= timeout_ms
    }

    /// An empty history with the given capacities and entry timeout.
    pub fn new(max_size: usize, sequence_max_size: usize, history_timeout_ms: u64) -> (h:
        KeyHistory)
        ensures
            h.wf(),
            h.actions@ =~= Seq::<Action>::empty(),
            h.pressed_keys@ =~= Seq::<(ActionKey, u64)>::empty(),
            h.recent_keys@ =~= Seq::<(KeyCode, u64)>::empty(),
            h.max_size == max_size,
            h.sequence_max_size == sequence_max_size,
            h.history_timeout_ms == history_timeout_ms,
    {
        KeyHistory {
            actions: VecDeque::with_capacity(max_size),
            pressed_keys: Vec::new(),
            recent_keys: VecDeque::with_capacity(sequence_max_size),
            max_size,
            sequence_max_size,
            history_timeout_ms,
        }
    }

    /// Records one observed event: updates the held-key table, appends
    /// keyboard presses to the recent sequence, evicts expired log entries,
    /// and appends the event to the log, all within the configured bounds.
    pub fn add_action(&mut self, action: Action)
        requires
            old(self).wf(),
            old(self).can_record(action.timestamp),
        ensures
            final(self).wf(),
            KeyHistory::recorded(old(self), final(self), action),
    {
        let now = action.timestamp;
        // Evict log entries that expired before this event.
        let ghost orig = self.actions@;
        while self.actions.len() > 0 && ms_between(now, self.actions[0].timestamp)
            > self.history_timeout_ms
            invariant
                old(self).wf(),
                old(self).can_record(now),
                self.pressed_keys@ == old(self).pressed_keys@,
                self.recent_keys@ == old(self).recent_keys@,
                self.same_config(old(self)),
                actions_sorted(self.actions@),
                self.actions@.len() <= orig.len(),
                self.actions@.len() > 0 ==> self.actions@.last().timestamp <= now,
                evict_expired(orig, now, self.history_timeout_ms) == evict_expired(
                    self.actions@,
                    now,
                    self.history_timeout_ms,
                ),
            decreases self.actions@.len(),
        {
            let ghost cur = self.actions@;
            self.actions.pop_front();
            assert(self.actions@ == cur.drop_first());
            assert(evict_expired(cur, now, self.history_timeout_ms) == evict_expired(
                self.actions@,
                now,
                self.history_timeout_ms,
            ));
            assert forall|i: int, j: int| 0 <= i <= j < self.actions@.len() implies self.actions@[i].timestamp
                <= self.actions@[j].timestamp by {
                assert(cur[i + 1].timestamp <= cur[j + 1].timestamp);
            }
        }
        let ghost evicted = self.actions@;
        proof {
            assert(evicted == evict_expired(orig, now, self.history_timeout_ms));
        }
        // Append the new entry, keeping the log within its capacity.
        self.actions.push_back(action);
        proof {
            assert forall|i: int, j: int| 0 <= i <= j < self.actions@.len() implies self.actions@[i].timestamp
                <= self.actions@[j].timestamp by {
                if j < evicted.len() {
                    assert(evicted[i].timestamp <= evicted[j].timestamp);
                } else if i < evicted.len() {
                    assert(evicted[i].timestamp <= evicted.last().timestamp);
                }
            }
        }
        if self.actions.len() > self.max_size {
            let ghost grown = self.actions@;
            self.actions.pop_front();
            assert(self.actions@ == grown.drop_first());
            assert forall|i: int, j: int| 0 <= i <= j < self.actions@.len() implies self.actions@[i].timestamp
                <= self.actions@[j].timestamp by {
                assert(grown[i + 1].timestamp <= grown[j + 1].timestamp);
            }
        }
        proof {
            assert(self.actions@ == log_step(
                orig,
                action,
                old(self).max_size as int,
                old(self).history_timeout_ms,
            ));
        }
        // Keyboard presses extend the recent-press sequence.
        if let ActionKey::Keyboard(k) = action.key {
            if action.action_type == ActionType::Press {
                let ghost pre_recent = self.recent_keys@;
                self.recent_keys.push_back((k, now));
                proof {
                    assert forall|i: int, j: int| 0 <= i <= j < self.recent_keys@.len() implies self.recent_keys@[i].1
                        <= self.recent_keys@[j].1 by {
                        if j < pre_recent.len() {
                            assert(pre_recent[i].1 <= pre_recent[j].1);
                        } else if i < pre_recent.len() {
                            assert(pre_recent[i].1 <= pre_recent.last().1);
                        }
                    }
                }
                if self.recent_keys.len() > self.sequence_max_size {
                    let ghost grown = self.recent_keys@;
                    self.recent_keys.pop_front();
                    assert(self.recent_keys@ == grown.drop_first());
                    assert forall|i: int, j: int| 0 <= i <= j < self.recent_keys@.len() implies self.recent_keys@[i].1
                        <= self.recent_keys@[j].1 by {
                        assert(grown[i + 1].1 <= grown[j + 1].1);
                    }
                }
            }
        }
        // A press binds the key to its press time; a release unbinds it.
        let ghost pre_pressed = self.pressed_keys@;
        let at = find_key(&self.pressed_keys, action.key);
        if action.action_type == ActionType::Press {
            if let Some(i) = at {
                self.pressed_keys.remove(i);
                proof {
                    lemma_remove_entry(pre_pressed, i as int);
                }
            }
            let ghost mid = self.pressed_keys@;
            proof {
                assert forall|t: u64| !pair_in(mid, action.key, t) by {
                    if pair_in(mid, action.key, t) {
                        let w = choose|w: int| 0 <= w < mid.len() && mid[w] == (action.key, t);
                        assert(mid[w].0 == action.key);
                        assert(key_in(mid, action.key));
                    }
                }
            }
            self.pressed_keys.push((action.key, now));
            proof {
                lemma_push_entry(mid, action.key, now);
            }
        } else {
            if let Some(i) = at {
                self.pressed_keys.remove(i);
                proof {
                    lemma_remove_entry(pre_pressed, i as int);
                }
            }
        }
    }

    /// The recent keyboard presses, oldest first.
    pub fn get_recent_key_sequence(&self) -> (r: Vec<KeyCode>)
        ensures
            r@ == self.recent_seq(),
    {
        let mut r: Vec<KeyCode> = Vec::new();
        let mut i: usize = 0;
        while i < self.recent_keys.len()
            invariant
                i <= self.recent_keys@.len(),
                r@.len() == i,
                forall|j: int| 0 <= j < i ==> r@[j] == self.recent_keys@[j].0,
            decreases self.recent_keys@.len() - i,
        {
            r.push(self.recent_keys[i].0);
            i += 1;
        }
        proof {
            assert(r@ =~= self.recent_seq());
        }
        r
    }

    /// The time in milliseconds between the two most recent keyboard presses;
    /// 0 when fewer than two have been recorded.
    pub fn get_last_key_interval(&self) -> (d: u64)
        ensures
            d == self.last_interval_spec(),
    {
        let len = self.recent_keys.len();
        if len < 2 {
            return 0;
        }
        let latest = self.recent_keys[len - 1].1;
        let prev = self.recent_keys[len - 2].1;
        ms_between(latest, prev)
    }

    /// True iff `modifier` is currently held and `key` is the most recent
    /// keyboard press.
    pub fn matches_key_modifier(&self, modifier: KeyCode, key: KeyCode) -> (r: bool)
        ensures
            r == self.modifier_match(modifier, key),
    {
        let held = find_key(&self.pressed_keys, ActionKey::Keyboard(modifier));
        let len = self.recent_keys.len();
        if len == 0 {
            return false;
        }
        let last = self.recent_keys[len - 1];
        held.is_some() && last.0 == key
    }

    /// True iff the last `sequence.len()` recent keyboard presses are exactly
    /// `sequence`, in order, within `timeout_ms` from the first to the last.
    pub fn matches_key_sequence(&self, sequence: &[KeyCode], timeout_ms: u64) -> (r: bool)
        requires
            sequence@.len() >= 1,
        ensures
            r == self.seq_match(sequence@, timeout_ms),
    {
        let n = sequence.len();
        let len = self.recent_keys.len();
        if n > len {
            return false;
        }
        let start = len - n;
        let mut i: usize = 0;
        while i < n
            invariant
                n <= len,
                start == len - n,
                len == self.recent_keys@.len(),
                n == sequence@.len(),
                i <= n,
                forall|j: int| 0 <= j < i ==> self.recent_keys@[start + j].0 == sequence@[j],
            decreases n - i,
        {
            if self.recent_keys[start + i].0 != sequence[i] {
                return false;
            }
            i += 1;
        }
        let latest = self.recent_keys[len - 1].1;
        let earliest = self.recent_keys[start].1;
        ms_between(latest, earliest) <= timeout_ms
    }
}

/// Eviction never grows the log.
pub proof fn lemma_evict_expired_len(s: Seq<Action>, now: u64, timeout: u64)
    ensures
        evict_expired(s, now, timeout).len() <= s.len(),
    decreases s.len(),
{
    if s.len() > 0 && elapsed_ms(now, s.first().timestamp) > timeout {
        lemma_evict_expired_len(s.drop_first(), now, timeout);
    }
}

/// The log never outgrows its capacity: one recording step started within the
/// capacity ends within it, and when no entry has expired the log grows by
/// one entry until the capacity is reached and then stays exactly full.
pub proof fn lemma_log_capacity(s: Seq<Action>, a: Action, max: int, timeout: u64)
    requires
        s.len() <= max,
    ensures
        log_step(s, a, max, timeout).len() <= max,
        evict_expired(s, a.timestamp, timeout) == s ==> log_step(s, a, max, timeout).len() == if s.len() + 1 <= max {
            s.len() + 1
        } else {
            max as nat
        },
{
    lemma_evict_expired_len(s, a.timestamp, timeout);
}

/// The log contents after recording each of `appends`, in order.
pub open spec fn log_after(s: Seq<Action>, appends: Seq<Action>, max: int, timeout: u64) -> Seq<
    Action,
>
    decreases appends.len(),
{
    if appends.len() == 0 {
        s
    } else {
        log_after(log_step(s, appends.first(), max, timeout), appends.drop_first(), max, timeout)
    }
}

/// Every pair of these actions lies within one eviction window, so no
/// recording among them evicts an entry by age.
pub open spec fn within_window(c: Seq<Action>, timeout: u64) -> bool {
    forall|i: int, j: int|
        0 <= i < c.len() && 0 <= j < c.len() ==> elapsed_ms(c[j].timestamp, c[i].timestamp)
            <= timeout
}

/// The capacity law in full: recording any run of actions that stays within
/// the eviction window leaves the log holding the most recent entries, in
/// order — all of them while they fit the capacity, and exactly the last
/// `max` from then on. In particular, `max + k` appends into an empty log
/// (k >= 0) leave exactly the `max` most recent entries.
pub proof fn lemma_log_fills_to_capacity(s: Seq<Action>, appends: Seq<Action>, max: int, timeout: u64)
    requires
        0 <= max,
        s.len() <= max,
        within_window(s + appends, timeout),
    ensures
        ({
            let c = s + appends;
            let r = log_after(s, appends, max, timeout);
            &&& r.len() == if c.len() <= max {
                c.len()
            } else {
                max as nat
            }
            &&& r == c.subrange(c.len() - r.len(), c.len() as int)
        }),
    decreases appends.len(),
{
    let c = s + appends;
    let r = log_after(s, appends, max, timeout);
    if appends.len() == 0 {
        assert(c =~= s);
        assert(r == s);
        assert(r =~= c.subrange(c.len() - r.len(), c.len() as int));
    } else {
        let a = appends.first();
        assert(c[s.len() as int] == a);
        assert(evict_expired(s, a.timestamp, timeout) == s) by {
            if s.len() > 0 {
                assert(c[0] == s[0]);
                assert(elapsed_ms(a.timestamp, s[0].timestamp) <= timeout);
            }
        }
        let s1 = log_step(s, a, max, timeout);
        let rest = appends.drop_first();
        let grown = s.push(a);
        assert(grown =~= c.subrange(0, s.len() + 1 as int));
        let delta: int = if s.len() + 1 > max {
            1
        } else {
            0
        };
        assert(s1 =~= c.subrange(delta, s.len() + 1 as int));
        assert(s1.len() <= max);
        let c1 = s1 + rest;
        assert(c1 =~= c.subrange(delta, c.len() as int));
        assert(within_window(c1, timeout)) by {
            assert forall|i: int, j: int| 0 <= i < c1.len() && 0 <= j < c1.len() implies elapsed_ms(
                c1[j].timestamp,
                c1[i].timestamp,
            ) <= timeout by {
                assert(c1[i] == c[i + delta]);
                assert(c1[j] == c[j + delta]);
            }
        }
        lemma_log_fills_to_capacity(s1, rest, max, timeout);
        assert(r == log_after(s1, rest, max, timeout));
        assert(r.len() == if c1.len() <= max {
            c1.len()
        } else {
            max as nat
        });
        assert(r == c1.subrange(c1.len() - r.len(), c1.len() as int));
        assert(c1.subrange(c1.len() - r.len(), c1.len() as int) =~= c.subrange(
            c.len() - r.len(),
            c.len() as int,
        ));
    }
}

/// The recent keyboard-press sequence never exceeds its capacity and runs
/// oldest to newest.
pub proof fn lemma_recent_sequence_bounded_ordered(h: &KeyHistory)
    requires
        h.wf(),
    ensures
        h.recent_seq().len() <= h.sequence_max_size,
        forall|i: int, j: int|
            0 <= i <= j < h.recent_keys@.len() ==> h.recent_keys@[i].1 <= h.recent_keys@[j].1,
{
}

/// A two-key sequence matches exactly when the two most recent keyboard
/// presses are those two keys in order and the time between them is within
/// the allowed window; with fewer than two presses recorded, a wrong order,
/// or a larger gap, it does not match.
pub proof fn lemma_two_key_sequence_match(h: &KeyHistory, a: KeyCode, b: KeyCode, timeout_ms: u64)
    ensures
        h.seq_match(seq![a, b], timeout_ms) <==> ({
            let r = h.recent_keys@;
            &&& r.len() >= 2
            &&& r[r.len() - 2].0 == a
            &&& r[r.len() - 1].0 == b
            &&& elapsed_ms(r[r.len() - 1].1, r[r.len() - 2].1) <= timeout_ms
        }),
{
    let keys = seq![a, b];
    let r = h.recent_keys@;
    assert(keys.len() == 2);
    if h.seq_match(keys, timeout_ms) {
        assert(r[r.len() - 2 + 0].0 == keys[0]);
        assert(r[r.len() - 2 + 1].0 == keys[1]);
    }
    if r.len() >= 2 && r[r.len() - 2].0 == a && r[r.len() - 1].0 == b {
        assert forall|i: int| 0 <= i < 2 implies r[r.len() - 2 + i].0 == keys[i] by {
            if i == 0 {
                assert(r[r.len() - 2].0 == a);
            } else {
                assert(r[r.len() - 1].0 == b);
            }
        }
    }
}

/// The index of the entry keyed by `key`, if one exists.
fn find_key(entries: &Vec<(ActionKey, u64)>, key: ActionKey) -> (r: Option<usize>)
    ensures
        match r {
            Some(i) => i < entries@.len() && entries@[i as int].0 == key,
            None => !key_in(entries@, key),
        },
{
    let mut i: usize = 0;
    while i < entries.len()
        invariant
            i <= entries@.len(),
            forall|j: int| 0 <= j < i ==> entries@[j].0 != key,
        decreases entries@.len() - i,
    {
        if entries[i].0 == key {
            return Some(i);
        }
        i += 1;
    }
    proof {
        if key_in(entries@, key) {
            let w = choose|w: int| 0 <= w < entries@.len() && entries@[w].0 == key;
        }
    }
    None
}

} // verus!
