//! The dispatch engine: per incoming event it updates the action log, checks
//! the suppression table, evaluates the combo catalog in priority order, and
//! decides whether the event is forwarded, consumed, and/or starts a combo.

use vstd::prelude::*;
use vstd::string::*;
use vstd::utf8::is_ascii_chars;
use crate::keys::{ActionKey, KeyCode, PointerButton};
use crate::history::{
    Action, ActionType, KeyHistory, elapsed_ms, ms_between, key_in, pair_in, unique_keys,
    lemma_remove_entry, lemma_push_entry,
};
use crate::combo::{Combo, TriggerType, should_trigger_spec};

verus! {

/// How long a suppressed key keeps being withheld, in milliseconds. Short and
/// fixed, independent of any trigger's own timeout: long enough to blanket
/// the original event's propagation, short enough to let the next genuine
/// press through.
pub const BLOCK_WINDOW_MS: u64 = 100;

/// One observed raw event, as the engine classifies it. `Other` stands for
/// every event kind that is neither a key nor a pointer-button transition.
#[derive(Debug, Clone, Copy, PartialEq, Eq, Structural)]
pub enum InputEvent {
    KeyPress(KeyCode),
    KeyRelease(KeyCode),
    ButtonPress(PointerButton),
    ButtonRelease(PointerButton),
    Other,
}

/// The engine's verdict on one event: what to forward downstream (nothing
/// means the event is consumed) and which catalog entry, if any, to execute.
#[derive(Debug, Clone, Copy)]
pub struct EventDecision {
    /// The event to pass on unchanged, or nothing to swallow it.
    pub forward: Option<InputEvent>,
    /// The index into the catalog of the combo to execute, if one fired.
    pub execute: Option<usize>,
}

/// A suppression entry made at `t0` still applies at `now`.
pub open spec fn blocked_live(t0: u64, now: u64) -> bool {
    elapsed_ms(now, t0) < BLOCK_WINDOW_MS
}

/// `key` is currently suppressed: some table entry for it is still live.
pub open spec fn blocked_spec(s: Seq<(KeyCode, u64)>, key: KeyCode, now: u64) -> bool {
    exists|i: int| 0 <= i < s.len() && s[i].0 == key && blocked_live(s[i].1, now)
}

/// The suppression table with every entry that is no longer live dropped.
pub open spec fn purge_spec(s: Seq<(KeyCode, u64)>, now: u64) -> Seq<(KeyCode, u64)>
    decreases s.len(),
{
    if s.len() == 0 {
        Seq::empty()
    } else if blocked_live(s.last().1, now) {
        purge_spec(s.drop_last(), now).push(s.last())
    } else {
        purge_spec(s.drop_last(), now)
    }
}

/// Purging keeps exactly the live entries, and keeps keys unique.
pub proof fn lemma_purge(s: Seq<(KeyCode, u64)>, now: u64)
    ensures
        forall|k: KeyCode, t: u64| #[trigger]
            pair_in(purge_spec(s, now), k, t) <==> pair_in(s, k, t) && blocked_live(t, now),
        forall|k: KeyCode| #[trigger] key_in(purge_spec(s, now), k) <==> blocked_spec(s, k, now),
        unique_keys(s) ==> unique_keys(purge_spec(s, now)),
    decreases s.len(),
{
    let p = purge_spec(s, now);
    if s.len() == 0 {
        assert forall|k: KeyCode| !(#[trigger] key_in(p, k)) by {
            if key_in(p, k) {
                let i = choose|i: int| 0 <= i < p.len() && p[i].0 == k;
            }
        }
        assert forall|k: KeyCode, t: u64| !(#[trigger] pair_in(p, k, t)) by {
            if pair_in(p, k, t) {
                let i = choose|i: int| 0 <= i < p.len() && p[i] == (k, t);
            }
        }
    } else {
        let d = s.drop_last();
        let pd = purge_spec(d, now);
        let e = s.last();
        lemma_purge(d, now);
        assert(s =~= d.push(e));
        lemma_push_entry(d, e.0, e.1);
        if blocked_live(e.1, now) {
            lemma_push_entry(pd, e.0, e.1);
            assert(p == pd.push(e));
            assert forall|k: KeyCode| #[trigger] key_in(p, k) <==> blocked_spec(s, k, now) by {
                if key_in(p, k) {
                    if k == e.0 {
                        assert(s[s.len() - 1] == e);
                        assert(blocked_spec(s, k, now));
                    } else {
                        assert(key_in(pd, k));
                        assert(blocked_spec(d, k, now));
                        let i = choose|i: int|
                            0 <= i < d.len() && d[i].0 == k && blocked_live(d[i].1, now);
                        assert(s[i] == d[i]);
                        assert(blocked_spec(s, k, now));
                    }
                }
                if blocked_spec(s, k, now) {
                    let i = choose|i: int|
                        0 <= i < s.len() && s[i].0 == k && blocked_live(s[i].1, now);
                    if i < d.len() {
                        assert(d[i] == s[i]);
                        assert(blocked_spec(d, k, now));
                        assert(key_in(pd, k));
                    } else {
                        assert(s[i] == e);
                    }
                    assert(key_in(p, k));
                }
            }
            if unique_keys(s) {
                assert(unique_keys(d)) by {
                    assert forall|i: int, j: int| 0 <= i < j < d.len() implies d[i].0 != d[j].0 by {
                        assert(s[i] == d[i] && s[j] == d[j]);
                    }
                }
                assert(!key_in(pd, e.0)) by {
                    if key_in(pd, e.0) {
                        assert(blocked_spec(d, e.0, now));
                        let i = choose|i: int|
                            0 <= i < d.len() && d[i].0 == e.0 && blocked_live(d[i].1, now);
                        assert(s[i].0 == s[s.len() - 1].0);
                    }
                }
                assert(unique_keys(p));
            }
        } else {
            assert(p == pd);
            assert forall|k: KeyCode| #[trigger] key_in(p, k) <==> blocked_spec(s, k, now) by {
                if key_in(p, k) {
                    assert(blocked_spec(d, k, now));
                    let i = choose|i: int|
                        0 <= i < d.len() && d[i].0 == k && blocked_live(d[i].1, now);
                    assert(s[i] == d[i]);
                }
                if blocked_spec(s, k, now) {
                    let i = choose|i: int|
                        0 <= i < s.len() && s[i].0 == k && blocked_live(s[i].1, now);
                    assert(i < d.len());
                    assert(d[i] == s[i]);
                    assert(blocked_spec(d, k, now));
                }
            }
            if unique_keys(s) {
                assert(unique_keys(d)) by {
                    assert forall|i: int, j: int| 0 <= i < j < d.len() implies d[i].0 != d[j].0 by {
                        assert(s[i] == d[i] && s[j] == d[j]);
                    }
                }
            }
        }
    }
}

/// `post` is the suppression table `pre` with `key` freshly entered at `now`,
/// replacing any earlier entry for that key.
pub open spec fn suppression_inserted(
    pre: Seq<(KeyCode, u64)>,
    post: Seq<(KeyCode, u64)>,
    key: KeyCode,
    now: u64,
) -> bool {
    &&& post.len() >= 1
    &&& post.last() == (key, now)
    &&& forall|k: KeyCode, t: u64|
        k != key ==> (#[trigger] pair_in(post, k, t) <==> pair_in(pre, k, t))
    &&& forall|t: u64| #[trigger] pair_in(post, key, t) <==> t == now
    &&& forall|k: KeyCode| #[trigger] key_in(post, k) <==> key_in(pre, k) || k == key
}

/// Suppression window: a key entered into the table at `t0` answers blocked
/// for every query strictly before `t0` plus the window, and unblocked from
/// then on.
pub proof fn lemma_suppression_window(s: Seq<(KeyCode, u64)>, key: KeyCode, t0: u64, now: u64)
    requires
        unique_keys(s),
        pair_in(s, key, t0),
    ensures
        blocked_spec(s, key, now) <==> (now as int) < t0 + BLOCK_WINDOW_MS,
{
    let i = choose|i: int| 0 <= i < s.len() && s[i] == (key, t0);
    if blocked_spec(s, key, now) {
        let j = choose|j: int| 0 <= j < s.len() && s[j].0 == key && blocked_live(s[j].1, now);
        assert(i == j);
    }
    if (now as int) < t0 + BLOCK_WINDOW_MS {
        assert(blocked_live(t0, now));
        assert(s[i].0 == key && blocked_live(s[i].1, now));
    }
}

/// The `idx`-th catalog entry is active and its trigger succeeds.
pub open spec fn fires(combos: Seq<Combo>, key: KeyCode, h: &KeyHistory, idx: int) -> bool {
    combos[idx].active && should_trigger_spec(&combos[idx], key, h)
}

/// The first catalog entry (in priority order) that is active and whose
/// trigger succeeds, if any.
pub open spec fn first_fired(combos: Seq<Combo>, key: KeyCode, h: &KeyHistory) -> Option<int>
    decreases combos.len(),
{
    if combos.len() == 0 {
        None
    } else if fires(combos, key, h, 0) {
        Some(0int)
    } else {
        match first_fired(combos.drop_first(), key, h) {
            None => None,
            Some(i) => Some(i + 1),
        }
    }
}

/// When entry `i` fires and no earlier entry does, `i` is the one selected.
pub proof fn lemma_first_fired_at(combos: Seq<Combo>, key: KeyCode, h: &KeyHistory, i: int)
    requires
        0 <= i < combos.len(),
        fires(combos, key, h, i),
        forall|j: int| 0 <= j < i ==> !fires(combos, key, h, j),
    ensures
        first_fired(combos, key, h) == Some(i),
    decreases combos.len(),
{
    if i == 0 {
    } else {
        assert(!fires(combos, key, h, 0));
        let tail = combos.drop_first();
        assert(tail[i - 1] == combos[i]);
        assert(fires(tail, key, h, i - 1));
        assert forall|j: int| 0 <= j < i - 1 implies !fires(tail, key, h, j) by {
            assert(tail[j] == combos[j + 1]);
            assert(!fires(combos, key, h, j + 1));
        }
        lemma_first_fired_at(tail, key, h, i - 1);
    }
}

/// When no entry fires, none is selected.
pub proof fn lemma_first_fired_none(combos: Seq<Combo>, key: KeyCode, h: &KeyHistory)
    requires
        forall|j: int| 0 <= j < combos.len() ==> !fires(combos, key, h, j),
    ensures
        first_fired(combos, key, h) is None,
    decreases combos.len(),
{
    if combos.len() > 0 {
        let tail = combos.drop_first();
        assert forall|j: int| 0 <= j < tail.len() implies !fires(tail, key, h, j) by {
            assert(tail[j] == combos[j + 1]);
            assert(!fires(combos, key, h, j + 1));
        }
        lemma_first_fired_none(tail, key, h);
    }
}

/// When entry `i` fires, the selected entry is no later than `i`.
pub proof fn lemma_first_fired_le(combos: Seq<Combo>, key: KeyCode, h: &KeyHistory, i: int)
    requires
        0 <= i < combos.len(),
        fires(combos, key, h, i),
    ensures
        first_fired(combos, key, h) is Some,
        0 <= first_fired(combos, key, h).unwrap() <= i,
    decreases combos.len(),
{
    if !fires(combos, key, h, 0) {
        let tail = combos.drop_first();
        assert(tail[i - 1] == combos[i]);
        assert(fires(tail, key, h, i - 1));
        lemma_first_fired_le(tail, key, h, i - 1);
    }
}

/// Catalog precedence: when two active entries could both fire on the same
/// incoming key, only the earlier-listed one is selected; the later one
/// never fires.
pub proof fn lemma_catalog_precedence(
    combos: Seq<Combo>,
    key: KeyCode,
    h: &KeyHistory,
    i: int,
    j: int,
)
    requires
        0 <= i < j < combos.len(),
        fires(combos, key, h, i),
        fires(combos, key, h, j),
    ensures
        first_fired(combos, key, h) is Some,
        first_fired(combos, key, h).unwrap() <= i,
        first_fired(combos, key, h) != Some(j),
{
    lemma_first_fired_le(combos, key, h, i);
}

/// The always-installed default binding: pressing Tab replays an attack (the
/// `A` key) followed by a left click, without suppressing Tab itself.
pub open spec fn is_global_combo(c: &Combo) -> bool {
    &&& c.name@ == "tab_a_click"@
    &&& c.sequence@ == seq![
        ActionKey::Keyboard(KeyCode::KeyA),
        ActionKey::Mouse(PointerButton::Left),
    ]
    &&& c.delays@ == seq![(0u64, 25u64), (0u64, 0u64)]
    &&& c.trigger == TriggerType::SingleKey(KeyCode::Tab)
    &&& !c.block_original_input
    &&& c.active
}

/// The yasuo profile's first binding: E then R within the trigger window
/// replays Q then R, suppressing the triggering R.
pub open spec fn is_yasuo_er_combo(c: &Combo) -> bool {
    &&& c.name@ == "yasuo_er_qr"@
    &&& c.sequence@ == seq![ActionKey::Keyboard(KeyCode::KeyQ), ActionKey::Keyboard(KeyCode::KeyR)]
    &&& c.delays@ == seq![(0u64, 0u64), (0u64, 0u64)]
    &&& match c.trigger {
        TriggerType::KeySequence { keys, timeout_ms } => keys@ == seq![
            KeyCode::KeyE,
            KeyCode::KeyR,
        ] && timeout_ms == 1500,
        _ => false,
    }
    &&& c.block_original_input
    &&& c.active
}

/// The yasuo profile's second binding: E then D within the trigger window
/// replays Q then D, suppressing the triggering D.
pub open spec fn is_yasuo_ed_combo(c: &Combo) -> bool {
    &&& c.name@ == "yasuo_ed_qd"@
    &&& c.sequence@ == seq![ActionKey::Keyboard(KeyCode::KeyQ), ActionKey::Keyboard(KeyCode::KeyD)]
    &&& c.delays@ == seq![(0u64, 0u64), (0u64, 0u64)]
    &&& match c.trigger {
        TriggerType::KeySequence { keys, timeout_ms } => keys@ == seq![
            KeyCode::KeyE,
            KeyCode::KeyD,
        ] && timeout_ms == 1500,
        _ => false,
    }
    &&& c.block_original_input
    &&& c.active
}

/// The name is "yasuo" ignoring ASCII case.
pub open spec fn is_ascii_yasuo_name(s: Seq<char>) -> bool {
    &&& s.len() == 5
    &&& (s[0] == 'y' || s[0] == 'Y')
    &&& (s[1] == 'a' || s[1] == 'A')
    &&& (s[2] == 's' || s[2] == 'S')
    &&& (s[3] == 'u' || s[3] == 'U')
    &&& (s[4] == 'o' || s[4] == 'O')
}

/// The name selects the yasuo profile: "yasuo" ignoring ASCII case, or the
/// champion's CJK name (U+4E9A U+7D22).
pub open spec fn is_yasuo_name_spec(s: Seq<char>) -> bool {
    ||| is_ascii_yasuo_name(s)
    ||| (s.len() == 2 && s[0] == '\u{4e9a}' && s[1] == '\u{7d22}')
}

/// Decides [`is_yasuo_name_spec`] for a profile name.
fn is_yasuo_name(name: &str) -> (r: bool)
    ensures
        r == is_yasuo_name_spec(name@),
{
    broadcast use vstd::string::group_string_axioms;

    if !name.is_ascii() {
        // A case variant of "yasuo" holds only ASCII letters.
        proof {
            if is_ascii_yasuo_name(name@) {
                assert forall|i: int| 0 <= i < name@.len() implies '\0' <= #[trigger] name@[i]
                    <= '\u{7f}' by {
                    assert(name@.len() == 5);
                }
                assert(is_ascii_chars(name@));
            }
        }
        // Compare character by character against the CJK alias.
        let mut it = name.chars();
        let c0 = it.next();
        let c1 = it.next();
        let c2 = it.next();
        match (c0, c1, c2) {
            (Some(a), Some(b), None) => a == '\u{4e9a}' && b == '\u{7d22}',
            _ => false,
        }
    } else {
        // The CJK alias is not ASCII.
        proof {
            if name@.len() == 2 && name@[0] == '\u{4e9a}' {
                assert(is_ascii_chars(name@));
                assert('\0' <= name@[0] <= '\u{7f}');
            }
        }
        let bytes = name.as_bytes();
        if bytes.len() != 5 {
            return false;
        }
        let r = (bytes[0] == 'y' as u8 || bytes[0] == 'Y' as u8) && (bytes[1] == 'a' as u8
            || bytes[1] == 'A' as u8) && (bytes[2] == 's' as u8 || bytes[2] == 'S' as u8) && (
        bytes[3] == 'u' as u8 || bytes[3] == 'U' as u8) && (bytes[4] == 'o' as u8 || bytes[4]
            == 'O' as u8);
        proof {
            assert forall|i: int| 0 <= i < 5 implies bytes@[i] == name@[i] as u8 && '\0' <= name@[i]
                <= '\u{7f}' by {
                assert(is_ascii_chars(name@));
            }
        }
        r
    }
}

/// The complete catalog installed for a profile name: for the "yasuo"
/// profile (matched ignoring ASCII case) its two bindings, for any other
/// name nothing profile-specific — and in either case the default binding,
/// listed last so that profile bindings take precedence when both could
/// match the same key.
pub open spec fn catalog_for(combos: Seq<Combo>, name: Seq<char>) -> bool {
    if is_yasuo_name_spec(name) {
        &&& combos.len() == 3
        &&& is_yasuo_er_combo(&combos[0])
        &&& is_yasuo_ed_combo(&combos[1])
        &&& is_global_combo(&combos[2])
    } else {
        combos.len() == 1 && is_global_combo(&combos[0])
    }
}

/// Builds the default binding.
fn global_combo() -> (c: Combo)
    ensures
        is_global_combo(&c),
        c.wf(),
{
    let mut sequence: Vec<ActionKey> = Vec::new();
    sequence.push(ActionKey::Keyboard(KeyCode::KeyA));
    sequence.push(ActionKey::Mouse(PointerButton::Left));
    let mut delays: Vec<(u64, u64)> = Vec::new();
    delays.push((0, 25));
    delays.push((0, 0));
    let c = Combo::new(
        String::from_str("tab_a_click"),
        sequence,
        delays,
        TriggerType::SingleKey(KeyCode::Tab),
        false,
    );
    proof {
        assert(c.sequence@ =~= seq![
            ActionKey::Keyboard(KeyCode::KeyA),
            ActionKey::Mouse(PointerButton::Left),
        ]);
        assert(c.delays@ =~= seq![(0u64, 25u64), (0u64, 0u64)]);
    }
    c
}

/// Builds the yasuo E,R binding.
fn yasuo_er_combo() -> (c: Combo)
    ensures
        is_yasuo_er_combo(&c),
        c.wf(),
{
    let mut sequence: Vec<ActionKey> = Vec::new();
    sequence.push(ActionKey::Keyboard(KeyCode::KeyQ));
    sequence.push(ActionKey::Keyboard(KeyCode::KeyR));
    let mut delays: Vec<(u64, u64)> = Vec::new();
    delays.push((0, 0));
    delays.push((0, 0));
    let mut keys: Vec<KeyCode> = Vec::new();
    keys.push(KeyCode::KeyE);
    keys.push(KeyCode::KeyR);
    proof {
        assert(keys@ =~= seq![KeyCode::KeyE, KeyCode::KeyR]);
    }
    let c = Combo::new(
        String::from_str("yasuo_er_qr"),
        sequence,
        delays,
        TriggerType::KeySequence { keys, timeout_ms: 1500 },
        true,
    );
    proof {
        assert(c.sequence@ =~= seq![
            ActionKey::Keyboard(KeyCode::KeyQ),
            ActionKey::Keyboard(KeyCode::KeyR),
        ]);
        assert(c.delays@ =~= seq![(0u64, 0u64), (0u64, 0u64)]);
    }
    c
}

/// Builds the yasuo E,D binding.
fn yasuo_ed_combo() -> (c: Combo)
    ensures
        is_yasuo_ed_combo(&c),
        c.wf(),
{
    let mut sequence: Vec<ActionKey> = Vec::new();
    sequence.push(ActionKey::Keyboard(KeyCode::KeyQ));
    sequence.push(ActionKey::Keyboard(KeyCode::KeyD));
    let mut delays: Vec<(u64, u64)> = Vec::new();
    delays.push((0, 0));
    delays.push((0, 0));
    let mut keys: Vec<KeyCode> = Vec::new();
    keys.push(KeyCode::KeyE);
    keys.push(KeyCode::KeyD);
    proof {
        assert(keys@ =~= seq![KeyCode::KeyE, KeyCode::KeyD]);
    }
    let c = Combo::new(
        String::from_str("yasuo_ed_qd"),
        sequence,
        delays,
        TriggerType::KeySequence { keys, timeout_ms: 1500 },
        true,
    );
    proof {
        assert(c.sequence@ =~= seq![
            ActionKey::Keyboard(KeyCode::KeyQ),
            ActionKey::Keyboard(KeyCode::KeyD),
        ]);
        assert(c.delays@ =~= seq![(0u64, 0u64), (0u64, 0u64)]);
    }
    c
}

/// The shared application state: the rolling history, the active catalog,
/// the suppression table, and the active profile marker.
pub struct AppState {
    /// The rolling input history.
    pub history: KeyHistory,
    /// The active catalog, in priority order; first match wins.
    pub combos: Vec<Combo>,
    /// The suppression table: key to suppression-start time.
    pub blocked_keys: Vec<(KeyCode, u64)>,
    /// The active profile name, if one is selected.
    pub current_champion: Option<String>,
}

impl AppState {
    /// Structural invariant.
    pub open spec fn wf(&self) -> bool {
        &&& self.history.wf()
        &&& unique_keys(self.blocked_keys@)
        &&& forall|i: int| 0 <= i < self.combos@.len() ==> (#[trigger] self.combos@[i]).wf()
    }

    /// Fresh state: an empty history with the default capacities, no profile,
    /// an empty suppression table, and only the default binding installed.
    pub fn new() -> (s: AppState)
        ensures
            s.wf(),
            s.history.max_size == 20,
            s.history.sequence_max_size == 10,
            s.history.history_timeout_ms == 2000,
            s.history.actions@ =~= Seq::<Action>::empty(),
            s.history.recent_keys@.len() == 0,
            s.history.pressed_keys@.len() == 0,
            s.blocked_keys@.len() == 0,
            s.current_champion is None,
            s.combos@.len() == 1,
            is_global_combo(&s.combos@[0]),
    {
        let history = KeyHistory::new(20, 10, 2000);
        let mut combos: Vec<Combo> = Vec::new();
        combos.push(global_combo());
        AppState { history, combos, blocked_keys: Vec::new(), current_champion: None }
    }

    /// Installs the catalog for `champion_name` (matched ignoring ASCII
    /// case) and records it as the active profile, replacing the previous
    /// catalog wholesale: afterwards the catalog is exactly the new
    /// profile's set, never a mixture. Profile-specific bindings come before
    /// the always-installed default binding, so they win when both could
    /// match the same key.
    pub fn set_champion(&mut self, champion_name: String)
        requires
            old(self).wf(),
        ensures
            final(self).wf(),
            final(self).history == old(self).history,
            final(self).blocked_keys == old(self).blocked_keys,
            final(self).current_champion == Some(champion_name),
            catalog_for(final(self).combos@, champion_name@),
    {
        let is_yasuo = is_yasuo_name(champion_name.as_str());
        self.current_champion = Some(champion_name);
        self.combos.clear();
        if is_yasuo {
            self.combos.push(yasuo_er_combo());
            self.combos.push(yasuo_ed_combo());
        }
        self.combos.push(global_combo());
    }

    /// Purges expired suppression entries, then reports whether `key` is
    /// currently suppressed — equivalently, whether `key` had a live entry
    /// before the purge.
    #[verifier::loop_isolation(false)]
    pub fn is_key_blocked(&mut self, key: KeyCode, now: u64) -> (r: bool)
        requires
            old(self).wf(),
        ensures
            final(self).wf(),
            final(self).history == old(self).history,
            final(self).combos == old(self).combos,
            final(self).current_champion == old(self).current_champion,
            final(self).blocked_keys@ == purge_spec(old(self).blocked_keys@, now),
            r == blocked_spec(old(self).blocked_keys@, key, now),
    {
        let n = self.blocked_keys.len();
        let mut kept: Vec<(KeyCode, u64)> = Vec::new();
        let mut found: bool = false;
        let mut i: usize = 0;
        while i < n
            invariant
                i <= n,
                kept@ == purge_spec(self.blocked_keys@.subrange(0, i as int), now),
                found == blocked_spec(self.blocked_keys@.subrange(0, i as int), key, now),
            decreases n - i,
        {
            let e = self.blocked_keys[i];
            let ghost pre = self.blocked_keys@.subrange(0, i as int);
            let ghost cur = self.blocked_keys@.subrange(0, i as int + 1);
            proof {
                assert(cur.drop_last() =~= pre);
                assert(cur.last() == e);
            }
            let live = ms_between(now, e.1) < BLOCK_WINDOW_MS;
            if live {
                kept.push(e);
                if e.0 == key {
                    found = true;
                }
            }
            proof {
                if found {
                    if pre.len() > 0 && blocked_spec(pre, key, now) {
                        let w = choose|w: int|
                            0 <= w < pre.len() && pre[w].0 == key && blocked_live(pre[w].1, now);
                        assert(cur[w] == pre[w]);
                        assert(blocked_spec(cur, key, now));
                    } else {
                        assert(cur[i as int] == e);
                        assert(blocked_spec(cur, key, now));
                    }
                } else {
                    if blocked_spec(cur, key, now) {
                        let w = choose|w: int|
                            0 <= w < cur.len() && cur[w].0 == key && blocked_live(cur[w].1, now);
                        if w < i as int {
                            assert(pre[w] == cur[w]);
                            assert(blocked_spec(pre, key, now));
                        }
                    }
                }
            }
            i += 1;
        }
        proof {
            assert(self.blocked_keys@.subrange(0, n as int) =~= self.blocked_keys@);
            lemma_purge(self.blocked_keys@, now);
        }
        self.blocked_keys = kept;
        found
    }

    /// Enters `key` into the suppression table at `now`, replacing any
    /// earlier entry for it.
    pub fn block_key(&mut self, key: KeyCode, now: u64)
        requires
            old(self).wf(),
        ensures
            final(self).wf(),
            final(self).history == old(self).history,
            final(self).combos == old(self).combos,
            final(self).current_champion == old(self).current_champion,
            suppression_inserted(old(self).blocked_keys@, final(self).blocked_keys@, key, now),
    {
        let ghost pre = self.blocked_keys@;
        if let Some(i) = find_blocked(&self.blocked_keys, key) {
            self.blocked_keys.remove(i);
            proof {
                lemma_remove_entry(pre, i as int);
            }
        }
        let ghost mid = self.blocked_keys@;
        proof {
            assert forall|t: u64| !pair_in(mid, key, t) by {
                if pair_in(mid, key, t) {
                    let w = choose|w: int| 0 <= w < mid.len() && mid[w] == (key, t);
                    assert(mid[w].0 == key);
                    assert(key_in(mid, key));
                }
            }
        }
        self.blocked_keys.push((key, now));
        proof {
            lemma_push_entry(mid, key, now);
        }
    }

    /// Processes one observed event and decides its fate: whether it is
    /// forwarded or consumed, and whether a combo starts. This is the whole
    /// per-event state machine, including the reserved profile-switch
    /// hotkeys and first-match catalog evaluation.
    #[verifier::loop_isolation(false)]
    pub fn handle_event(&mut self, event: &InputEvent, now: u64) -> (d: EventDecision)
        requires
            old(self).wf(),
            old(self).history.can_record(now),
        ensures
            final(self).wf(),
            dispatch_ok(old(self), final(self), *event, now, d),
    {
        match *event {
            InputEvent::KeyPress(key) => {
                if self.is_key_blocked(key, now) {
                    return EventDecision { forward: None, execute: None };
                }
                let action = Action {
                    key: ActionKey::Keyboard(key),
                    action_type: ActionType::Press,
                    timestamp: now,
                };
                self.history.add_action(action);
                // Reserved profile-switch hotkeys come before catalog
                // evaluation and short-circuit it.
                if key == KeyCode::KeyY && self.history.matches_key_modifier(
                    KeyCode::ShiftLeft,
                    KeyCode::KeyY,
                ) {
                    self.set_champion(String::from_str("yasuo"));
                    return EventDecision {
                        forward: Some(InputEvent::KeyPress(key)),
                        execute: None,
                    };
                }
                if key == KeyCode::KeyS && self.history.matches_key_modifier(
                    KeyCode::ShiftLeft,
                    KeyCode::KeyS,
                ) {
                    self.current_champion = None;
                    self.combos.clear();
                    self.combos.push(global_combo());
                    return EventDecision {
                        forward: Some(InputEvent::KeyPress(key)),
                        execute: None,
                    };
                }
                let n = self.combos.len();
                let mut idx: usize = 0;
                let mut fired: Option<usize> = None;
                while idx < n && fired.is_none()
                    invariant
                        idx <= n,
                        match fired {
                            None => forall|j: int|
                                0 <= j < idx ==> !fires(self.combos@, key, &self.history, j),
                            Some(f) => {
                                &&& f == idx
                                &&& f < n
                                &&& fires(self.combos@, key, &self.history, f as int)
                                &&& forall|j: int|
                                    0 <= j < f ==> !fires(self.combos@, key, &self.history, j)
                            },
                        },
                    decreases n - idx, (if fired.is_none() { 1int } else { 0int }),
                {
                    let c = &self.combos[idx];
                    let mut hit = false;
                    if c.active {
                        hit = match &c.trigger {
                            TriggerType::SingleKey(t) => *t == key,
                            TriggerType::KeySequence { keys, timeout_ms } => {
                                if keys[keys.len() - 1] == key {
                                    self.history.matches_key_sequence(keys.as_slice(), *timeout_ms)
                                } else {
                                    false
                                }
                            },
                            TriggerType::KeyModifier { modifier, key: tkey } => *tkey == key
                                && self.history.matches_key_modifier(*modifier, key),
                            TriggerType::Manual => false,
                        };
                    }
                    proof {
                        assert(hit == fires(self.combos@, key, &self.history, idx as int));
                    }
                    if hit {
                        fired = Some(idx);
                    } else {
                        idx += 1;
                    }
                }
                match fired {
                    Some(i) => {
                        proof {
                            lemma_first_fired_at(self.combos@, key, &self.history, i as int);
                        }
                        if self.combos[i].block_original_input {
                            // Withhold the triggering key while the combo runs.
                            self.block_key(key, now);
                            EventDecision { forward: None, execute: Some(i) }
                        } else {
                            EventDecision {
                                forward: Some(InputEvent::KeyPress(key)),
                                execute: Some(i),
                            }
                        }
                    },
                    None => {
                        proof {
                            lemma_first_fired_none(self.combos@, key, &self.history);
                        }
                        EventDecision { forward: Some(InputEvent::KeyPress(key)), execute: None }
                    },
                }
            },
            InputEvent::KeyRelease(key) => {
                if self.is_key_blocked(key, now) {
                    return EventDecision { forward: None, execute: None };
                }
                let action = Action {
                    key: ActionKey::Keyboard(key),
                    action_type: ActionType::Release,
                    timestamp: now,
                };
                self.history.add_action(action);
                EventDecision { forward: Some(InputEvent::KeyRelease(key)), execute: None }
            },
            InputEvent::ButtonPress(button) => {
                let action = Action {
                    key: ActionKey::Mouse(button),
                    action_type: ActionType::Press,
                    timestamp: now,
                };
                self.history.add_action(action);
                EventDecision { forward: Some(InputEvent::ButtonPress(button)), execute: None }
            },
            InputEvent::ButtonRelease(button) => {
                let action = Action {
                    key: ActionKey::Mouse(button),
                    action_type: ActionType::Release,
                    timestamp: now,
                };
                self.history.add_action(action);
                EventDecision { forward: Some(InputEvent::ButtonRelease(button)), execute: None }
            },
            InputEvent::Other => EventDecision { forward: Some(InputEvent::Other), execute: None },
        }
    }

    /// Drops any suppression entry for `key`.
    pub fn unblock_key(&mut self, key: KeyCode)
        requires
            old(self).wf(),
        ensures
            final(self).wf(),
            final(self).history == old(self).history,
            final(self).combos == old(self).combos,
            final(self).current_champion == old(self).current_champion,
            !key_in(final(self).blocked_keys@, key),
            forall|k: KeyCode, t: u64|
                k != key ==> (#[trigger] pair_in(final(self).blocked_keys@, k, t) <==> pair_in(
                    old(self).blocked_keys@,
                    k,
                    t,
                )),
    {
        let ghost pre = self.blocked_keys@;
        if let Some(i) = find_blocked(&self.blocked_keys, key) {
            self.blocked_keys.remove(i);
            proof {
                lemma_remove_entry(pre, i as int);
            }
        }
    }
}

/// The press action observed for `k` at `now`.
pub open spec fn press_action(k: KeyCode, now: u64) -> Action {
    Action { key: ActionKey::Keyboard(k), action_type: ActionType::Press, timestamp: now }
}

/// The release action observed for `k` at `now`.
pub open spec fn release_action(k: KeyCode, now: u64) -> Action {
    Action { key: ActionKey::Keyboard(k), action_type: ActionType::Release, timestamp: now }
}

/// What processing a key press does to the state and decides, step by step:
/// a suppressed key is consumed unrecorded; otherwise the press is recorded,
/// the two reserved profile-switch hotkeys are checked first, and failing
/// those the first active matching catalog entry (against the history that
/// now includes this press) decides execution and suppression.
pub open spec fn press_dispatch(
    pre: &AppState,
    post: &AppState,
    d: EventDecision,
    k: KeyCode,
    now: u64,
) -> bool {
    if blocked_spec(pre.blocked_keys@, k, now) {
        &&& d.forward is None
        &&& d.execute is None
        &&& post.history == pre.history
        &&& post.combos == pre.combos
        &&& post.current_champion == pre.current_champion
        &&& post.blocked_keys@ == purge_spec(pre.blocked_keys@, now)
    } else {
        &&& KeyHistory::recorded(&pre.history, &post.history, press_action(k, now))
        &&& if k == KeyCode::KeyY && post.history.modifier_match(KeyCode::ShiftLeft, KeyCode::KeyY) {
            &&& d.forward == Some(InputEvent::KeyPress(k))
            &&& d.execute is None
            &&& post.current_champion is Some
            &&& post.current_champion->0@ == "yasuo"@
            &&& catalog_for(post.combos@, "yasuo"@)
            &&& post.blocked_keys@ == purge_spec(pre.blocked_keys@, now)
        } else if k == KeyCode::KeyS && post.history.modifier_match(
            KeyCode::ShiftLeft,
            KeyCode::KeyS,
        ) {
            &&& d.forward == Some(InputEvent::KeyPress(k))
            &&& d.execute is None
            &&& post.current_champion is None
            &&& post.combos@.len() == 1
            &&& is_global_combo(&post.combos@[0])
            &&& post.blocked_keys@ == purge_spec(pre.blocked_keys@, now)
        } else {
            &&& post.combos == pre.combos
            &&& post.current_champion == pre.current_champion
            &&& match first_fired(pre.combos@, k, &post.history) {
                Some(i) => {
                    &&& d.execute == Some(i as usize)
                    &&& if pre.combos@[i].block_original_input {
                        &&& d.forward is None
                        &&& suppression_inserted(
                            purge_spec(pre.blocked_keys@, now),
                            post.blocked_keys@,
                            k,
                            now,
                        )
                    } else {
                        &&& d.forward == Some(InputEvent::KeyPress(k))
                        &&& post.blocked_keys@ == purge_spec(pre.blocked_keys@, now)
                    }
                },
                None => {
                    &&& d.forward == Some(InputEvent::KeyPress(k))
                    &&& d.execute is None
                    &&& post.blocked_keys@ == purge_spec(pre.blocked_keys@, now)
                },
            }
        }
    }
}

/// The full per-event contract of the dispatch engine, by event kind.
pub open spec fn dispatch_ok(
    pre: &AppState,
    post: &AppState,
    event: InputEvent,
    now: u64,
    d: EventDecision,
) -> bool {
    match event {
        InputEvent::KeyPress(k) => press_dispatch(pre, post, d, k, now),
        InputEvent::KeyRelease(k) => {
            if blocked_spec(pre.blocked_keys@, k, now) {
                &&& d.forward is None
                &&& d.execute is None
                &&& post.history == pre.history
                &&& post.combos == pre.combos
                &&& post.current_champion == pre.current_champion
                &&& post.blocked_keys@ == purge_spec(pre.blocked_keys@, now)
            } else {
                &&& d.forward == Some(InputEvent::KeyRelease(k))
                &&& d.execute is None
                &&& KeyHistory::recorded(&pre.history, &post.history, release_action(k, now))
                &&& post.combos == pre.combos
                &&& post.current_champion == pre.current_champion
                &&& post.blocked_keys@ == purge_spec(pre.blocked_keys@, now)
            }
        },
        InputEvent::ButtonPress(b) => {
            &&& d.forward == Some(InputEvent::ButtonPress(b))
            &&& d.execute is None
            &&& KeyHistory::recorded(
                &pre.history,
                &post.history,
                Action { key: ActionKey::Mouse(b), action_type: ActionType::Press, timestamp: now },
            )
            &&& post.combos == pre.combos
            &&& post.current_champion == pre.current_champion
            &&& post.blocked_keys == pre.blocked_keys
        },
        InputEvent::ButtonRelease(b) => {
            &&& d.forward == Some(InputEvent::ButtonRelease(b))
            &&& d.execute is None
            &&& KeyHistory::recorded(
                &pre.history,
                &post.history,
                Action {
                    key: ActionKey::Mouse(b),
                    action_type: ActionType::Release,
                    timestamp: now,
                },
            )
            &&& post.combos == pre.combos
            &&& post.current_champion == pre.current_champion
            &&& post.blocked_keys == pre.blocked_keys
        },
        InputEvent::Other => {
            &&& d.forward == Some(InputEvent::Other)
            &&& d.execute is None
            &&& post.history == pre.history
            &&& post.combos == pre.combos
            &&& post.current_champion == pre.current_champion
            &&& post.blocked_keys == pre.blocked_keys
        },
    }
}

/// The index of the suppression entry keyed by `key`, if one exists.
fn find_blocked(entries: &Vec<(KeyCode, u64)>, key: KeyCode) -> (r: Option<usize>)
    ensures
        match r {
            Some(i) => i < entries@.len() && entries@[i as int].0 == key,
            None => !key_in(entries@, key),
        },
{
    let mut i: usize = 0;
    while i < entries.len()
        invariant
            i <= entries@.len(),
            forall|j: int| 0 <= j < i ==> entries@[j].0 != key,
        decreases entries@.len() - i,
    {
        if entries[i].0 == key {
            return Some(i);
        }
        i += 1;
    }
    proof {
        if key_in(entries@, key) {
            let w = choose|w: int| 0 <= w < entries@.len() && entries@[w].0 == key;
        }
    }
    None
}

} // verus!
