use combo_engine::history::{Action, ActionType, KeyHistory};
use combo_engine::keys::{ActionKey, KeyCode};

fn press(key: KeyCode, timestamp: u64) -> Action {
    Action { key: ActionKey::Keyboard(key), action_type: ActionType::Press, timestamp }
}

fn release(key: KeyCode, timestamp: u64) -> Action {
    Action { key: ActionKey::Keyboard(key), action_type: ActionType::Release, timestamp }
}

#[test]
fn test_key_history() {
    let mut history = KeyHistory::new(5, 5, 1000);
    let now = 0u64;

    history.add_action(press(KeyCode::KeyQ, now));
    history.add_action(press(KeyCode::KeyW, now));
    history.add_action(press(KeyCode::KeyE, now));

    let recent_keys = history.get_recent_key_sequence();
    assert_eq!(recent_keys.len(), 3);
    assert_eq!(recent_keys[0], KeyCode::KeyQ);
    assert_eq!(recent_keys[1], KeyCode::KeyW);
    assert_eq!(recent_keys[2], KeyCode::KeyE);
}

#[test]
fn recent_sequence_evicts_oldest_past_capacity() {
    // Log and sequence capacity 5; six presses leave the five most recent.
    let mut history = KeyHistory::new(5, 5, 10_000);
    let keys = [
        KeyCode::KeyQ,
        KeyCode::KeyW,
        KeyCode::KeyE,
        KeyCode::KeyR,
        KeyCode::KeyT,
        KeyCode::KeyY,
    ];
    for (i, k) in keys.iter().enumerate() {
        history.add_action(press(*k, i as u64 * 10));
    }
    let recent = history.get_recent_key_sequence();
    assert_eq!(
        recent,
        vec![KeyCode::KeyW, KeyCode::KeyE, KeyCode::KeyR, KeyCode::KeyT, KeyCode::KeyY]
    );
    assert_eq!(history.actions.len(), 5);
}

#[test]
fn log_holds_exactly_max_size_after_overflow() {
    let mut history = KeyHistory::new(3, 10, 10_000);
    for i in 0..7u64 {
        history.add_action(press(KeyCode::KeyA, i));
    }
    assert_eq!(history.actions.len(), 3);
    // The three most recent entries remain.
    assert_eq!(history.actions[0].timestamp, 4);
    assert_eq!(history.actions[2].timestamp, 6);
}

#[test]
fn expired_entries_leave_the_log_front() {
    let mut history = KeyHistory::new(10, 10, 100);
    history.add_action(press(KeyCode::KeyA, 0));
    history.add_action(press(KeyCode::KeyB, 50));
    // 250 - 0 > 100 and 250 - 50 > 100: both earlier entries expire.
    history.add_action(press(KeyCode::KeyC, 250));
    assert_eq!(history.actions.len(), 1);
    assert_eq!(history.actions[0].timestamp, 250);
    // The recent-press sequence is not time-evicted.
    assert_eq!(history.get_recent_key_sequence().len(), 3);
}

#[test]
fn sequence_match_within_timeout() {
    // E at t=0 and R at t=100 match [E, R] under a 150 ms window.
    let mut history = KeyHistory::new(20, 10, 10_000);
    history.add_action(press(KeyCode::KeyE, 0));
    history.add_action(press(KeyCode::KeyR, 100));
    assert!(history.matches_key_sequence(&[KeyCode::KeyE, KeyCode::KeyR], 150));
}

#[test]
fn sequence_match_past_timeout() {
    // R arriving at t=200 is too late for a 150 ms window.
    let mut history = KeyHistory::new(20, 10, 10_000);
    history.add_action(press(KeyCode::KeyE, 0));
    history.add_action(press(KeyCode::KeyR, 200));
    assert!(!history.matches_key_sequence(&[KeyCode::KeyE, KeyCode::KeyR], 150));
}

#[test]
fn sequence_match_needs_enough_presses_and_order() {
    let mut history = KeyHistory::new(20, 10, 10_000);
    history.add_action(press(KeyCode::KeyR, 0));
    // Only one press recorded.
    assert!(!history.matches_key_sequence(&[KeyCode::KeyE, KeyCode::KeyR], 1000));
    history.add_action(press(KeyCode::KeyE, 10));
    // Two presses, but in the wrong order.
    assert!(!history.matches_key_sequence(&[KeyCode::KeyE, KeyCode::KeyR], 1000));
    history.add_action(press(KeyCode::KeyR, 20));
    // Now the last two presses are E then R.
    assert!(history.matches_key_sequence(&[KeyCode::KeyE, KeyCode::KeyR], 1000));
}

#[test]
fn sequence_match_uses_delta_of_matched_window() {
    // Three-key match measures first-to-last of the matched entries.
    let mut history = KeyHistory::new(20, 10, 10_000);
    history.add_action(press(KeyCode::KeyQ, 0));
    history.add_action(press(KeyCode::KeyW, 60));
    history.add_action(press(KeyCode::KeyE, 120));
    assert!(history.matches_key_sequence(&[KeyCode::KeyQ, KeyCode::KeyW, KeyCode::KeyE], 120));
    assert!(!history.matches_key_sequence(&[KeyCode::KeyQ, KeyCode::KeyW, KeyCode::KeyE], 119));
    // The two-key suffix only spans 60 ms.
    assert!(history.matches_key_sequence(&[KeyCode::KeyW, KeyCode::KeyE], 60));
}

#[test]
fn last_key_interval() {
    let mut history = KeyHistory::new(20, 10, 10_000);
    assert_eq!(history.get_last_key_interval(), 0);
    history.add_action(press(KeyCode::KeyQ, 40));
    assert_eq!(history.get_last_key_interval(), 0);
    history.add_action(press(KeyCode::KeyW, 150));
    assert_eq!(history.get_last_key_interval(), 110);
}

#[test]
fn modifier_match_follows_held_keys() {
    let mut history = KeyHistory::new(20, 10, 10_000);
    history.add_action(press(KeyCode::ShiftLeft, 0));
    history.add_action(press(KeyCode::KeyY, 10));
    assert!(history.matches_key_modifier(KeyCode::ShiftLeft, KeyCode::KeyY));
    // The modifier must be the one held.
    assert!(!history.matches_key_modifier(KeyCode::ControlLeft, KeyCode::KeyY));
    // The key must be the most recent press.
    history.add_action(press(KeyCode::KeyU, 20));
    assert!(!history.matches_key_modifier(KeyCode::ShiftLeft, KeyCode::KeyY));
    // Releasing the modifier ends the match.
    history.add_action(press(KeyCode::KeyY, 30));
    assert!(history.matches_key_modifier(KeyCode::ShiftLeft, KeyCode::KeyY));
    history.add_action(release(KeyCode::ShiftLeft, 40));
    assert!(!history.matches_key_modifier(KeyCode::ShiftLeft, KeyCode::KeyY));
}

#[test]
fn releases_are_logged_but_not_recent() {
    let mut history = KeyHistory::new(20, 10, 10_000);
    history.add_action(press(KeyCode::KeyA, 0));
    history.add_action(release(KeyCode::KeyA, 10));
    assert_eq!(history.actions.len(), 2);
    assert_eq!(history.get_recent_key_sequence(), vec![KeyCode::KeyA]);
}
