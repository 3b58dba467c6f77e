use combo_engine::combo::{Combo, TriggerType};
use combo_engine::engine::{AppState, EventDecision, InputEvent};
use combo_engine::keys::{ActionKey, KeyCode, PointerButton};

#[test]
fn test_basic_functionality() {
    assert_eq!(2 + 2, 4);
}

fn single_key_combo(name: &str, trigger_key: KeyCode) -> Combo {
    Combo::new(
        name.to_string(),
        vec![ActionKey::Keyboard(KeyCode::KeyA)],
        vec![(0, 0)],
        TriggerType::SingleKey(trigger_key),
        false,
    )
}

#[test]
fn suppression_window_bounds() {
    let mut state = AppState::new();
    state.block_key(KeyCode::KeyR, 1000);
    // Any query strictly before t0 + 100 reports blocked.
    assert!(state.is_key_blocked(KeyCode::KeyR, 1000));
    assert!(state.is_key_blocked(KeyCode::KeyR, 1099));
    // From t0 + 100 on, the key is no longer blocked.
    assert!(!state.is_key_blocked(KeyCode::KeyR, 1100));
    // Other keys are unaffected.
    state.block_key(KeyCode::KeyR, 2000);
    assert!(!state.is_key_blocked(KeyCode::KeyE, 2000));
}

#[test]
fn unblock_removes_entry() {
    let mut state = AppState::new();
    state.block_key(KeyCode::KeyR, 0);
    state.unblock_key(KeyCode::KeyR);
    assert!(!state.is_key_blocked(KeyCode::KeyR, 1));
}

#[test]
fn default_combo_fires_on_tab_and_forwards() {
    let mut state = AppState::new();
    let d = state.handle_event(&InputEvent::KeyPress(KeyCode::Tab), 0);
    assert_eq!(d.execute, Some(0));
    assert_eq!(d.forward, Some(InputEvent::KeyPress(KeyCode::Tab)));
}

#[test]
fn unmatched_key_passes_through() {
    let mut state = AppState::new();
    let d = state.handle_event(&InputEvent::KeyPress(KeyCode::KeyZ), 0);
    assert_eq!(d.execute, None);
    assert_eq!(d.forward, Some(InputEvent::KeyPress(KeyCode::KeyZ)));
}

#[test]
fn catalog_precedence_first_match_wins() {
    let mut state = AppState::new();
    state.combos.clear();
    state.combos.push(single_key_combo("first", KeyCode::KeyQ));
    state.combos.push(single_key_combo("second", KeyCode::KeyQ));
    let d = state.handle_event(&InputEvent::KeyPress(KeyCode::KeyQ), 0);
    assert_eq!(d.execute, Some(0));
}

#[test]
fn inactive_combo_never_fires() {
    let mut state = AppState::new();
    state.combos.clear();
    let mut first = single_key_combo("first", KeyCode::KeyQ);
    first.active = false;
    state.combos.push(first);
    state.combos.push(single_key_combo("second", KeyCode::KeyQ));
    let d = state.handle_event(&InputEvent::KeyPress(KeyCode::KeyQ), 0);
    assert_eq!(d.execute, Some(1));
}

#[test]
fn manual_trigger_never_fires() {
    let mut state = AppState::new();
    state.combos.clear();
    state.combos.push(Combo::new(
        "manual".to_string(),
        vec![ActionKey::Keyboard(KeyCode::KeyA)],
        vec![],
        TriggerType::Manual,
        false,
    ));
    let d = state.handle_event(&InputEvent::KeyPress(KeyCode::KeyA), 0);
    assert_eq!(d.execute, None);
}

#[test]
fn profile_switch_replaces_catalog_wholesale() {
    let mut state = AppState::new();
    assert_eq!(state.combos.len(), 1);
    assert_eq!(state.current_champion, None);

    state.set_champion("yasuo".to_string());
    assert_eq!(state.current_champion.as_deref(), Some("yasuo"));
    assert_eq!(state.combos.len(), 3);
    // Profile-specific bindings come first; the global default is appended
    // last so the profile bindings take precedence.
    assert_eq!(state.combos[0].name, "yasuo_er_qr");
    assert_eq!(state.combos[1].name, "yasuo_ed_qd");
    assert_eq!(state.combos[2].name, "tab_a_click");

    // Switching to an unknown profile installs only the default binding:
    // entirely the new set, never a mixture.
    state.set_champion("annie".to_string());
    assert_eq!(state.current_champion.as_deref(), Some("annie"));
    assert_eq!(state.combos.len(), 1);
    assert_eq!(state.combos[0].name, "tab_a_click");
}

#[test]
fn profile_name_matches_ignoring_ascii_case() {
    let mut state = AppState::new();
    state.set_champion("Yasuo".to_string());
    assert_eq!(state.combos.len(), 3);
    state.set_champion("YASUO".to_string());
    assert_eq!(state.combos.len(), 3);
    state.set_champion("yasuot".to_string());
    assert_eq!(state.combos.len(), 1);
}

#[test]
fn profile_name_accepts_cjk_alias() {
    let mut state = AppState::new();
    state.set_champion("亚索".to_string());
    assert_eq!(state.combos.len(), 3);
    assert_eq!(state.combos[0].name, "yasuo_er_qr");
    // Other non-ASCII names install only the default binding.
    state.set_champion("亚".to_string());
    assert_eq!(state.combos.len(), 1);
    state.set_champion("索亚".to_string());
    assert_eq!(state.combos.len(), 1);
}

#[test]
fn sequence_trigger_suppresses_finishing_key() {
    let mut state = AppState::new();
    state.set_champion("yasuo".to_string());

    // E alone fires nothing and is forwarded.
    let d = state.handle_event(&InputEvent::KeyPress(KeyCode::KeyE), 0);
    assert_eq!(d.execute, None);
    assert_eq!(d.forward, Some(InputEvent::KeyPress(KeyCode::KeyE)));

    // R within the trigger window fires the E,R combo (first in the
    // catalog); the triggering R is consumed.
    let d = state.handle_event(&InputEvent::KeyPress(KeyCode::KeyR), 50);
    assert_eq!(d.execute, Some(0));
    assert_eq!(d.forward, None);

    // A second R inside the suppression window is consumed without firing.
    let d = state.handle_event(&InputEvent::KeyPress(KeyCode::KeyR), 100);
    assert_eq!(d.execute, None);
    assert_eq!(d.forward, None);

    // The release of the suppressed key is swallowed too.
    let d = state.handle_event(&InputEvent::KeyRelease(KeyCode::KeyR), 120);
    assert_eq!(d.forward, None);

    // Past the window the next R is forwarded normally (and no longer
    // completes the sequence).
    let d = state.handle_event(&InputEvent::KeyPress(KeyCode::KeyR), 151);
    assert_eq!(d.execute, None);
    assert_eq!(d.forward, Some(InputEvent::KeyPress(KeyCode::KeyR)));
}

#[test]
fn sequence_trigger_past_its_window_does_not_fire() {
    let mut state = AppState::new();
    state.set_champion("yasuo".to_string());
    let _ = state.handle_event(&InputEvent::KeyPress(KeyCode::KeyE), 0);
    let d = state.handle_event(&InputEvent::KeyPress(KeyCode::KeyR), 1501);
    assert_eq!(d.execute, None);
    assert_eq!(d.forward, Some(InputEvent::KeyPress(KeyCode::KeyR)));
}

#[test]
fn shift_y_hotkey_switches_to_yasuo() {
    let mut state = AppState::new();
    let d = state.handle_event(&InputEvent::KeyPress(KeyCode::ShiftLeft), 0);
    assert_eq!(d.forward, Some(InputEvent::KeyPress(KeyCode::ShiftLeft)));
    let d = state.handle_event(&InputEvent::KeyPress(KeyCode::KeyY), 10);
    assert_eq!(d.forward, Some(InputEvent::KeyPress(KeyCode::KeyY)));
    assert_eq!(d.execute, None);
    assert_eq!(state.current_champion.as_deref(), Some("yasuo"));
    assert_eq!(state.combos.len(), 3);
}

#[test]
fn shift_s_hotkey_restores_global_profile() {
    let mut state = AppState::new();
    state.set_champion("yasuo".to_string());
    let _ = state.handle_event(&InputEvent::KeyPress(KeyCode::ShiftLeft), 0);
    let d = state.handle_event(&InputEvent::KeyPress(KeyCode::KeyS), 10);
    assert_eq!(d.forward, Some(InputEvent::KeyPress(KeyCode::KeyS)));
    assert_eq!(state.current_champion, None);
    assert_eq!(state.combos.len(), 1);
    assert_eq!(state.combos[0].name, "tab_a_click");
}

#[test]
fn pointer_events_are_recorded_and_forwarded() {
    let mut state = AppState::new();
    let d = state.handle_event(&InputEvent::ButtonPress(PointerButton::Left), 0);
    assert_eq!(d.forward, Some(InputEvent::ButtonPress(PointerButton::Left)));
    assert_eq!(d.execute, None);
    let d = state.handle_event(&InputEvent::ButtonRelease(PointerButton::Left), 10);
    assert_eq!(d.forward, Some(InputEvent::ButtonRelease(PointerButton::Left)));
    assert_eq!(state.history.actions.len(), 2);
    // Pointer events never enter the recent keyboard sequence.
    assert_eq!(state.history.get_recent_key_sequence().len(), 0);
}

#[test]
fn other_events_pass_through_unrecorded() {
    let mut state = AppState::new();
    let d = state.handle_event(&InputEvent::Other, 0);
    assert_eq!(d.forward, Some(InputEvent::Other));
    assert_eq!(d.execute, None);
    assert_eq!(state.history.actions.len(), 0);
}

#[test]
fn decision_struct_is_plain_data() {
    let d = EventDecision { forward: None, execute: Some(2) };
    assert_eq!(d.execute, Some(2));
    assert!(d.forward.is_none());
}
