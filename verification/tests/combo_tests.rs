use combo_engine::combo::{Combo, TriggerType};
use combo_engine::keys::{ActionKey, KeyCode, PointerButton, key_to_vk};
use combo_engine::plan::{plan_key_sequence, HOLD_MS_MAX, HOLD_MS_MIN};

fn er_suppressing_combo() -> Combo {
    Combo::new(
        "er".to_string(),
        vec![ActionKey::Keyboard(KeyCode::KeyQ), ActionKey::Keyboard(KeyCode::KeyR)],
        vec![(0, 0), (0, 0)],
        TriggerType::KeySequence { keys: vec![KeyCode::KeyE, KeyCode::KeyR], timeout_ms: 150 },
        true,
    )
}

#[test]
fn new_combo_starts_active() {
    let c = er_suppressing_combo();
    assert!(c.active);
    assert_eq!(c.name, "er");
    assert!(c.block_original_input);
}

#[test]
fn should_block_only_the_finishing_key_of_a_matching_sequence() {
    let c = er_suppressing_combo();
    // Preceding presses end in E, the incoming key is the sequence's last.
    assert!(c.should_block_input(KeyCode::KeyR, &[KeyCode::KeyE], 100));
    // The earlier key of the sequence is never blocked.
    assert!(!c.should_block_input(KeyCode::KeyE, &[], 100));
    // Preceding presses that do not match the sequence do not block.
    assert!(!c.should_block_input(KeyCode::KeyR, &[KeyCode::KeyW], 100));
    // An observed interval beyond the trigger's window does not block.
    assert!(!c.should_block_input(KeyCode::KeyR, &[KeyCode::KeyE], 151));
}

#[test]
fn should_block_requires_the_suppress_flag_and_a_sequence_trigger() {
    let mut c = er_suppressing_combo();
    c.block_original_input = false;
    assert!(!c.should_block_input(KeyCode::KeyR, &[KeyCode::KeyE], 100));

    let single = Combo::new(
        "single".to_string(),
        vec![ActionKey::Keyboard(KeyCode::KeyA)],
        vec![],
        TriggerType::SingleKey(KeyCode::KeyR),
        true,
    );
    assert!(!single.should_block_input(KeyCode::KeyR, &[KeyCode::KeyE], 100));
}

#[test]
fn execution_steps_default_missing_delays_to_zero() {
    let c = Combo::new(
        "mixed".to_string(),
        vec![
            ActionKey::Keyboard(KeyCode::KeyA),
            ActionKey::Mouse(PointerButton::Left),
            ActionKey::Keyboard(KeyCode::KeyB),
        ],
        vec![(5, 25)],
        TriggerType::Manual,
        false,
    );
    let steps = c.execution_steps();
    assert_eq!(steps.len(), 3);
    assert_eq!(steps[0], (ActionKey::Keyboard(KeyCode::KeyA), 5, 25));
    assert_eq!(steps[1], (ActionKey::Mouse(PointerButton::Left), 0, 0));
    assert_eq!(steps[2], (ActionKey::Keyboard(KeyCode::KeyB), 0, 0));
}

#[test]
fn virtual_key_table() {
    assert_eq!(key_to_vk(&KeyCode::KeyA), 0x41);
    assert_eq!(key_to_vk(&KeyCode::KeyZ), 0x5A);
    assert_eq!(key_to_vk(&KeyCode::Num0), 0x30);
    assert_eq!(key_to_vk(&KeyCode::Tab), 0x09);
    assert_eq!(key_to_vk(&KeyCode::ShiftRight), 0x10);
    assert_eq!(key_to_vk(&KeyCode::F12), 0x7B);
    assert_eq!(key_to_vk(&KeyCode::UpArrow), 0x26);
    // Keys without a mapping report 0.
    assert_eq!(key_to_vk(&KeyCode::Comma), 0);
    assert_eq!(key_to_vk(&KeyCode::Unknown(42)), 0);
}

#[test]
fn planned_sequence_keeps_keys_and_bounds() {
    let keys = [KeyCode::KeyQ, KeyCode::KeyW, KeyCode::KeyE];
    let plan = plan_key_sequence(&keys, 10, 20);
    assert_eq!(plan.len(), 3);
    for (i, step) in plan.iter().enumerate() {
        assert_eq!(step.key, keys[i]);
        assert!((HOLD_MS_MIN..HOLD_MS_MAX).contains(&step.hold_ms));
        assert!((10..20).contains(&step.delay_after_ms));
    }
}

#[test]
fn planned_sequence_with_empty_delay_range_uses_zero() {
    let keys = [KeyCode::KeyQ];
    let plan = plan_key_sequence(&keys, 30, 30);
    assert_eq!(plan.len(), 1);
    assert_eq!(plan[0].delay_after_ms, 0);
}
