use rusty_keyboard::keys::{
    modifier_key, REMAP_MODIFIER, VK_0, VK_1, VK_C, VK_CAPITAL, VK_D, VK_E, VK_ESCAPE, VK_F,
    VK_F1, VK_F10, VK_I, VK_LCONTROL, VK_LMENU, VK_LSHIFT, VK_N, VK_OEM_3, VK_P, VK_RMENU,
    VK_RSHIFT, VK_SPACE, VK_RETURN, VK_UP, VK_X,
};
use rusty_keyboard::{
    compensate, handle_key_event, key_state_is_held, resolve_batch, ExtensionMap, HeldKeys,
    KeyOutput, KeyState, KeyStroke, SuppressionSet,
};

fn held(remap: bool) -> HeldKeys {
    HeldKeys {
        remap,
        lshift: false,
        rshift: false,
        lcontrol: false,
        rcontrol: false,
        lalt: false,
        ralt: false,
    }
}

fn stroke(code: i32, is_release: bool) -> KeyStroke {
    KeyStroke { code, is_release }
}

#[test]
fn constructors_set_state() {
    assert_eq!(KeyOutput::up(7), KeyOutput { code: 7, state: KeyState::Up });
    assert_eq!(KeyOutput::down(7), KeyOutput { code: 7, state: KeyState::Down });
    assert_eq!(KeyOutput::follow(7), KeyOutput { code: 7, state: KeyState::FollowExisting });
}

#[test]
fn resolve_batch_follows_trigger_only_for_follow_actions() {
    let keys = vec![KeyOutput::down(1), KeyOutput::up(2), KeyOutput::follow(3)];
    assert_eq!(
        resolve_batch(&keys, true),
        vec![stroke(1, false), stroke(2, true), stroke(3, true)]
    );
    assert_eq!(
        resolve_batch(&keys, false),
        vec![stroke(1, false), stroke(2, true), stroke(3, false)]
    );
    assert!(resolve_batch(&Vec::new(), false).is_empty());
}

#[test]
fn key_state_high_bit_means_held() {
    assert!(key_state_is_held(i16::MIN));
    assert!(key_state_is_held(-1));
    assert!(key_state_is_held(-32767));
    assert!(!key_state_is_held(0));
    assert!(!key_state_is_held(1));
    assert!(!key_state_is_held(i16::MAX));
}

#[test]
fn held_keys_report_tracked_keys_only() {
    let mut h = held(true);
    h.rshift = true;
    assert!(h.is_held(REMAP_MODIFIER));
    assert!(h.is_held(VK_RSHIFT));
    assert!(!h.is_held(VK_LSHIFT));
    assert!(!h.is_held(VK_E));
    assert_eq!(modifier_key(0), VK_LSHIFT);
    assert_eq!(modifier_key(5), VK_RMENU);
}

#[test]
fn built_in_table_entries() {
    let t = ExtensionMap::new();
    assert_eq!(t.key_map.len(), 39);
    assert_eq!(t.key_map.get(&VK_1), Some(&vec![KeyOutput::follow(VK_F1)]));
    assert_eq!(t.key_map.get(&VK_0), Some(&vec![KeyOutput::follow(VK_F10)]));
    assert_eq!(t.key_map.get(&VK_I), Some(&vec![KeyOutput::follow(VK_UP)]));
    assert_eq!(t.key_map.get(&VK_SPACE), Some(&vec![KeyOutput::follow(VK_RETURN)]));
    assert_eq!(t.key_map.get(&VK_OEM_3), Some(&vec![KeyOutput::follow(VK_CAPITAL)]));
    assert_eq!(
        t.key_map.get(&VK_E),
        Some(&vec![
            KeyOutput::down(VK_LCONTROL),
            KeyOutput::down(VK_F),
            KeyOutput::up(VK_F),
            KeyOutput::up(VK_LCONTROL),
        ])
    );
    assert_eq!(
        t.key_map.get(&VK_P),
        Some(&vec![
            KeyOutput::down(VK_LSHIFT),
            KeyOutput::down(VK_F10),
            KeyOutput::up(VK_F10),
            KeyOutput::up(VK_LSHIFT),
        ])
    );
    assert_eq!(t.key_map.get(&VK_N), None);
    assert!(t.key_map.values().all(|v| !v.is_empty()));
}

#[test]
fn insert_refuses_empty_entry() {
    let mut t = ExtensionMap::empty();
    assert!(!t.insert(VK_D, Vec::new()));
    assert!(t.key_map.is_empty());
    assert!(t.insert(VK_D, vec![KeyOutput::follow(VK_ESCAPE)]));
    assert!(t.insert(VK_D, vec![KeyOutput::follow(VK_UP)]));
    assert_eq!(t.key_map.get(&VK_D), Some(&vec![KeyOutput::follow(VK_UP)]));
}

#[test]
fn suppression_set_counts_copies() {
    let mut s = SuppressionSet::new();
    assert_eq!(s.len(), 0);
    assert!(!s.take(VK_X));
    s.register(&vec![KeyOutput::down(VK_X), KeyOutput::up(VK_X), KeyOutput::down(VK_C)]);
    assert_eq!(s.len(), 3);
    assert!(s.take(VK_X));
    assert!(s.contains(VK_X));
    assert!(s.take(VK_X));
    assert!(!s.contains(VK_X));
    assert!(!s.take(VK_X));
    assert!(s.take(VK_C));
    assert_eq!(s.len(), 0);
}

#[test]
fn compensate_puts_last_examined_modifier_in_front() {
    let mut h = held(true);
    h.lshift = true;
    h.ralt = true;
    let mut actions = vec![KeyOutput::down(VK_C), KeyOutput::up(VK_C)];
    compensate(&h, &mut actions);
    assert_eq!(
        actions,
        vec![
            KeyOutput::down(VK_RMENU),
            KeyOutput::up(VK_RMENU),
            KeyOutput::down(VK_LSHIFT),
            KeyOutput::up(VK_LSHIFT),
            KeyOutput::down(VK_C),
            KeyOutput::up(VK_C),
        ]
    );
}

#[test]
fn compensate_without_held_modifiers_changes_nothing() {
    let mut h = held(true);
    h.lalt = false;
    let mut actions = vec![KeyOutput::down(VK_LMENU)];
    compensate(&h, &mut actions);
    assert_eq!(actions, vec![KeyOutput::down(VK_LMENU)]);
}

#[test]
fn suppressed_code_passes_once_then_is_fresh() {
    let table = ExtensionMap::new();
    let mut pending = SuppressionSet::new();
    pending.register(&vec![KeyOutput::down(VK_I)]);
    let h = held(true);

    let first = handle_key_event(&table, &mut pending, &h, VK_I, false);
    assert!(first.forward);
    assert!(first.strokes.is_empty());
    assert_eq!(pending.len(), 0);

    // the same key again is a trigger like any other
    let second = handle_key_event(&table, &mut pending, &h, VK_I, false);
    assert!(!second.forward);
    assert_eq!(second.strokes, vec![stroke(VK_UP, false)]);
}

#[test]
fn repeated_code_is_suppressed_as_often_as_registered() {
    let table = ExtensionMap::new();
    let mut pending = SuppressionSet::new();
    let h = held(true);
    // ctrl + x: x is both the trigger and part of the chord
    let press = handle_key_event(&table, &mut pending, &h, VK_X, false);
    assert_eq!(press.strokes.len(), 4);
    assert_eq!(pending.len(), 4);
    assert!(handle_key_event(&table, &mut pending, &h, VK_X, false).forward);
    assert!(handle_key_event(&table, &mut pending, &h, VK_X, true).forward);
    assert!(!pending.contains(VK_X));
    assert_eq!(pending.len(), 2);
}

#[test]
fn unmapped_key_passes_unmodified() {
    let table = ExtensionMap::new();
    let mut pending = SuppressionSet::new();
    let r = handle_key_event(&table, &mut pending, &held(true), VK_N, false);
    assert!(r.forward);
    assert!(r.strokes.is_empty());
    assert_eq!(pending.len(), 0);
}

#[test]
fn trigger_without_remap_modifier_passes_unmodified() {
    let table = ExtensionMap::new();
    let mut pending = SuppressionSet::new();
    for is_release in [false, true] {
        let r = handle_key_event(&table, &mut pending, &held(false), VK_E, is_release);
        assert!(r.forward);
        assert!(r.strokes.is_empty());
    }
    assert_eq!(pending.len(), 0);
}

#[test]
fn built_in_follow_trigger_maps_digit_to_function_key() {
    let table = ExtensionMap::new();
    let mut pending = SuppressionSet::new();
    let r = handle_key_event(&table, &mut pending, &held(true), VK_1, true);
    assert_eq!(r.strokes, vec![stroke(VK_F1, true)]);
    assert!(!r.forward);
}
