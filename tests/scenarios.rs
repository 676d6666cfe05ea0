use rusty_keyboard::keys::{
    REMAP_MODIFIER, TOGGLE_KEY, VK_CAPITAL, VK_E, VK_F, VK_F22, VK_K, VK_LCONTROL, VK_LMENU,
    VK_LSHIFT, VK_RCONTROL, VK_RMENU, VK_RSHIFT, VK_UP,
};
use rusty_keyboard::{handle_key_event, ExtensionMap, HeldKeys, KeyOutput, KeyStroke, SuppressionSet};

fn held(remap: bool) -> HeldKeys {
    HeldKeys {
        remap,
        lshift: false,
        rshift: false,
        lcontrol: false,
        rcontrol: false,
        lalt: false,
        ralt: false,
    }
}

fn stroke(code: i32, is_release: bool) -> KeyStroke {
    KeyStroke { code, is_release }
}

fn chord_e() -> ExtensionMap {
    let mut table = ExtensionMap::empty();
    assert!(table.insert(
        VK_E,
        vec![
            KeyOutput::down(VK_LCONTROL),
            KeyOutput::down(VK_F),
            KeyOutput::up(VK_F),
            KeyOutput::up(VK_LCONTROL),
        ],
    ));
    table
}

#[test]
fn follow_trigger_tracks_press_and_release() {
    let mut table = ExtensionMap::empty();
    assert!(table.insert(VK_K, vec![KeyOutput::follow(VK_UP)]));
    let mut pending = SuppressionSet::new();
    let h = held(true);

    let press = handle_key_event(&table, &mut pending, &h, VK_K, false);
    assert_eq!(press.strokes, vec![stroke(VK_UP, false)]);
    assert!(!press.forward);

    let release = handle_key_event(&table, &mut pending, &h, VK_K, true);
    assert_eq!(release.strokes, vec![stroke(VK_UP, true)]);
    assert!(!release.forward);
    assert_eq!(pending.len(), 0);
}

#[test]
fn chord_press_emits_batch_and_registers_codes() {
    let table = chord_e();
    let mut pending = SuppressionSet::new();
    let h = held(true);

    let press = handle_key_event(&table, &mut pending, &h, VK_E, false);
    assert_eq!(
        press.strokes,
        vec![
            stroke(VK_LCONTROL, false),
            stroke(VK_F, false),
            stroke(VK_F, true),
            stroke(VK_LCONTROL, true),
        ]
    );
    assert!(!press.forward);
    assert_eq!(pending.len(), 4);
    assert!(pending.contains(VK_LCONTROL));
    assert!(pending.contains(VK_F));
}

#[test]
fn chord_release_emits_nothing_and_is_consumed() {
    let table = chord_e();
    let mut pending = SuppressionSet::new();
    let h = held(true);

    let press = handle_key_event(&table, &mut pending, &h, VK_E, false);
    // the injected batch comes back first and is let through
    for s in press.strokes.iter() {
        let back = handle_key_event(&table, &mut pending, &h, s.code, s.is_release);
        assert!(back.forward);
        assert!(back.strokes.is_empty());
    }
    assert_eq!(pending.len(), 0);

    let release = handle_key_event(&table, &mut pending, &h, VK_E, true);
    assert!(release.strokes.is_empty());
    assert!(!release.forward);
    assert_eq!(pending.len(), 0);
}

#[test]
fn chord_with_left_shift_held_is_compensated() {
    let table = chord_e();
    let mut pending = SuppressionSet::new();
    let mut h = held(true);
    h.lshift = true;

    let press = handle_key_event(&table, &mut pending, &h, VK_E, false);
    assert_eq!(
        press.strokes,
        vec![
            stroke(VK_LSHIFT, false),
            stroke(VK_LSHIFT, true),
            stroke(VK_LCONTROL, false),
            stroke(VK_F, false),
            stroke(VK_F, true),
            stroke(VK_LCONTROL, true),
        ]
    );
    assert_eq!(pending.len(), 6);
    assert!(pending.contains(VK_LSHIFT));
}

#[test]
fn toggle_release_frees_right_control() {
    let table = ExtensionMap::new();
    let mut pending = SuppressionSet::new();
    let mut h = held(true);
    h.rcontrol = true;

    let release = handle_key_event(&table, &mut pending, &h, VK_CAPITAL, true);
    assert_eq!(release.strokes, vec![stroke(VK_F22, true), stroke(VK_RCONTROL, true)]);
    assert!(!release.forward);
}

#[test]
fn toggle_press_only_presses_remap_modifier() {
    let table = ExtensionMap::new();
    let mut pending = SuppressionSet::new();
    let mut h = held(false);
    h.lshift = true;
    h.ralt = true;

    let press = handle_key_event(&table, &mut pending, &h, TOGGLE_KEY, false);
    assert_eq!(press.strokes, vec![stroke(REMAP_MODIFIER, false)]);
    assert!(!press.forward);
    assert_eq!(pending.len(), 0);
}

#[test]
fn toggle_release_frees_every_held_modifier_in_order() {
    let table = ExtensionMap::new();
    let mut pending = SuppressionSet::new();
    let h = HeldKeys {
        remap: true,
        lshift: true,
        rshift: true,
        lcontrol: true,
        rcontrol: true,
        lalt: true,
        ralt: true,
    };

    let release = handle_key_event(&table, &mut pending, &h, TOGGLE_KEY, true);
    assert_eq!(
        release.strokes,
        vec![
            stroke(REMAP_MODIFIER, true),
            stroke(VK_LSHIFT, true),
            stroke(VK_RSHIFT, true),
            stroke(VK_LCONTROL, true),
            stroke(VK_RCONTROL, true),
            stroke(VK_LMENU, true),
            stroke(VK_RMENU, true),
        ]
    );
}

#[test]
fn toggle_release_with_nothing_held_releases_only_remap_modifier() {
    let table = ExtensionMap::new();
    let mut pending = SuppressionSet::new();
    let release = handle_key_event(&table, &mut pending, &held(true), TOGGLE_KEY, true);
    assert_eq!(release.strokes, vec![stroke(REMAP_MODIFIER, true)]);
}
