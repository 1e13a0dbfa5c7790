use render_wgpu::input::{
    cursor_moves_camera, key_action, raw_motion_moves_camera, Key, KeyAction, KeyContext, Spell,
};

fn ctx(alive: bool) -> KeyContext {
    KeyContext {
        pc_alive: alive,
        is_cc_demo: false,
        alt_hold: false,
    }
}

#[test]
fn movement_keys_only_when_alive() {
    assert_eq!(key_action(Key::KeyW, true, ctx(true)), KeyAction::SetForward(true));
    assert_eq!(key_action(Key::KeyS, false, ctx(true)), KeyAction::SetBackward(false));
    assert_eq!(key_action(Key::ShiftRight, true, ctx(true)), KeyAction::SetShift(true));
    assert_eq!(key_action(Key::KeyW, true, ctx(false)), KeyAction::Ignore);
    assert_eq!(key_action(Key::KeyQ, true, ctx(false)), KeyAction::Ignore);
}

#[test]
fn number_keys_cast_on_press_outside_demo() {
    assert_eq!(key_action(Key::Digit1, true, ctx(true)), KeyAction::TryCast(Spell::FireBolt));
    assert_eq!(key_action(Key::Numpad2, true, ctx(true)), KeyAction::TryCast(Spell::MagicMissile));
    assert_eq!(key_action(Key::Digit3, true, ctx(true)), KeyAction::TryCast(Spell::Fireball));
    assert_eq!(key_action(Key::Digit3, false, ctx(true)), KeyAction::Ignore);
    let demo = KeyContext { is_cc_demo: true, ..ctx(true) };
    assert_eq!(key_action(Key::Digit1, true, demo), KeyAction::Ignore);
}

#[test]
fn respawn_space_and_alt() {
    assert_eq!(key_action(Key::KeyR, true, ctx(false)), KeyAction::Respawn);
    assert_eq!(key_action(Key::Enter, true, ctx(false)), KeyAction::Respawn);
    assert_eq!(key_action(Key::KeyR, true, ctx(true)), KeyAction::Ignore);
    assert_eq!(key_action(Key::Space, true, ctx(true)), KeyAction::ToggleSkyPause);
    assert_eq!(key_action(Key::Space, false, ctx(true)), KeyAction::Ignore);
    assert_eq!(key_action(Key::Space, true, ctx(false)), KeyAction::ToggleSkyPause);
    assert_eq!(key_action(Key::AltLeft, true, ctx(true)), KeyAction::CursorToggle);
    assert_eq!(key_action(Key::AltLeft, false, ctx(true)), KeyAction::Ignore);
    let hold = KeyContext { alt_hold: true, ..ctx(true) };
    assert_eq!(key_action(Key::AltRight, false, hold), KeyAction::CursorHold(false));
    assert_eq!(key_action(Key::Minus, true, ctx(false)), KeyAction::SlowTime);
    assert_eq!(key_action(Key::NumpadDivide, true, ctx(true)), KeyAction::ToggleWalk);
    assert_eq!(key_action(Key::Other, true, ctx(true)), KeyAction::Ignore);
}

#[test]
fn motion_goes_through_one_path() {
    assert!(cursor_moves_camera(false, true, false));
    assert!(!cursor_moves_camera(true, true, true));
    assert!(raw_motion_moves_camera(true, false, true));
    assert!(!raw_motion_moves_camera(false, true, true));
    assert!(!raw_motion_moves_camera(true, false, false));
}

const ALL_KEYS: [Key; 29] = [
    Key::AltLeft,
    Key::AltRight,
    Key::KeyW,
    Key::KeyS,
    Key::KeyA,
    Key::KeyD,
    Key::KeyQ,
    Key::KeyE,
    Key::ShiftLeft,
    Key::ShiftRight,
    Key::Digit1,
    Key::Numpad1,
    Key::Digit2,
    Key::Numpad2,
    Key::Digit3,
    Key::Numpad3,
    Key::KeyR,
    Key::Space,
    Key::BracketLeft,
    Key::BracketRight,
    Key::Minus,
    Key::Equal,
    Key::KeyP,
    Key::KeyH,
    Key::KeyO,
    Key::Enter,
    Key::NumLock,
    Key::NumpadDivide,
    Key::Other,
];

#[test]
fn dead_character_cannot_move_or_cast() {
    for k in ALL_KEYS {
        for pressed in [false, true] {
            let a = key_action(k, pressed, ctx(false));
            assert!(!matches!(
                a,
                KeyAction::SetForward(_)
                    | KeyAction::SetBackward(_)
                    | KeyAction::SetA(_)
                    | KeyAction::SetD(_)
                    | KeyAction::SetQ(_)
                    | KeyAction::SetE(_)
                    | KeyAction::SetShift(_)
                    | KeyAction::TryCast(_)
            ));
        }
    }
}

#[test]
fn releasing_a_key_only_releases() {
    for hold in [false, true] {
        for alive in [false, true] {
            let c = KeyContext { alt_hold: hold, ..ctx(alive) };
            for k in ALL_KEYS {
                let ok = match key_action(k, false, c) {
                    KeyAction::Ignore => true,
                    KeyAction::CursorHold(b)
                    | KeyAction::SetForward(b)
                    | KeyAction::SetBackward(b)
                    | KeyAction::SetA(b)
                    | KeyAction::SetD(b)
                    | KeyAction::SetQ(b)
                    | KeyAction::SetE(b)
                    | KeyAction::SetShift(b) => !b,
                    _ => false,
                };
                assert!(ok);
            }
        }
    }
}
