//! Window input decisions: which action a key event, a mouse button or a
//! cursor motion calls for, given the player's state. The caller decodes
//! platform events into these values and performs the actions.
use vstd::prelude::*;

verus! {

/// The keys the renderer reacts to; every other key is `Other`.
#[derive(Copy, Clone, Debug, PartialEq, Eq, Hash, Structural)]
pub enum Key {
    AltLeft,
    AltRight,
    KeyW,
    KeyS,
    KeyA,
    KeyD,
    KeyQ,
    KeyE,
    ShiftLeft,
    ShiftRight,
    Digit1,
    Numpad1,
    Digit2,
    Numpad2,
    Digit3,
    Numpad3,
    KeyR,
    Space,
    BracketLeft,
    BracketRight,
    Minus,
    Equal,
    KeyP,
    KeyH,
    KeyO,
    Enter,
    NumLock,
    NumpadDivide,
    Other,
}

/// Spells bound to the number keys.
#[derive(Copy, Clone, Debug, PartialEq, Eq, Hash, Structural)]
pub enum Spell {
    FireBolt,
    MagicMissile,
    Fireball,
}

/// State that decides how a key is interpreted.
#[derive(Copy, Clone, Debug, PartialEq, Eq, Structural)]
pub struct KeyContext {
    /// The player character is alive.
    pub pc_alive: bool,
    /// The character-creation demo zone is active (no casting there).
    pub is_cc_demo: bool,
    /// Alt is configured as hold-to-show-cursor (otherwise it toggles).
    pub alt_hold: bool,
}

/// What a key event asks the renderer to do.
#[derive(Copy, Clone, Debug, PartialEq, Eq, Structural)]
pub enum KeyAction {
    Ignore,
    /// Show the cursor while Alt is held (`true`) or hide it again.
    CursorHold(bool),
    /// Toggle between cursor and mouselook.
    CursorToggle,
    /// Set the forward key state.
    SetForward(bool),
    /// Set the backward key state; pressing it also cancels autorun.
    SetBackward(bool),
    /// Set the raw A / D / Q / E / Shift key states.
    SetA(bool),
    SetD(bool),
    SetQ(bool),
    SetE(bool),
    SetShift(bool),
    /// Cast the spell if its cooldown allows.
    TryCast(Spell),
    Respawn,
    /// Pause or resume the time of day.
    ToggleSkyPause,
    /// Move the time of day back / forward by a small step.
    ScrubSkyBack,
    ScrubSkyForward,
    /// Halve / double the time-of-day speed.
    SlowTime,
    FastTime,
    TogglePerf,
    ToggleHud,
    StartOrbitCapture,
    ToggleAutorun,
    ToggleWalk,
}

/// The action a key event calls for.
pub open spec fn key_action_spec(key: Key, pressed: bool, ctx: KeyContext) -> KeyAction {
    let alive = ctx.pc_alive;
    let can_cast = ctx.pc_alive && !ctx.is_cc_demo;
    match key {
        Key::AltLeft | Key::AltRight => if ctx.alt_hold {
            KeyAction::CursorHold(pressed)
        } else if pressed {
            KeyAction::CursorToggle
        } else {
            KeyAction::Ignore
        },
        Key::KeyW => if alive {
            KeyAction::SetForward(pressed)
        } else {
            KeyAction::Ignore
        },
        Key::KeyS => if alive {
            KeyAction::SetBackward(pressed)
        } else {
            KeyAction::Ignore
        },
        Key::KeyA => if alive {
            KeyAction::SetA(pressed)
        } else {
            KeyAction::Ignore
        },
        Key::KeyD => if alive {
            KeyAction::SetD(pressed)
        } else {
            KeyAction::Ignore
        },
        Key::KeyQ => if alive {
            KeyAction::SetQ(pressed)
        } else {
            KeyAction::Ignore
        },
        Key::KeyE => if alive {
            KeyAction::SetE(pressed)
        } else {
            KeyAction::Ignore
        },
        Key::ShiftLeft | Key::ShiftRight => if alive {
            KeyAction::SetShift(pressed)
        } else {
            KeyAction::Ignore
        },
        Key::Digit1 | Key::Numpad1 => if can_cast && pressed {
            KeyAction::TryCast(Spell::FireBolt)
        } else {
            KeyAction::Ignore
        },
        Key::Digit2 | Key::Numpad2 => if can_cast && pressed {
            KeyAction::TryCast(Spell::MagicMissile)
        } else {
            KeyAction::Ignore
        },
        Key::Digit3 | Key::Numpad3 => if can_cast && pressed {
            KeyAction::TryCast(Spell::Fireball)
        } else {
            KeyAction::Ignore
        },
        Key::KeyR | Key::Enter => if pressed && !alive {
            KeyAction::Respawn
        } else {
            KeyAction::Ignore
        },
        Key::Space => if pressed {
            KeyAction::ToggleSkyPause
        } else {
            KeyAction::Ignore
        },
        Key::BracketLeft => if pressed {
            KeyAction::ScrubSkyBack
        } else {
            KeyAction::Ignore
        },
        Key::BracketRight => if pressed {
            KeyAction::ScrubSkyForward
        } else {
            KeyAction::Ignore
        },
        Key::Minus => if pressed {
            KeyAction::SlowTime
        } else {
            KeyAction::Ignore
        },
        Key::Equal => if pressed {
            KeyAction::FastTime
        } else {
            KeyAction::Ignore
        },
        Key::KeyP => if pressed {
            KeyAction::TogglePerf
        } else {
            KeyAction::Ignore
        },
        Key::KeyH => if pressed {
            KeyAction::ToggleHud
        } else {
            KeyAction::Ignore
        },
        Key::KeyO => if pressed {
            KeyAction::StartOrbitCapture
        } else {
            KeyAction::Ignore
        },
        Key::NumLock => if pressed {
            KeyAction::ToggleAutorun
        } else {
            KeyAction::Ignore
        },
        Key::NumpadDivide => if pressed {
            KeyAction::ToggleWalk
        } else {
            KeyAction::Ignore
        },
        Key::Other => KeyAction::Ignore,
    }
}

/// Decide what a key event does: Alt shows/toggles the cursor; movement
/// keys set their state only while the character is alive; number keys
/// cast (on press, alive, outside the character-creation demo); R and
/// Enter respawn a dead character; Space, `[`, `]`, `-` and `=` control the
/// time of day, and they and the remaining bound keys act on press.
pub fn key_action(key: Key, pressed: bool, ctx: KeyContext) -> (a: KeyAction)
    ensures
        a == key_action_spec(key, pressed, ctx),
{
    let alive = ctx.pc_alive;
    let can_cast = ctx.pc_alive && !ctx.is_cc_demo;
    match key {
        Key::AltLeft | Key::AltRight => if ctx.alt_hold {
            KeyAction::CursorHold(pressed)
        } else if pressed {
            KeyAction::CursorToggle
        } else {
            KeyAction::Ignore
        },
        Key::KeyW => if alive {
            KeyAction::SetForward(pressed)
        } else {
            KeyAction::Ignore
        },
        Key::KeyS => if alive {
            KeyAction::SetBackward(pressed)
        } else {
            KeyAction::Ignore
        },
        Key::KeyA => if alive {
            KeyAction::SetA(pressed)
        } else {
            KeyAction::Ignore
        },
        Key::KeyD => if alive {
            KeyAction::SetD(pressed)
        } else {
            KeyAction::Ignore
        },
        Key::KeyQ => if alive {
            KeyAction::SetQ(pressed)
        } else {
            KeyAction::Ignore
        },
        Key::KeyE => if alive {
            KeyAction::SetE(pressed)
        } else {
            KeyAction::Ignore
        },
        Key::ShiftLeft | Key::ShiftRight => if alive {
            KeyAction::SetShift(pressed)
        } else {
            KeyAction::Ignore
        },
        Key::Digit1 | Key::Numpad1 => if can_cast && pressed {
            KeyAction::TryCast(Spell::FireBolt)
        } else {
            KeyAction::Ignore
        },
        Key::Digit2 | Key::Numpad2 => if can_cast && pressed {
            KeyAction::TryCast(Spell::MagicMissile)
        } else {
            KeyAction::Ignore
        },
        Key::Digit3 | Key::Numpad3 => if can_cast && pressed {
            KeyAction::TryCast(Spell::Fireball)
        } else {
            KeyAction::Ignore
        },
        Key::KeyR | Key::Enter => if pressed && !alive {
            KeyAction::Respawn
        } else {
            KeyAction::Ignore
        },
        Key::Space => if pressed {
            KeyAction::ToggleSkyPause
        } else {
            KeyAction::Ignore
        },
        Key::BracketLeft => if pressed {
            KeyAction::ScrubSkyBack
        } else {
            KeyAction::Ignore
        },
        Key::BracketRight => if pressed {
            KeyAction::ScrubSkyForward
        } else {
            KeyAction::Ignore
        },
        Key::Minus => if pressed {
            KeyAction::SlowTime
        } else {
            KeyAction::Ignore
        },
        Key::Equal => if pressed {
            KeyAction::FastTime
        } else {
            KeyAction::Ignore
        },
        Key::KeyP => if pressed {
            KeyAction::TogglePerf
        } else {
            KeyAction::Ignore
        },
        Key::KeyH => if pressed {
            KeyAction::ToggleHud
        } else {
            KeyAction::Ignore
        },
        Key::KeyO => if pressed {
            KeyAction::StartOrbitCapture
        } else {
            KeyAction::Ignore
        },
        Key::NumLock => if pressed {
            KeyAction::ToggleAutorun
        } else {
            KeyAction::Ignore
        },
        Key::NumpadDivide => if pressed {
            KeyAction::ToggleWalk
        } else {
            KeyAction::Ignore
        },
        Key::Other => KeyAction::Ignore,
    }
}

/// Space, `[`, `]`, `-` and `=` control the time of day: on a press they do
/// so whatever the character's state, and on a release they do nothing.
pub proof fn lemma_time_of_day_keys(key: Key, pressed: bool, ctx: KeyContext)
    requires
        key == Key::Space || key == Key::BracketLeft || key == Key::BracketRight || key
            == Key::Minus || key == Key::Equal,
    ensures
        !pressed ==> key_action_spec(key, pressed, ctx) == KeyAction::Ignore,
        pressed ==> key_action_spec(key, pressed, ctx) == match key {
            Key::Space => KeyAction::ToggleSkyPause,
            Key::BracketLeft => KeyAction::ScrubSkyBack,
            Key::BracketRight => KeyAction::ScrubSkyForward,
            Key::Minus => KeyAction::SlowTime,
            _ => KeyAction::FastTime,
        },
{
}

/// While the character is alive, each movement key sets its own state to
/// whether it is pressed; while it is dead, movement keys do nothing.
pub proof fn lemma_movement_keys(pressed: bool, ctx: KeyContext)
    ensures
        ctx.pc_alive ==> {
            &&& key_action_spec(Key::KeyW, pressed, ctx) == KeyAction::SetForward(pressed)
            &&& key_action_spec(Key::KeyS, pressed, ctx) == KeyAction::SetBackward(pressed)
            &&& key_action_spec(Key::KeyA, pressed, ctx) == KeyAction::SetA(pressed)
            &&& key_action_spec(Key::KeyD, pressed, ctx) == KeyAction::SetD(pressed)
            &&& key_action_spec(Key::KeyQ, pressed, ctx) == KeyAction::SetQ(pressed)
            &&& key_action_spec(Key::KeyE, pressed, ctx) == KeyAction::SetE(pressed)
            &&& key_action_spec(Key::ShiftLeft, pressed, ctx) == KeyAction::SetShift(pressed)
            &&& key_action_spec(Key::ShiftRight, pressed, ctx) == KeyAction::SetShift(pressed)
        },
        !ctx.pc_alive ==> {
            &&& key_action_spec(Key::KeyW, pressed, ctx) == KeyAction::Ignore
            &&& key_action_spec(Key::KeyS, pressed, ctx) == KeyAction::Ignore
            &&& key_action_spec(Key::KeyA, pressed, ctx) == KeyAction::Ignore
            &&& key_action_spec(Key::KeyD, pressed, ctx) == KeyAction::Ignore
            &&& key_action_spec(Key::KeyQ, pressed, ctx) == KeyAction::Ignore
            &&& key_action_spec(Key::KeyE, pressed, ctx) == KeyAction::Ignore
            &&& key_action_spec(Key::ShiftLeft, pressed, ctx) == KeyAction::Ignore
            &&& key_action_spec(Key::ShiftRight, pressed, ctx) == KeyAction::Ignore
        },
{
}

/// Number keys 1, 2 and 3 (top row or keypad) cast Fire Bolt, Magic
/// Missile and Fireball, on a press, for a living character outside the
/// character-creation demo; otherwise they do nothing.
pub proof fn lemma_spell_keys(pressed: bool, ctx: KeyContext)
    ensures
        ({
            let cast = pressed && ctx.pc_alive && !ctx.is_cc_demo;
            &&& key_action_spec(Key::Digit1, pressed, ctx) == (if cast { KeyAction::TryCast(Spell::FireBolt) } else { KeyAction::Ignore })
            &&& key_action_spec(Key::Numpad1, pressed, ctx) == key_action_spec(Key::Digit1, pressed, ctx)
            &&& key_action_spec(Key::Digit2, pressed, ctx) == (if cast { KeyAction::TryCast(Spell::MagicMissile) } else { KeyAction::Ignore })
            &&& key_action_spec(Key::Numpad2, pressed, ctx) == key_action_spec(Key::Digit2, pressed, ctx)
            &&& key_action_spec(Key::Digit3, pressed, ctx) == (if cast { KeyAction::TryCast(Spell::Fireball) } else { KeyAction::Ignore })
            &&& key_action_spec(Key::Numpad3, pressed, ctx) == key_action_spec(Key::Digit3, pressed, ctx)
        }),
{
}

/// P, H and O toggle the perf overlay, toggle the HUD and start the orbit
/// capture on a press, whatever the character's state; R and Enter respawn
/// exactly when pressed for a dead character; NumLock toggles autorun and
/// keypad `/` toggles walking on a press; other keys do nothing.
pub proof fn lemma_toggle_and_respawn_keys(pressed: bool, ctx: KeyContext)
    ensures
        key_action_spec(Key::KeyP, pressed, ctx) == (if pressed { KeyAction::TogglePerf } else { KeyAction::Ignore }),
        key_action_spec(Key::KeyH, pressed, ctx) == (if pressed { KeyAction::ToggleHud } else { KeyAction::Ignore }),
        key_action_spec(Key::KeyO, pressed, ctx) == (if pressed { KeyAction::StartOrbitCapture } else { KeyAction::Ignore }),
        key_action_spec(Key::KeyR, pressed, ctx) == (if pressed && !ctx.pc_alive { KeyAction::Respawn } else { KeyAction::Ignore }),
        key_action_spec(Key::Enter, pressed, ctx) == key_action_spec(Key::KeyR, pressed, ctx),
        key_action_spec(Key::Other, pressed, ctx) == KeyAction::Ignore,
        key_action_spec(Key::NumLock, pressed, ctx) == (if pressed { KeyAction::ToggleAutorun } else { KeyAction::Ignore }),
        key_action_spec(Key::NumpadDivide, pressed, ctx) == (if pressed { KeyAction::ToggleWalk } else { KeyAction::Ignore }),
{
}

/// Either Alt key shows the cursor while held when Alt is configured as
/// hold-to-show; otherwise a press toggles between cursor and mouselook and
/// a release does nothing. The character's state plays no part.
pub proof fn lemma_alt_keys(pressed: bool, ctx: KeyContext)
    ensures
        key_action_spec(Key::AltLeft, pressed, ctx) == (if ctx.alt_hold {
            KeyAction::CursorHold(pressed)
        } else if pressed {
            KeyAction::CursorToggle
        } else {
            KeyAction::Ignore
        }),
        key_action_spec(Key::AltRight, pressed, ctx) == key_action_spec(Key::AltLeft, pressed, ctx),
{
}

/// The action moves or acts for the character (movement state or casting).
pub open spec fn is_character_action(a: KeyAction) -> bool {
    match a {
        KeyAction::SetForward(_) | KeyAction::SetBackward(_) | KeyAction::SetA(_)
        | KeyAction::SetD(_) | KeyAction::SetQ(_) | KeyAction::SetE(_) | KeyAction::SetShift(_)
        | KeyAction::TryCast(_) => true,
        _ => false,
    }
}

/// A dead character cannot be moved or cast with, whatever the key.
pub proof fn lemma_dead_character_is_inert(key: Key, pressed: bool, ctx: KeyContext)
    requires
        !ctx.pc_alive,
    ensures
        !is_character_action(key_action_spec(key, pressed, ctx)),
{
}

/// Respawning is only ever asked for a dead character, on a key press.
pub proof fn lemma_respawn_only_when_dead(key: Key, pressed: bool, ctx: KeyContext)
    ensures
        key_action_spec(key, pressed, ctx) == KeyAction::Respawn ==> pressed && !ctx.pc_alive,
{
}

/// Releasing a key never triggers a one-shot action: it can only release a
/// held state (movement keys, the held cursor) or do nothing.
pub proof fn lemma_release_only_releases(key: Key, ctx: KeyContext)
    ensures
        match key_action_spec(key, false, ctx) {
            KeyAction::Ignore => true,
            KeyAction::CursorHold(b) => !b,
            KeyAction::SetForward(b) => !b,
            KeyAction::SetBackward(b) => !b,
            KeyAction::SetA(b) => !b,
            KeyAction::SetD(b) => !b,
            KeyAction::SetQ(b) => !b,
            KeyAction::SetE(b) => !b,
            KeyAction::SetShift(b) => !b,
            _ => false,
        },
{
}

/// Cursor motion turns the camera when the pointer is not locked (locked
/// motion arrives as raw deltas instead) and the controller is in
/// mouselook or the right button is held.
pub fn cursor_moves_camera(pointer_locked: bool, mouselook: bool, rmb_down: bool) -> (r: bool)
    ensures
        r == (!pointer_locked && (mouselook || rmb_down)),
{
    !pointer_locked && (mouselook || rmb_down)
}

/// Raw mouse motion turns the camera only while the pointer is locked, in
/// mouselook or with the right button held.
pub fn raw_motion_moves_camera(pointer_locked: bool, mouselook: bool, rmb_down: bool) -> (r: bool)
    ensures
        r == (pointer_locked && (mouselook || rmb_down)),
{
    if !pointer_locked {
        return false;
    }
    mouselook || rmb_down
}

/// One mouse motion is never applied twice: cursor motion and raw motion
/// never both turn the camera.
pub proof fn lemma_motion_applied_once(pointer_locked: bool, mouselook: bool, rmb_down: bool)
    ensures
        !((!pointer_locked && (mouselook || rmb_down)) && (pointer_locked && (mouselook
            || rmb_down))),
{
}

} // verus!
