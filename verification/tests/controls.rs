use render_wgpu::controls::{
    click_move_forward, parse_profile_name, resolve_ad_to_turn_or_strafe, ButtonLatch,
    InputProfile,
};

#[test]
fn parse_profile_variants() {
    assert_eq!(
        parse_profile_name(Some("ActionCombat")),
        InputProfile::ActionCombat
    );
    assert_eq!(
        parse_profile_name(Some("classic")),
        InputProfile::ClassicCursor
    );
    assert_eq!(
        parse_profile_name(Some("ClassicCursor")),
        InputProfile::ClassicCursor
    );
    assert_eq!(parse_profile_name(None), InputProfile::ActionCombat);
    assert_eq!(
        parse_profile_name(Some("unknown")),
        InputProfile::ActionCombat
    );
}

#[test]
fn parse_profile_trims_whitespace_and_case() {
    assert_eq!(parse_profile_name(Some("  CLASSIC\t")), InputProfile::ClassicCursor);
    assert_eq!(parse_profile_name(Some("\u{3000}classicCursor\n")), InputProfile::ClassicCursor);
    assert_eq!(parse_profile_name(Some("class ic")), InputProfile::ActionCombat);
    assert_eq!(parse_profile_name(Some("")), InputProfile::ActionCombat);
    assert_eq!(parse_profile_name(Some("   ")), InputProfile::ActionCombat);
}

#[test]
fn ad_no_longer_turn_or_strafe() {
    let (tl, tr, sl, sr) = resolve_ad_to_turn_or_strafe(false, true, false, false, false);
    assert!(!tl && !tr && !sl && !sr);
    let (tl, tr, sl, sr) = resolve_ad_to_turn_or_strafe(false, false, true, false, false);
    assert!(!tl && !tr && !sl && !sr);
}

#[test]
fn ad_strafe_when_rmb_held() {
    let (tl, tr, sl, sr) = resolve_ad_to_turn_or_strafe(true, true, false, false, false);
    assert!(!tl && !tr && !sl && sr);
    let (tl, tr, sl, sr) = resolve_ad_to_turn_or_strafe(true, false, true, false, false);
    assert!(!tl && !tr && sl && !sr);
}

#[test]
fn qe_are_dedicated_strafes_and_preserved() {
    let (tl, tr, sl, sr) = resolve_ad_to_turn_or_strafe(false, false, false, true, false);
    assert!(!tl && !tr && !sl && sr, "Q should strafe right (RMB up)");
    let (tl, tr, sl, sr) = resolve_ad_to_turn_or_strafe(false, false, false, false, true);
    assert!(!tl && !tr && sl && !sr, "E should strafe left (RMB up)");
}

#[test]
fn click_move_forward_requires_both_mouse_buttons() {
    let cmf = |lmb: bool, rmb: bool| -> bool { click_move_forward(lmb, rmb) };

    assert!(!cmf(false, false));
    assert!(!cmf(true, false));
    assert!(!cmf(false, true));
    assert!(cmf(true, true), "LMB+RMB must engage click-move-forward");
}

#[test]
fn rmb_edge_clears_latched_keys() {
    let mut l = ButtonLatch {
        a_down: true,
        d_down: true,
        q_down: true,
        e_down: true,
        prev_rmb_down: false,
    };
    assert!(!l.begin_frame(false));
    assert!(l.a_down && l.d_down && l.q_down && l.e_down);
    assert!(l.begin_frame(true));
    assert!(!l.a_down && !l.d_down && !l.q_down && !l.e_down);
    assert!(l.prev_rmb_down);
}
