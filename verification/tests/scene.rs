use render_wgpu::scene::{wizard_slots, WizardSlot, ANIM_PORTAL_OPEN, ANIM_STILL};

#[test]
fn wizard_palettes_are_back_to_back() {
    let s = wizard_slots(3, 10);
    assert_eq!(
        s,
        vec![
            WizardSlot { palette_base: 0, anim_index: ANIM_STILL, selected: true, stagger_steps: 0 },
            WizardSlot { palette_base: 10, anim_index: ANIM_PORTAL_OPEN, selected: false, stagger_steps: 0 },
            WizardSlot { palette_base: 20, anim_index: ANIM_PORTAL_OPEN, selected: false, stagger_steps: 1 },
        ]
    );
}

#[test]
fn demo_ring_has_one_selected_wizard() {
    let s = wizard_slots(20, 54);
    assert_eq!(s.len(), 20);
    assert_eq!(s.iter().filter(|w| w.selected).count(), 1);
    assert_eq!(s[19].palette_base, 19 * 54);
    assert_eq!(s[19].stagger_steps, 18);
}

#[test]
fn no_wizards_no_slots() {
    assert!(wizard_slots(0, 7).is_empty());
    assert!(wizard_slots(4, 0).iter().all(|w| w.palette_base == 0));
}
