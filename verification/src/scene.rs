//! Demo-scene bookkeeping for the wizard instances: where each wizard's
//! joints start in the shared palette, which animation it plays, whether it
//! is the selected player character, and its place in the animation stagger.
use vstd::prelude::*;

verus! {

/// Animation clip played by the ring wizards (portal opening).
pub const ANIM_PORTAL_OPEN: usize = 0;

/// Animation clip played by the player character (standing still).
pub const ANIM_STILL: usize = 1;

/// Per-wizard data of the demo scene. Wizard 0 is the player character; the
/// others stand on the ring.
#[derive(Copy, Clone, Debug, PartialEq, Eq, Structural)]
pub struct WizardSlot {
    /// First joint of this wizard in the joint palette.
    pub palette_base: u32,
    /// Animation clip index.
    pub anim_index: usize,
    /// Drawn as the selected character.
    pub selected: bool,
    /// Position in the stagger of the ring animations: the clip starts
    /// this many half-second steps late.
    pub stagger_steps: usize,
}

/// The slot of wizard `i` when each wizard has `joints` joints.
pub open spec fn wizard_slot_spec(i: nat, joints: nat) -> (nat, usize, bool, nat) {
    if i == 0 {
        (0, ANIM_STILL, true, 0)
    } else {
        ((i * joints) as nat, ANIM_PORTAL_OPEN, false, (i - 1) as nat)
    }
}

/// The slots of `count` wizards with `joints_per_wizard` joints each: the
/// palettes are laid out back to back in wizard order, the player character
/// (wizard 0) is selected and idles, and the ring wizards open portals,
/// staggered one step apart.
pub fn wizard_slots(count: usize, joints_per_wizard: u32) -> (r: Vec<WizardSlot>)
    requires
        count == 0 || (count - 1) * joints_per_wizard <= u32::MAX,
    ensures
        r@.len() == count,
        forall|i: int|
            0 <= i < count ==> {
                let s = wizard_slot_spec(i as nat, joints_per_wizard as nat);
                &&& (#[trigger] r@[i]).palette_base == s.0
                &&& r@[i].anim_index == s.1
                &&& r@[i].selected == s.2
                &&& r@[i].stagger_steps == s.3
            },
{
    let mut r: Vec<WizardSlot> = Vec::with_capacity(count);
    let mut i: usize = 0;
    while i < count
        invariant
            0 <= i <= count,
            count == 0 || (count - 1) * joints_per_wizard <= u32::MAX,
            r@.len() == i,
            forall|k: int|
                0 <= k < i ==> {
                    let s = wizard_slot_spec(k as nat, joints_per_wizard as nat);
                    &&& (#[trigger] r@[k]).palette_base == s.0
                    &&& r@[k].anim_index == s.1
                    &&& r@[k].selected == s.2
                    &&& r@[k].stagger_steps == s.3
                },
        decreases count - i,
    {
        proof {
            assert(i * joints_per_wizard <= (count - 1) * joints_per_wizard) by (nonlinear_arith)
                requires
                    i <= count - 1,
            ;
            assert(joints_per_wizard >= 1 ==> i <= i * joints_per_wizard) by (nonlinear_arith);
        }
        let palette_base: u32 = if joints_per_wizard == 0 {
            0
        } else {
            (i as u32) * joints_per_wizard
        };
        let slot = if i == 0 {
            WizardSlot { palette_base, anim_index: ANIM_STILL, selected: true, stagger_steps: 0 }
        } else {
            WizardSlot {
                palette_base,
                anim_index: ANIM_PORTAL_OPEN,
                selected: false,
                stagger_steps: i - 1,
            }
        };
        let ghost prev = r@;
        r.push(slot);
        proof {
            assert(r@ == prev.push(slot));
            assert(joints_per_wizard == 0 ==> i * joints_per_wizard == 0);
        }
        i = i + 1;
    }
    r
}

} // verus!
