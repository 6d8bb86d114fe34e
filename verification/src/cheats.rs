//! The cheat codes that the game's code loader knows by name.
use vstd::prelude::*;

use crate::text::{is_digit, str_eq, unquoted};

verus! {

/// The names of the known cheat codes, in the order the cheat list shows them.
pub open spec fn known_cheats() -> Seq<Seq<char>> {
    seq![
        "UseOfficialTitleOnTitleBar"@,
        "UseArrowsForTimeOfDayTransition"@,
        "FixUnleashOutOfControlDrain"@,
        "AllowCancellingUnleash"@,
        "SkipIntroLogos"@,
        "SaveScoreAtCheckpoints"@,
        "DisableBoostFilter"@,
        "DisableAutoSaveWarning"@,
        "HUDToggleKey"@,
        "DisableDWMRoundedCorners"@,
        "DisableDLCIcon"@,
        "EnableObjectCollisionDebugView"@,
        "EnableEventCollisionDebugView"@,
        "EnableStageCollisionDebugView"@,
        "EnableGIMipLevelDebugView"@,
        "FixEggmanlandUsingEventGalleryTransition"@,
        "DisableDPadMovement"@,
        "HomingAttackOnJump"@,
    ]
}

/// `name` is one of the known cheat codes.
pub open spec fn is_known_cheat(name: Seq<char>) -> bool {
    known_cheats().contains(name)
}

/// The names of the known cheat codes, in order.
pub fn cheat_names() -> (v: Vec<&'static str>)
    ensures
        v@.len() == known_cheats().len(),
        forall|i: int| 0 <= i < v@.len() ==> (#[trigger] v@[i])@ == known_cheats()[i],
{
    let v = vec![
        "UseOfficialTitleOnTitleBar",
        "UseArrowsForTimeOfDayTransition",
        "FixUnleashOutOfControlDrain",
        "AllowCancellingUnleash",
        "SkipIntroLogos",
        "SaveScoreAtCheckpoints",
        "DisableBoostFilter",
        "DisableAutoSaveWarning",
        "HUDToggleKey",
        "DisableDWMRoundedCorners",
        "DisableDLCIcon",
        "EnableObjectCollisionDebugView",
        "EnableEventCollisionDebugView",
        "EnableStageCollisionDebugView",
        "EnableGIMipLevelDebugView",
        "FixEggmanlandUsingEventGalleryTransition",
        "DisableDPadMovement",
        "HomingAttackOnJump",
    ];
    assert(v@.map_values(|s: &str| s@) =~= known_cheats());
    assert forall|i: int| 0 <= i < v@.len() implies (#[trigger] v@[i])@ == known_cheats()[i] by {
        assert(v@.map_values(|s: &str| s@)[i] == v@[i]@);
    }
    v
}

/// Whether `name` is one of the known cheat codes.
pub fn is_cheat(name: &str) -> (r: bool)
    ensures
        r == is_known_cheat(name@),
        r <==> exists|i: int| 0 <= i < known_cheats().len() && known_cheats()[i] == name@,
{
    let names = cheat_names();
    let mut i: usize = 0;
    while i < names.len()
        invariant
            i <= names.len(),
            names@.len() == known_cheats().len(),
            forall|j: int| 0 <= j < names@.len() ==> (#[trigger] names@[j])@ == known_cheats()[j],
            forall|j: int| 0 <= j < i ==> known_cheats()[j] != name@,
        decreases names.len() - i,
    {
        assert(names@[i as int]@ == known_cheats()[i as int]);
        if str_eq(names[i], name) {
            assert(known_cheats().contains(name@)) by {
                assert(known_cheats()[i as int] == name@);
            }
            return true;
        }
        i = i + 1;
    }
    assert(!known_cheats().contains(name@)) by {
        if known_cheats().contains(name@) {
            let j = choose|j: int| 0 <= j < known_cheats().len() && known_cheats()[j] == name@;
            assert(j < i);
        }
    }
    false
}

/// Every known cheat name starts with an upper-case ASCII letter and ends with a
/// letter, so it has no quote at either end and does not start with a digit.
pub proof fn lemma_known_cheat_shape(name: Seq<char>)
    requires
        is_known_cheat(name),
    ensures
        unquoted(name),
        name.len() > 0,
        !is_digit(name[0]),
{
    reveal_strlit("UseOfficialTitleOnTitleBar");
    reveal_strlit("UseArrowsForTimeOfDayTransition");
    reveal_strlit("FixUnleashOutOfControlDrain");
    reveal_strlit("AllowCancellingUnleash");
    reveal_strlit("SkipIntroLogos");
    reveal_strlit("SaveScoreAtCheckpoints");
    reveal_strlit("DisableBoostFilter");
    reveal_strlit("DisableAutoSaveWarning");
    reveal_strlit("HUDToggleKey");
    reveal_strlit("DisableDWMRoundedCorners");
    reveal_strlit("DisableDLCIcon");
    reveal_strlit("EnableObjectCollisionDebugView");
    reveal_strlit("EnableEventCollisionDebugView");
    reveal_strlit("EnableStageCollisionDebugView");
    reveal_strlit("EnableGIMipLevelDebugView");
    reveal_strlit("FixEggmanlandUsingEventGalleryTransition");
    reveal_strlit("DisableDPadMovement");
    reveal_strlit("HomingAttackOnJump");
    let j = choose|j: int| 0 <= j < known_cheats().len() && known_cheats()[j] == name;
    assert(0 <= j < 18);
}

} // verus!
