use vstd::prelude::*;

verus! {

/// The player's on/off state: flashlight, gait and whether an object can
/// be placed where the player looks.
pub struct PlayerFlags {
    pub flashlight: bool,
    pub sprinting: bool,
    pub crouching: bool,
    pub can_place: bool,
}

impl Default for PlayerFlags {
    fn default() -> (f: Self)
        ensures
            !f.flashlight,
            !f.sprinting,
            !f.crouching,
            !f.can_place,
    {
        PlayerFlags { flashlight: false, sprinting: false, crouching: false, can_place: false }
    }
}

/// Whether the flashlight shines.
pub fn update_flashlight(flags: &PlayerFlags) -> (on: bool)
    ensures
        on == flags.flashlight,
{
    flags.flashlight
}

} // verus!
