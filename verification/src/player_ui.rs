use vstd::prelude::*;

verus! {

/// The crosshair shown when nothing can be picked up.
pub open spec fn line_cross_image() -> Seq<char> {
    "cursor_pack/PNG/Basic/Default/line_cross.png"@
}

/// The crosshair shown when the player looks at something to pick up.
pub open spec fn hand_open_image() -> Seq<char> {
    "cursor_pack/PNG/Basic/Default/hand_open.png"@
}

/// The crosshair image for whether something can be picked up.
pub fn crosshair_image(can_pick: bool) -> (path: &'static str)
    ensures
        path@ == if can_pick { hand_open_image() } else { line_cross_image() },
{
    if can_pick {
        "cursor_pack/PNG/Basic/Default/hand_open.png"
    } else {
        "cursor_pack/PNG/Basic/Default/line_cross.png"
    }
}

/// The crosshair is swapped only when the pick-up state changed this frame.
pub fn update_crosshair(can_pick_changed: bool, can_pick: bool) -> (path: Option<&'static str>)
    ensures
        can_pick_changed <==> path is Some,
        path matches Some(p) ==> p@ == if can_pick { hand_open_image() } else { line_cross_image() },
{
    if can_pick_changed {
        Some(crosshair_image(can_pick))
    } else {
        None
    }
}

} // verus!
