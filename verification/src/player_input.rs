use vstd::prelude::*;

use crate::input::CursorMode;
use crate::player::PlayerFlags;

verus! {

/// The keys read by the first-person movement controls.
pub struct MovementKeys {
    pub r_pressed: bool,
    pub t_pressed: bool,
    pub l_just_pressed: bool,
    pub e_just_pressed: bool,
    pub shift_pressed: bool,
    pub c_pressed: bool,
}

/// How fast the player means to move.
#[derive(Clone, Copy, Debug, PartialEq, Eq, Structural)]
pub enum Gait {
    Walk,
    Sprint,
    Crouch,
}

/// What the controls ask of the world this frame.
pub struct MovementOutcome {
    pub respawn: bool,
    pub spawn_object: bool,
    pub dash: bool,
    pub gait: Gait,
}

/// Movement decisions: R holds the player at the spawn point, T drops a
/// ball, E dashes, L switches the flashlight. Shift sprints unless the
/// player was crouching; C crouches unless the player now sprints. The gait
/// sets the target speed.
pub fn handle_input(keys: &MovementKeys, flags: &mut PlayerFlags) -> (out: MovementOutcome)
    ensures
        out.respawn == keys.r_pressed,
        out.spawn_object == keys.t_pressed,
        out.dash == keys.e_just_pressed,
        final(flags).flashlight == (old(flags).flashlight != keys.l_just_pressed),
        final(flags).sprinting == (keys.shift_pressed && !old(flags).crouching),
        final(flags).crouching == (keys.c_pressed && !final(flags).sprinting),
        !(final(flags).sprinting && final(flags).crouching),
        final(flags).can_place == old(flags).can_place,
        out.gait == if final(flags).sprinting {
            Gait::Sprint
        } else if final(flags).crouching {
            Gait::Crouch
        } else {
            Gait::Walk
        },
{
    if keys.l_just_pressed {
        if flags.flashlight {
            flags.flashlight = false;
        } else {
            flags.flashlight = true;
        }
    }
    if keys.shift_pressed && !flags.crouching {
        flags.sprinting = true;
    } else {
        flags.sprinting = false;
    }
    if keys.c_pressed && !flags.sprinting {
        flags.crouching = true;
    } else {
        flags.crouching = false;
    }
    let gait = if flags.sprinting {
        Gait::Sprint
    } else if flags.crouching {
        Gait::Crouch
    } else {
        Gait::Walk
    };
    MovementOutcome {
        respawn: keys.r_pressed,
        spawn_object: keys.t_pressed,
        dash: keys.e_just_pressed,
        gait,
    }
}

/// Mouse capture of the first-person controls: a left click locks the
/// cursor, Escape frees it; when both come in one frame Escape wins.
/// Returns the cursor mode to apply, if any.
pub fn grab_mouse(left_just_pressed: bool, escape_just_pressed: bool, mouse_grabbed: &mut bool) -> (cursor: Option<CursorMode>)
    ensures
        escape_just_pressed ==> cursor == Some(CursorMode::Free) && !*final(mouse_grabbed),
        !escape_just_pressed && left_just_pressed ==> cursor == Some(CursorMode::Locked)
            && *final(mouse_grabbed),
        !escape_just_pressed && !left_just_pressed ==> cursor == None::<CursorMode> && *final(mouse_grabbed)
            == *old(mouse_grabbed),
{
    let mut cursor: Option<CursorMode> = None;
    if left_just_pressed {
        cursor = Some(CursorMode::Locked);
        *mouse_grabbed = true;
    }
    if escape_just_pressed {
        cursor = Some(CursorMode::Free);
        *mouse_grabbed = false;
    }
    cursor
}

} // verus!
