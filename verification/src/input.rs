use vstd::prelude::*;

use crate::editor::EditorState;
use crate::game_var::GameVar;
use crate::player::PlayerFlags;

verus! {

/// The keys that the game reads each frame.
pub struct InputKeys {
    pub f12_just_pressed: bool,
    pub g_just_pressed: bool,
    pub f3_pressed: bool,
    pub r_just_pressed: bool,
    pub l_just_pressed: bool,
}

/// The keyboard: F12 opens or closes the editor, F3+G shows or hides the
/// hitboxes. While the game runs and the player exists, R sends the player
/// back to the spawn point (the returned flag; the caller moves the player)
/// and L switches the flashlight.
pub fn handle_input(
    keys: &InputKeys,
    player_found: bool,
    editor: &EditorState,
    player: &mut PlayerFlags,
    game_var: &mut GameVar,
) -> (respawn: bool)
    ensures
        final(game_var).in_editor == (old(game_var).in_editor != keys.f12_just_pressed),
        final(game_var).hitbox_shown == (old(game_var).hitbox_shown != (keys.g_just_pressed
            && keys.f3_pressed)),
        final(game_var).mouse_grabbed == old(game_var).mouse_grabbed,
        final(game_var).render_distance == old(game_var).render_distance,
        respawn == (editor.game_playing && player_found && keys.r_just_pressed),
        final(player).flashlight == (old(player).flashlight != (editor.game_playing && player_found
            && keys.l_just_pressed)),
        final(player).sprinting == old(player).sprinting,
        final(player).crouching == old(player).crouching,
        final(player).can_place == old(player).can_place,
{
    if keys.f12_just_pressed {
        game_var.in_editor = !game_var.in_editor;
    }
    if keys.g_just_pressed && keys.f3_pressed {
        game_var.hitbox_shown = !game_var.hitbox_shown;
    }
    if !editor.game_playing {
        return false;
    }
    if !player_found {
        return false;
    }
    let respawn = keys.r_just_pressed;
    if keys.l_just_pressed {
        if player.flashlight {
            player.flashlight = false;
        } else {
            player.flashlight = true;
        }
    }
    respawn
}

/// How the cursor is shown.
#[derive(Clone, Copy, Debug, PartialEq, Eq, Structural)]
pub enum CursorMode {
    /// Hidden and locked to the window.
    Locked,
    /// Visible and free.
    Free,
}

/// Mouse capture while the game runs: the cursor follows the grab state as
/// it was at the start of the frame; a left click over the viewport grabs
/// the mouse, Escape releases it. Outside play nothing happens (`None`).
pub fn grab_mouse(
    editor: &EditorState,
    left_just_pressed: bool,
    escape_just_pressed: bool,
    game_var: &mut GameVar,
) -> (cursor: Option<CursorMode>)
    ensures
        !editor.game_playing ==> cursor == None::<CursorMode> && *final(game_var) == *old(game_var),
        editor.game_playing ==> cursor == Some(
            if old(game_var).mouse_grabbed { CursorMode::Locked } else { CursorMode::Free },
        ),
        editor.game_playing ==> final(game_var).mouse_grabbed == ((old(game_var).mouse_grabbed || (
        left_just_pressed && editor.pointer_in_viewport)) && !escape_just_pressed),
        final(game_var).in_editor == old(game_var).in_editor,
        final(game_var).hitbox_shown == old(game_var).hitbox_shown,
        final(game_var).render_distance == old(game_var).render_distance,
{
    if !editor.game_playing {
        return None;
    }
    let cursor = if game_var.mouse_grabbed {
        CursorMode::Locked
    } else {
        CursorMode::Free
    };
    if left_just_pressed && editor.pointer_in_viewport {
        game_var.mouse_grabbed = true;
    }
    if escape_just_pressed && game_var.mouse_grabbed {
        game_var.mouse_grabbed = false;
    }
    Some(cursor)
}

/// Physics gizmos follow the hitbox switch whenever the game settings change.
pub fn toggle_physics_gizmos(game_var_changed: bool, game_var: &GameVar, gizmos_enabled: &mut bool)
    ensures
        *final(gizmos_enabled) == if game_var_changed { game_var.hitbox_shown } else { *old(gizmos_enabled) },
{
    if game_var_changed {
        *gizmos_enabled = game_var.hitbox_shown;
    }
}

} // verus!
