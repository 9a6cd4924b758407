use vstd::prelude::*;

use crate::editor::EditorState;
use crate::game_var::GameVar;

verus! {

/// Which camera renders, and whether the free camera takes over from the
/// player camera this frame (the caller then frees the cursor and puts the
/// free camera where the player camera is).
pub struct CameraSwitch {
    pub free_cam_active: bool,
    pub player_cam_active: bool,
    pub hand_over: bool,
}

/// The free camera renders while the game is stopped, the player camera
/// while it runs. When the game has just stopped, the mouse is released
/// and the free camera takes the player camera's place. `last_game_playing`
/// remembers whether the game ran.
pub fn toggle_free_cam(editor: &EditorState, last_game_playing: &mut bool, game_var: &mut GameVar) -> (s: CameraSwitch)
    ensures
        s.free_cam_active == !editor.game_playing,
        s.player_cam_active == editor.game_playing,
        s.hand_over == (*old(last_game_playing) && !editor.game_playing),
        final(game_var).mouse_grabbed == (old(game_var).mouse_grabbed && !s.hand_over),
        final(game_var).in_editor == old(game_var).in_editor,
        final(game_var).hitbox_shown == old(game_var).hitbox_shown,
        final(game_var).render_distance == old(game_var).render_distance,
        *final(last_game_playing) == editor.game_playing,
{
    let playing = editor.game_playing;
    let mut hand_over = false;
    if *last_game_playing != playing {
        if !playing {
            game_var.mouse_grabbed = false;
            hand_over = true;
        }
    }
    *last_game_playing = playing;
    CameraSwitch { free_cam_active: !playing, player_cam_active: playing, hand_over }
}

} // verus!
