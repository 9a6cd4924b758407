use vstd::prelude::*;

verus! {

/// Settings shared by the whole game: mouse capture, the chunk render
/// distance, whether the editor is open and whether physics hitboxes are drawn.
pub struct GameVar {
    pub mouse_grabbed: bool,
    pub render_distance: u32,
    pub in_editor: bool,
    pub hitbox_shown: bool,
}

/// The render distance, in chunks, that a fresh game starts with.
pub const DEFAULT_RENDER_DISTANCE: u32 = 40;

impl Default for GameVar {
    fn default() -> (g: Self)
        ensures
            !g.mouse_grabbed,
            g.render_distance == DEFAULT_RENDER_DISTANCE,
            !g.in_editor,
            !g.hitbox_shown,
    {
        GameVar {
            mouse_grabbed: false,
            render_distance: DEFAULT_RENDER_DISTANCE,
            in_editor: false,
            hitbox_shown: false,
        }
    }
}

} // verus!
