use vstd::prelude::*;

use crate::game_var::GameVar;

verus! {

/// The editor's switches: whether the pointer hovers the game viewport,
/// whether the game runs (rather than being edited), and whether physics
/// time is paused.
pub struct EditorState {
    pub pointer_in_viewport: bool,
    pub game_playing: bool,
    pub pause_time: bool,
}

impl EditorState {
    /// The editor as it opens: game stopped, time running, pointer elsewhere.
    pub fn new() -> (s: EditorState)
        ensures
            !s.pointer_in_viewport,
            !s.game_playing,
            !s.pause_time,
    {
        EditorState { pointer_in_viewport: false, game_playing: false, pause_time: false }
    }
}

/// The tabs of the editor's dock.
#[derive(Clone, Copy, Debug, PartialEq, Eq, Structural)]
pub enum WindowType {
    GameView,
    Inspector,
    PlayerResourceInspector,
    SelectedEntitieInspector,
    GameResourceInspector,
    GameManager,
}

/// A tab's title: the name of its variant.
pub open spec fn window_title(w: WindowType) -> Seq<char> {
    match w {
        WindowType::GameView => "GameView"@,
        WindowType::Inspector => "Inspector"@,
        WindowType::PlayerResourceInspector => "PlayerResourceInspector"@,
        WindowType::SelectedEntitieInspector => "SelectedEntitieInspector"@,
        WindowType::GameResourceInspector => "GameResourceInspector"@,
        WindowType::GameManager => "GameManager"@,
    }
}

/// Each tab is titled with its own variant's name, and no two tabs share a
/// title (the names all differ in length).
pub proof fn lemma_tab_titles(a: WindowType, b: WindowType)
    ensures
        window_title(WindowType::GameView) == "GameView"@,
        window_title(WindowType::Inspector) == "Inspector"@,
        window_title(WindowType::PlayerResourceInspector) == "PlayerResourceInspector"@,
        window_title(WindowType::SelectedEntitieInspector) == "SelectedEntitieInspector"@,
        window_title(WindowType::GameResourceInspector) == "GameResourceInspector"@,
        window_title(WindowType::GameManager) == "GameManager"@,
        a != b ==> window_title(a) != window_title(b),
{
    reveal_strlit("GameView");
    reveal_strlit("Inspector");
    reveal_strlit("PlayerResourceInspector");
    reveal_strlit("SelectedEntitieInspector");
    reveal_strlit("GameResourceInspector");
    reveal_strlit("GameManager");
    if a != b {
        assert(window_title(a).len() != window_title(b).len());
    }
}

impl WindowType {
    /// The title shown on the tab.
    pub fn title(&self) -> (t: &'static str)
        ensures
            t@ == window_title(*self),
            *self == WindowType::GameView ==> t@ == "GameView"@,
            *self == WindowType::Inspector ==> t@ == "Inspector"@,
            *self == WindowType::PlayerResourceInspector ==> t@ == "PlayerResourceInspector"@,
            *self == WindowType::SelectedEntitieInspector ==> t@ == "SelectedEntitieInspector"@,
            *self == WindowType::GameResourceInspector ==> t@ == "GameResourceInspector"@,
            *self == WindowType::GameManager ==> t@ == "GameManager"@,
    {
        match self {
            WindowType::GameView => "GameView",
            WindowType::Inspector => "Inspector",
            WindowType::PlayerResourceInspector => "PlayerResourceInspector",
            WindowType::SelectedEntitieInspector => "SelectedEntitieInspector",
            WindowType::GameResourceInspector => "GameResourceInspector",
            WindowType::GameManager => "GameManager",
        }
    }

    /// Every tab but the game view paints its background; the game view
    /// lets the game's cameras show through.
    pub fn clear_background(&self) -> (b: bool)
        ensures
            b == !(*self is GameView),
    {
        match self {
            WindowType::GameView => false,
            _ => true,
        }
    }
}

/// The label of the button that starts or stops the game.
pub fn play_button_label(game_playing: bool) -> (label: &'static str)
    ensures
        label@ == (if game_playing { "Pause"@ } else { "Play"@ }),
{
    if !game_playing {
        "Play"
    } else {
        "Pause"
    }
}

/// The label of the button that pauses or resumes physics time.
pub fn physics_button_label(pause_time: bool) -> (label: &'static str)
    ensures
        label@ == (if pause_time { "Play"@ } else { "Pause"@ }),
{
    if pause_time {
        "Play"
    } else {
        "Pause"
    }
}

/// The buttons of the game manager tab that were clicked this frame.
pub struct GameManagerClicks {
    pub play_pause: bool,
    pub leave_editor: bool,
    pub physics_pause: bool,
}

/// The game manager tab's buttons: play/pause flips whether the game runs,
/// and starting it grabs the mouse; "Leave Editor" closes the editor; the
/// physics button flips whether physics time is paused.
pub fn game_manager_ui(editor: &mut EditorState, game_var: &mut GameVar, clicks: &GameManagerClicks)
    ensures
        final(editor).game_playing == (old(editor).game_playing != clicks.play_pause),
        final(editor).pause_time == (old(editor).pause_time != clicks.physics_pause),
        final(editor).pointer_in_viewport == old(editor).pointer_in_viewport,
        final(game_var).mouse_grabbed == (old(game_var).mouse_grabbed || (clicks.play_pause
            && !old(editor).game_playing)),
        final(game_var).in_editor == (old(game_var).in_editor && !clicks.leave_editor),
        final(game_var).render_distance == old(game_var).render_distance,
        final(game_var).hitbox_shown == old(game_var).hitbox_shown,
{
    let was_playing = editor.game_playing;
    if clicks.play_pause {
        editor.game_playing = !editor.game_playing;
    }
    if was_playing != editor.game_playing && editor.game_playing {
        game_var.mouse_grabbed = true;
    }
    if clicks.leave_editor {
        game_var.in_editor = false;
    }
    if clicks.physics_pause {
        editor.pause_time = !editor.pause_time;
    }
}

/// Keeps the editor in step with whether it is open. Outside the editor
/// the game runs with time flowing and the pointer counted as in the
/// viewport; the return value says so, and the caller then resumes time and
/// gives the game cameras the whole window. Opening the editor stops the
/// game. `last_state` remembers whether the editor was open.
pub fn check_editor_state_change(editor: &mut EditorState, in_editor: bool, last_state: &mut bool) -> (reset: bool)
    ensures
        reset == !in_editor,
        !in_editor ==> final(editor).game_playing && final(editor).pointer_in_viewport
            && !final(editor).pause_time,
        in_editor ==> final(editor).game_playing == (old(editor).game_playing && *old(last_state)),
        in_editor ==> final(editor).pointer_in_viewport == old(editor).pointer_in_viewport,
        in_editor ==> final(editor).pause_time == old(editor).pause_time,
        *final(last_state) == in_editor,
{
    let mut reset = false;
    if !in_editor {
        editor.game_playing = true;
        editor.pointer_in_viewport = true;
        editor.pause_time = false;
        reset = true;
    }
    if *last_state != in_editor && in_editor {
        editor.game_playing = false;
    }
    *last_state = in_editor;
    reset
}

/// Whether virtual time is to be paused.
pub fn pause_app(editor: &EditorState) -> (paused: bool)
    ensures
        paused == editor.pause_time,
{
    editor.pause_time
}

/// Whether the editor's systems run.
pub fn check_if_in_editor(game_var: &GameVar) -> (b: bool)
    ensures
        b == game_var.in_editor,
{
    game_var.in_editor
}

/// `a + b`, held at `u32::MAX`.
pub open spec fn saturating_sum(a: u32, b: u32) -> int {
    if a + b > u32::MAX {
        u32::MAX as int
    } else {
        a + b
    }
}

/// A camera viewport at `position` of `size` (physical pixels) is used only
/// when its far corner, added with saturation, lies within the window.
pub fn viewport_fits(position_x: u32, position_y: u32, size_x: u32, size_y: u32, window_x: u32, window_y: u32) -> (b: bool)
    ensures
        b == (saturating_sum(position_x, size_x) <= window_x && saturating_sum(position_y, size_y)
            <= window_y),
{
    let right = position_x.saturating_add(size_x);
    let bottom = position_y.saturating_add(size_y);
    right <= window_x && bottom <= window_y
}

/// What a click in the viewport does to the editor's selection.
#[derive(Clone, Copy, Debug, PartialEq, Eq, Structural)]
pub enum SelectionAction {
    /// The clicked entity is already selected: nothing changes.
    Keep,
    /// Deselect everything, then select this entity.
    Select(u64),
    /// Deselect everything.
    Clear,
}

/// A click picks an object only when it is a fresh left click over the
/// viewport while the game is stopped.
pub fn viewport_click_enabled(left_just_pressed: bool, editor: &EditorState) -> (b: bool)
    ensures
        b == (left_just_pressed && editor.pointer_in_viewport && !editor.game_playing),
{
    left_just_pressed && editor.pointer_in_viewport && !editor.game_playing
}

/// The selection after a viewport click whose ray hit `hit` (or nothing).
/// `last_selected` remembers the entity selected last.
pub fn pick_object_in_viewport(hit: Option<u64>, last_selected: &mut Option<u64>) -> (action: SelectionAction)
    ensures
        match hit {
            Some(e) => if *old(last_selected) == Some(e) {
                action == SelectionAction::Keep && *final(last_selected) == *old(last_selected)
            } else {
                action == SelectionAction::Select(e) && *final(last_selected) == Some(e)
            },
            None => action == SelectionAction::Clear && *final(last_selected) == None::<u64>,
        },
{
    match hit {
        Some(e) => {
            let same = match *last_selected {
                Some(l) => l == e,
                None => false,
            };
            if !same {
                *last_selected = Some(e);
                SelectionAction::Select(e)
            } else {
                SelectionAction::Keep
            }
        },
        None => {
            *last_selected = None;
            SelectionAction::Clear
        },
    }
}

} // verus!
