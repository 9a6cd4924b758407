use terra_sandbox::editor::{
    check_editor_state_change, check_if_in_editor, game_manager_ui, pause_app, physics_button_label,
    pick_object_in_viewport, play_button_label, viewport_click_enabled, viewport_fits, EditorState,
    GameManagerClicks, SelectionAction, WindowType,
};
use terra_sandbox::free_camera::toggle_free_cam;
use terra_sandbox::game_var::GameVar;
use terra_sandbox::input::{grab_mouse, handle_input, toggle_physics_gizmos, CursorMode, InputKeys};
use terra_sandbox::pick_object::{
    find_pickable_ancestor, hold_step, pick_step, DistanceAdjust, ObjectPicked,
};
use terra_sandbox::player::{update_flashlight, PlayerFlags};
use terra_sandbox::player_input::{self, Gait, MovementKeys};
use terra_sandbox::player_ui::{crosshair_image, update_crosshair};

fn no_keys() -> InputKeys {
    InputKeys {
        f12_just_pressed: false,
        g_just_pressed: false,
        f3_pressed: false,
        r_just_pressed: false,
        l_just_pressed: false,
    }
}

fn playing() -> EditorState {
    let mut e = EditorState::new();
    e.game_playing = true;
    e
}

#[test]
fn game_var_defaults() {
    let g = GameVar::default();
    assert!(!g.mouse_grabbed);
    assert_eq!(g.render_distance, 40);
    assert!(!g.in_editor);
    assert!(!g.hitbox_shown);
}

#[test]
fn f12_twice_restores_editor_flag() {
    let mut g = GameVar::default();
    let mut p = PlayerFlags::default();
    let keys = InputKeys { f12_just_pressed: true, ..no_keys() };
    handle_input(&keys, true, &playing(), &mut p, &mut g);
    assert!(g.in_editor);
    handle_input(&keys, true, &playing(), &mut p, &mut g);
    assert!(!g.in_editor);
}

#[test]
fn hitboxes_need_f3_held() {
    let mut g = GameVar::default();
    let mut p = PlayerFlags::default();
    handle_input(&InputKeys { g_just_pressed: true, ..no_keys() }, true, &playing(), &mut p, &mut g);
    assert!(!g.hitbox_shown);
    handle_input(
        &InputKeys { g_just_pressed: true, f3_pressed: true, ..no_keys() },
        true,
        &playing(),
        &mut p,
        &mut g,
    );
    assert!(g.hitbox_shown);
}

#[test]
fn respawn_and_flashlight_only_while_playing() {
    let mut g = GameVar::default();
    let mut p = PlayerFlags::default();
    let keys = InputKeys { r_just_pressed: true, l_just_pressed: true, ..no_keys() };
    assert!(!handle_input(&keys, true, &EditorState::new(), &mut p, &mut g));
    assert!(!p.flashlight);
    assert!(!handle_input(&keys, false, &playing(), &mut p, &mut g));
    assert!(!p.flashlight);
    assert!(handle_input(&keys, true, &playing(), &mut p, &mut g));
    assert!(p.flashlight);
    assert!(update_flashlight(&p));
}

#[test]
fn grab_mouse_cursor_follows_previous_state() {
    let mut g = GameVar::default();
    let mut e = playing();
    e.pointer_in_viewport = true;
    assert_eq!(grab_mouse(&e, true, false, &mut g), Some(CursorMode::Free));
    assert!(g.mouse_grabbed);
    assert_eq!(grab_mouse(&e, false, false, &mut g), Some(CursorMode::Locked));
    assert_eq!(grab_mouse(&e, false, true, &mut g), Some(CursorMode::Locked));
    assert!(!g.mouse_grabbed);
}

#[test]
fn grab_mouse_needs_pointer_in_viewport_and_play() {
    let mut g = GameVar::default();
    assert_eq!(grab_mouse(&playing(), true, false, &mut g), Some(CursorMode::Free));
    assert!(!g.mouse_grabbed);
    assert_eq!(grab_mouse(&EditorState::new(), true, false, &mut g), None);
}

#[test]
fn gizmos_follow_hitbox_flag_on_change() {
    let mut g = GameVar::default();
    g.hitbox_shown = true;
    let mut enabled = false;
    toggle_physics_gizmos(false, &g, &mut enabled);
    assert!(!enabled);
    toggle_physics_gizmos(true, &g, &mut enabled);
    assert!(enabled);
}

#[test]
fn editor_starts_stopped() {
    let e = EditorState::new();
    assert!(!e.game_playing && !e.pause_time && !e.pointer_in_viewport);
}

#[test]
fn window_titles_and_backgrounds() {
    assert_eq!(WindowType::GameView.title(), "GameView");
    assert_eq!(WindowType::SelectedEntitieInspector.title(), "SelectedEntitieInspector");
    assert!(!WindowType::GameView.clear_background());
    assert!(WindowType::Inspector.clear_background());
}

#[test]
fn button_labels() {
    assert_eq!(play_button_label(false), "Play");
    assert_eq!(play_button_label(true), "Pause");
    assert_eq!(physics_button_label(true), "Play");
    assert_eq!(physics_button_label(false), "Pause");
}

#[test]
fn game_manager_play_grabs_mouse() {
    let mut e = EditorState::new();
    let mut g = GameVar::default();
    g.in_editor = true;
    let clicks = GameManagerClicks { play_pause: true, leave_editor: false, physics_pause: true };
    game_manager_ui(&mut e, &mut g, &clicks);
    assert!(e.game_playing);
    assert!(e.pause_time);
    assert!(g.mouse_grabbed);
    assert!(g.in_editor);
    g.mouse_grabbed = false;
    let clicks = GameManagerClicks { play_pause: true, leave_editor: true, physics_pause: false };
    game_manager_ui(&mut e, &mut g, &clicks);
    assert!(!e.game_playing);
    assert!(!g.mouse_grabbed);
    assert!(!g.in_editor);
}

#[test]
fn leaving_editor_runs_the_game() {
    let mut e = EditorState::new();
    e.pause_time = true;
    let mut last = true;
    assert!(check_editor_state_change(&mut e, false, &mut last));
    assert!(e.game_playing && e.pointer_in_viewport && !e.pause_time);
    assert!(!last);
}

#[test]
fn entering_editor_stops_the_game_once() {
    let mut e = playing();
    let mut last = false;
    assert!(!check_editor_state_change(&mut e, true, &mut last));
    assert!(!e.game_playing);
    assert!(last);
    e.game_playing = true;
    assert!(!check_editor_state_change(&mut e, true, &mut last));
    assert!(e.game_playing);
}

#[test]
fn pause_and_editor_queries() {
    let mut e = EditorState::new();
    assert!(!pause_app(&e));
    e.pause_time = true;
    assert!(pause_app(&e));
    let mut g = GameVar::default();
    assert!(!check_if_in_editor(&g));
    g.in_editor = true;
    assert!(check_if_in_editor(&g));
}

#[test]
fn viewport_fit_saturates() {
    assert!(viewport_fits(0, 0, 800, 600, 800, 600));
    assert!(!viewport_fits(1, 0, 800, 600, 800, 600));
    assert!(!viewport_fits(u32::MAX, 0, 5, 1, u32::MAX - 1, 10));
    assert!(viewport_fits(u32::MAX, 0, 5, 1, u32::MAX, 10));
}

#[test]
fn viewport_selection() {
    let mut e = EditorState::new();
    e.pointer_in_viewport = true;
    assert!(viewport_click_enabled(true, &e));
    assert!(!viewport_click_enabled(false, &e));
    assert!(!viewport_click_enabled(true, &playing()));
    let mut last = None;
    assert_eq!(pick_object_in_viewport(Some(4), &mut last), SelectionAction::Select(4));
    assert_eq!(pick_object_in_viewport(Some(4), &mut last), SelectionAction::Keep);
    assert_eq!(pick_object_in_viewport(Some(5), &mut last), SelectionAction::Select(5));
    assert_eq!(pick_object_in_viewport(None, &mut last), SelectionAction::Clear);
    assert_eq!(last, None);
}

#[test]
fn free_cam_takes_over_when_game_stops() {
    let mut g = GameVar::default();
    g.mouse_grabbed = true;
    let mut last = true;
    let s = toggle_free_cam(&EditorState::new(), &mut last, &mut g);
    assert!(s.free_cam_active && !s.player_cam_active && s.hand_over);
    assert!(!g.mouse_grabbed);
    assert!(!last);
    let s = toggle_free_cam(&EditorState::new(), &mut last, &mut g);
    assert!(!s.hand_over);
    g.mouse_grabbed = true;
    let s = toggle_free_cam(&playing(), &mut last, &mut g);
    assert!(!s.free_cam_active && s.player_cam_active && !s.hand_over);
    assert!(g.mouse_grabbed);
}

#[test]
fn pickable_ancestor_is_the_nearest() {
    let chain = vec![10, 20, 30];
    assert_eq!(find_pickable_ancestor(&chain, &vec![false, true, true]), Some(20));
    assert_eq!(find_pickable_ancestor(&chain, &vec![true, false, false]), Some(10));
    assert_eq!(find_pickable_ancestor(&chain, &vec![false, false, false]), None);
    assert_eq!(find_pickable_ancestor(&vec![], &vec![]), None);
}

#[test]
fn releasing_drops_held_object() {
    let mut picked = ObjectPicked { entity: Some(3) };
    assert_eq!(hold_step(&mut picked, false, true, false), Some(DistanceAdjust::Closer));
    assert_eq!(hold_step(&mut picked, false, false, true), Some(DistanceAdjust::Farther));
    assert_eq!(hold_step(&mut picked, false, true, true), Some(DistanceAdjust::Closer));
    assert_eq!(hold_step(&mut picked, false, false, false), Some(DistanceAdjust::Keep));
    assert_eq!(hold_step(&mut picked, true, true, false), None);
    assert_eq!(picked.entity, None);
}

#[test]
fn pick_step_takes_on_click() {
    let mut picked = ObjectPicked::default();
    let mut can = false;
    assert!(!pick_step(&mut picked, true, Some(9), false, &mut can));
    assert!(can);
    assert_eq!(picked.entity, None);
    assert!(pick_step(&mut picked, true, Some(9), true, &mut can));
    assert_eq!(picked.entity, Some(9));
    assert!(!pick_step(&mut picked, false, None, true, &mut can));
    assert!(!can);
    assert_eq!(picked.entity, Some(9));
}

#[test]
fn movement_gaits() {
    let keys = MovementKeys {
        r_pressed: false,
        t_pressed: true,
        l_just_pressed: false,
        e_just_pressed: true,
        shift_pressed: true,
        c_pressed: true,
    };
    let mut f = PlayerFlags::default();
    let out = player_input::handle_input(&keys, &mut f);
    assert_eq!(out.gait, Gait::Sprint);
    assert!(out.spawn_object && out.dash && !out.respawn);
    assert!(f.sprinting && !f.crouching);
    let crouch = MovementKeys { shift_pressed: false, ..keys };
    let out = player_input::handle_input(&crouch, &mut f);
    assert_eq!(out.gait, Gait::Crouch);
    // shift while crouching does not sprint
    let out = player_input::handle_input(&keys, &mut f);
    assert_eq!(out.gait, Gait::Crouch);
    assert!(!f.sprinting && f.crouching);
    let walk = MovementKeys { shift_pressed: false, c_pressed: false, ..keys };
    let out = player_input::handle_input(&walk, &mut f);
    assert_eq!(out.gait, Gait::Walk);
}

#[test]
fn legacy_grab_escape_wins() {
    let mut grabbed = false;
    assert_eq!(player_input::grab_mouse(true, false, &mut grabbed), Some(CursorMode::Locked));
    assert!(grabbed);
    assert_eq!(player_input::grab_mouse(true, true, &mut grabbed), Some(CursorMode::Free));
    assert!(!grabbed);
    assert_eq!(player_input::grab_mouse(false, false, &mut grabbed), None);
}

#[test]
fn crosshair_images() {
    assert_eq!(crosshair_image(true), "cursor_pack/PNG/Basic/Default/hand_open.png");
    assert_eq!(crosshair_image(false), "cursor_pack/PNG/Basic/Default/line_cross.png");
    assert_eq!(update_crosshair(false, true), None);
    assert_eq!(update_crosshair(true, false), Some("cursor_pack/PNG/Basic/Default/line_cross.png"));
}
