use terra_sandbox::chunk::{Chunk, ChunkPos};
use terra_sandbox::load_chunks::{
    calculate_player_view, contains_pos, needs_view_update, regenerate_map_observer, ChunkMap,
};

fn pos(x: i32, z: i32) -> ChunkPos {
    ChunkPos::new(x, z)
}

#[test]
fn world_origin_is_sixteen_times_the_chunk() {
    assert_eq!(pos(3, -2).world_origin(), pos(48, -32));
    assert_eq!(pos(0, 0).world_origin(), pos(0, 0));
}

#[test]
fn spawn_records_only_once() {
    let mut c = Chunk::new(pos(1, 1));
    assert!(c.spawn_needed());
    assert!(c.spawn(7));
    assert_eq!(c.entity, Some(7));
    assert!(!c.spawn(8));
    assert_eq!(c.entity, Some(7));
}

#[test]
fn spawn_is_refused_while_water_shows() {
    let mut c = Chunk { pos: pos(0, 0), entity: None, water_entity: Some(3) };
    assert!(!c.spawn(9));
    assert_eq!(c.entity, None);
}

#[test]
fn despawn_returns_ground_then_water() {
    let mut c = Chunk { pos: pos(0, 0), entity: Some(5), water_entity: Some(6) };
    assert_eq!(c.despawn(), vec![5, 6]);
    assert_eq!(c.entity, None);
    assert_eq!(c.water_entity, None);
    assert_eq!(c.despawn(), Vec::<u64>::new());
}

#[test]
fn spawn_then_despawn_round_trip() {
    let mut c = Chunk::new(pos(2, 2));
    assert!(c.spawn(11));
    assert_eq!(c.despawn(), vec![11]);
    assert!(c.spawn_needed());
}

#[test]
fn load_spawns_new_chunks_in_plan_order() {
    let mut map = ChunkMap::new();
    let view = vec![pos(0, 0), pos(1, 0), pos(0, 1)];
    let plan = map.spawn_plan(&view);
    assert_eq!(plan, view);
    let despawned = map.load_unload_chunks(&view, &vec![10, 11, 12]);
    assert!(despawned.is_empty());
    assert_eq!(map.len(), 3);
    assert_eq!(map.get(pos(1, 0)).unwrap().entity, Some(11));
    assert_eq!(map.get(pos(0, 1)).unwrap().entity, Some(12));
}

#[test]
fn load_despawns_chunks_that_left_the_view() {
    let mut map = ChunkMap::new();
    let first = vec![pos(0, 0), pos(1, 0)];
    map.load_unload_chunks(&first, &vec![1, 2]);
    let second = vec![pos(1, 0), pos(2, 0)];
    let plan = map.spawn_plan(&second);
    assert_eq!(plan, vec![pos(2, 0)]);
    let despawned = map.load_unload_chunks(&second, &vec![3]);
    assert_eq!(despawned, vec![1]);
    assert_eq!(map.len(), 3);
    assert_eq!(map.get(pos(0, 0)).unwrap().entity, None);
    assert_eq!(map.get(pos(1, 0)).unwrap().entity, Some(2));
    assert_eq!(map.get(pos(2, 0)).unwrap().entity, Some(3));
}

#[test]
fn returning_chunk_is_spawned_again() {
    let mut map = ChunkMap::new();
    map.load_unload_chunks(&vec![pos(0, 0)], &vec![1]);
    map.load_unload_chunks(&vec![pos(5, 5)], &vec![2]);
    assert_eq!(map.spawn_plan(&vec![pos(0, 0)]), vec![pos(0, 0)]);
    let despawned = map.load_unload_chunks(&vec![pos(0, 0)], &vec![3]);
    assert_eq!(despawned, vec![2]);
    assert_eq!(map.get(pos(0, 0)).unwrap().entity, Some(3));
    assert_eq!(map.len(), 2);
}

#[test]
fn reload_with_same_view_is_noop() {
    let mut map = ChunkMap::new();
    let view = vec![pos(0, 0), pos(0, 1)];
    map.load_unload_chunks(&view, &vec![4, 5]);
    assert!(map.spawn_plan(&view).is_empty());
    let despawned = map.load_unload_chunks(&view, &vec![]);
    assert!(despawned.is_empty());
    assert_eq!(map.get(pos(0, 0)).unwrap().entity, Some(4));
    assert_eq!(map.get(pos(0, 1)).unwrap().entity, Some(5));
}

#[test]
fn clear_cache_returns_ground_entities() {
    let mut map = ChunkMap::new();
    map.load_unload_chunks(&vec![pos(0, 0), pos(1, 1), pos(2, 2)], &vec![7, 8, 9]);
    map.load_unload_chunks(&vec![pos(0, 0), pos(2, 2)], &vec![]);
    let cleared = map.clear_chunk_cache();
    assert_eq!(cleared, vec![7, 9]);
    assert_eq!(map.len(), 0);
    assert!(map.get(pos(0, 0)).is_none());
}

#[test]
fn contains_pos_finds_members() {
    let v = vec![pos(1, 2), pos(3, 4)];
    assert!(contains_pos(&v, pos(3, 4)));
    assert!(!contains_pos(&v, pos(4, 3)));
}

fn mask(rd: i32, value: bool) -> Vec<bool> {
    let w = (2 * rd + 1) as usize;
    vec![value; w * w]
}

#[test]
fn view_without_cone_is_the_near_disk() {
    let view = calculate_player_view(pos(0, 0), 3, &mask(3, false));
    assert_eq!(view.len(), 13);
    assert!(view.contains(&pos(2, 0)));
    assert!(view.contains(&pos(1, 1)));
    assert!(!view.contains(&pos(2, 1)));
}

#[test]
fn view_with_full_cone_is_the_render_disk() {
    let view = calculate_player_view(pos(10, -4), 3, &mask(3, true));
    assert_eq!(view.len(), 29);
    assert!(view.contains(&pos(13, -4)));
    assert!(view.contains(&pos(12, -2)));
    assert!(!view.contains(&pos(13, -3)));
}

#[test]
fn view_follows_cone_mask() {
    let rd = 4;
    let w = (2 * rd + 1) as usize;
    let mut cone = vec![false; w * w];
    // only offset (3, 0) lies in the cone
    cone[(3 + rd as usize) * w + rd as usize] = true;
    let view = calculate_player_view(pos(0, 0), rd, &cone);
    assert_eq!(view.len(), 14);
    assert!(view.contains(&pos(3, 0)));
    assert!(!view.contains(&pos(-3, 0)));
}

#[test]
fn view_has_no_duplicates() {
    let view = calculate_player_view(pos(0, 0), 5, &mask(5, true));
    for (i, a) in view.iter().enumerate() {
        for b in view.iter().skip(i + 1) {
            assert_ne!(a, b);
        }
    }
}

#[test]
fn render_distance_zero_shows_own_chunk() {
    let view = calculate_player_view(pos(7, 7), 0, &mask(0, false));
    assert_eq!(view, vec![pos(7, 7)]);
}

#[test]
fn view_update_triggers() {
    assert!(!needs_view_update(pos(0, 0), pos(0, 0), false, false));
    assert!(needs_view_update(pos(0, 1), pos(0, 0), false, false));
    assert!(needs_view_update(pos(0, 0), pos(0, 0), true, false));
    assert!(needs_view_update(pos(0, 0), pos(0, 0), false, true));
}

#[test]
fn regenerate_when_render_distance_changes() {
    let mut last = 0;
    assert!(regenerate_map_observer(40, &mut last));
    assert_eq!(last, 40);
    assert!(!regenerate_map_observer(40, &mut last));
    assert!(regenerate_map_observer(12, &mut last));
}
