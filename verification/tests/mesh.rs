use terra_sandbox::scene::{instancing_cells, BlockCell};
use terra_sandbox::grass::{grass_cells, GridCell};
use terra_sandbox::world_mesh::{terrain_indices, CHUNK_RESOLUTION};

#[test]
fn one_cell_mesh() {
    assert_eq!(terrain_indices(1), vec![0, 2, 1, 1, 2, 3]);
}

#[test]
fn two_by_two_mesh() {
    let idx = terrain_indices(2);
    assert_eq!(idx.len(), 24);
    // cell (z = 1, x = 0): i = 3, v = 3
    assert_eq!(&idx[12..18], &[3, 6, 4, 4, 6, 7]);
    // last cell (z = 1, x = 1)
    assert_eq!(&idx[18..24], &[4, 7, 5, 5, 7, 8]);
}

#[test]
fn zero_resolution_is_empty() {
    assert!(terrain_indices(0).is_empty());
}

#[test]
fn chunk_mesh_indices_stay_in_range() {
    let idx = terrain_indices(CHUNK_RESOLUTION);
    assert_eq!(idx.len(), 6 * 16 * 16);
    assert!(idx.iter().all(|&i| i < 17 * 17));
    assert_eq!(*idx.iter().max().unwrap(), 17 * 17 - 1);
}

#[test]
fn grass_grid_order() {
    let cells = grass_cells(1, 0);
    assert_eq!(
        cells,
        vec![GridCell { x: -1, y: 0 }, GridCell { x: 0, y: 0 }, GridCell { x: 1, y: 0 }]
    );
    let cells = grass_cells(1, 1);
    assert_eq!(cells.len(), 9);
    assert_eq!(cells[0], GridCell { x: -1, y: -1 });
    assert_eq!(cells[5], GridCell { x: 0, y: 1 });
    assert_eq!(cells[8], GridCell { x: 1, y: 1 });
}

#[test]
fn grass_grid_negative_is_empty() {
    assert!(grass_cells(-1, 3).is_empty());
    assert!(grass_cells(2, -2).is_empty());
    assert_eq!(grass_cells(0, 0), vec![GridCell { x: 0, y: 0 }]);
}

#[test]
fn instancing_block_order_and_count() {
    let cells = instancing_cells();
    assert_eq!(cells.len(), 100_000);
    assert_eq!(cells[0], BlockCell { x: -50, y: 0, z: -50 });
    assert_eq!(cells[1], BlockCell { x: -50, y: 0, z: -49 });
    assert_eq!(cells[100], BlockCell { x: -50, y: 1, z: -50 });
    assert_eq!(cells[1000], BlockCell { x: -49, y: 0, z: -50 });
    assert_eq!(cells[99_999], BlockCell { x: 49, y: 9, z: 49 });
}
