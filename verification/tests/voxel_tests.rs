use std::collections::HashMap;
use vox_scene::voxel::{FaceDir, RawVoxel, VoxelGrid};

#[test]
fn later_rows_overwrite_earlier_rows() {
    let rows = vec![
        RawVoxel { x: 0, y: 0, z: 0, i: 1 },
        RawVoxel { x: 0, y: 0, z: 0, i: 8 },
    ];
    let grid = VoxelGrid::load_from_model(1, 1, 1, &rows, true);
    // The stored cell value is the palette element index plus one.
    assert_eq!(grid.get(0, 0, 0), 9);
}

#[test]
fn cells_outside_the_extent_read_empty() {
    let rows = vec![RawVoxel { x: 0, y: 0, z: 0, i: 1 }];
    let grid = VoxelGrid::load_from_model(1, 1, 1, &rows, true);
    assert_eq!(grid.get(1, 0, 0), 0);
    assert_eq!(grid.get(0, 5, 0), 0);
}

#[test]
fn out_of_extent_rows_are_ignored() {
    let rows = vec![RawVoxel { x: 3, y: 0, z: 0, i: 1 }];
    let grid = VoxelGrid::load_from_model(2, 2, 2, &rows, true);
    for x in 0..2 {
        for y in 0..2 {
            for z in 0..2 {
                assert_eq!(grid.get(x, y, z), 0);
            }
        }
    }
}

#[test]
fn face_visibility_follows_neighbors_and_the_outer_flag() {
    // Two voxels along X in a 2x1x1 model.
    let rows = vec![
        RawVoxel { x: 0, y: 0, z: 0, i: 0 },
        RawVoxel { x: 1, y: 0, z: 0, i: 0 },
    ];
    let outer = VoxelGrid::load_from_model(2, 1, 1, &rows, true);
    // The shared faces are culled in either setting.
    assert!(!outer.face_visible_at(0, 0, 0, FaceDir::XPos));
    assert!(!outer.face_visible_at(1, 0, 0, FaceDir::XNeg));
    // The boundary faces are visible only when outer faces are meshed.
    assert!(outer.face_visible_at(0, 0, 0, FaceDir::XNeg));
    assert!(outer.face_visible_at(1, 0, 0, FaceDir::XPos));
    let inner = VoxelGrid::load_from_model(2, 1, 1, &rows, false);
    assert!(!inner.face_visible_at(0, 0, 0, FaceDir::XNeg));
    assert!(!inner.face_visible_at(1, 0, 0, FaceDir::XPos));
}

#[test]
fn visible_voxels_lists_exactly_the_surface() {
    // A 3x3x3 solid cube with outer faces: the center voxel is invisible.
    let mut rows = Vec::new();
    for x in 0..3u8 {
        for y in 0..3u8 {
            for z in 0..3u8 {
                rows.push(RawVoxel { x, y, z, i: 2 });
            }
        }
    }
    let grid = VoxelGrid::load_from_model(3, 3, 3, &rows, true);
    let ior: HashMap<u8, u32> = HashMap::new();
    let (visible, model_ior) = grid.visible_voxels(&ior);
    assert_eq!(visible.len(), 26);
    assert!(visible.iter().all(|v| v.index == 2));
    assert!(!visible.iter().any(|v| v.x == 1 && v.y == 1 && v.z == 1));
    assert_eq!(model_ior, None);
}

#[test]
fn model_ior_is_the_mean_of_translucent_visible_voxels() {
    // Two voxels with different translucent materials: elements 10 and 20.
    let rows = vec![
        RawVoxel { x: 0, y: 0, z: 0, i: 10 },
        RawVoxel { x: 1, y: 0, z: 0, i: 20 },
    ];
    let grid = VoxelGrid::load_from_model(2, 1, 1, &rows, true);
    let mut ior: HashMap<u8, u32> = HashMap::new();
    ior.insert(10, 1200);
    ior.insert(20, 1400);
    let (_, model_ior) = grid.visible_voxels(&ior);
    assert_eq!(model_ior, Some(1300));
}
