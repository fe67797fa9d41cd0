use vox_scene::voxel::{RawVoxel, VoxelGrid};
use vox_scene::mesh::{mesh_model, remap, remap_inverse, Vec3i};

/// A fully solid cuboid of the given extent, every cell palette element 0.
fn solid_cuboid(sx: u8, sy: u8, sz: u8, mesh_outer_faces: bool) -> VoxelGrid {
    let mut rows = Vec::new();
    for x in 0..sx {
        for y in 0..sy {
            for z in 0..sz {
                rows.push(RawVoxel { x, y, z, i: 0 });
            }
        }
    }
    VoxelGrid::load_from_model(sx as u32, sy as u32, sz as u32, &rows, mesh_outer_faces)
}

#[test]
fn solid_cuboid_without_outer_faces_meshes_empty() {
    let grid = solid_cuboid(4, 3, 2, false);
    let mesh = mesh_model(&grid, true);
    assert_eq!(mesh.positions.len(), 0);
    assert_eq!(mesh.normals.len(), 0);
    assert_eq!(mesh.uvs.len(), 0);
    assert_eq!(mesh.indices.len(), 0);
    assert_eq!(mesh.materials.len(), 0);
}

#[test]
fn solid_cuboid_with_outer_faces_meshes_to_six_quads() {
    let grid = solid_cuboid(4, 3, 2, true);
    let mesh = mesh_model(&grid, true);
    // Each of the six outer faces merges into a single quad.
    assert_eq!(mesh.positions.len(), 6 * 4);
    assert_eq!(mesh.normals.len(), 6 * 4);
    assert_eq!(mesh.uvs.len(), 6 * 4);
    assert_eq!(mesh.indices.len(), 6 * 6);
    assert_eq!(mesh.materials.len(), 6 * 4);
    // Every vertex carries the shared palette element index.
    assert!(mesh.materials.iter().all(|m| *m == 0));
}

#[test]
fn remeshing_an_unmodified_grid_is_byte_identical() {
    // A solid cube with one voxel missing, so the surface is non-trivial.
    let mut rows = Vec::new();
    for x in 0..3u8 {
        for y in 0..3u8 {
            for z in 0..3u8 {
                if !(x == 1 && y == 1 && z == 2) {
                    rows.push(RawVoxel { x, y, z, i: 4 });
                }
            }
        }
    }
    let grid = VoxelGrid::load_from_model(3, 3, 3, &rows, true);
    let first = mesh_model(&grid, true);
    let second = mesh_model(&grid, true);
    assert_eq!(first.positions.len(), second.positions.len());
    assert_eq!(first.indices.len(), second.indices.len());
    assert_eq!(first.positions, second.positions);
    assert_eq!(first.normals, second.normals);
    assert_eq!(first.uvs, second.uvs);
    assert_eq!(first.indices, second.indices);
    assert_eq!(first.materials, second.materials);
}

#[test]
fn empty_grid_meshes_empty() {
    let grid = VoxelGrid::load_from_model(8, 8, 8, &Vec::new(), true);
    let mesh = mesh_model(&grid, true);
    assert_eq!(mesh.positions.len(), 0);
    assert_eq!(mesh.indices.len(), 0);
}

#[test]
fn single_voxel_meshes_to_six_quads() {
    let rows = vec![RawVoxel { x: 0, y: 0, z: 0, i: 7 }];
    let grid = VoxelGrid::load_from_model(1, 1, 1, &rows, true);
    let mesh = mesh_model(&grid, true);
    assert_eq!(mesh.positions.len(), 24);
    assert_eq!(mesh.indices.len(), 36);
    // The per-vertex material attribute is the zero-based palette index.
    assert!(mesh.materials.iter().all(|m| *m == 7));
}

#[test]
fn remap_swaps_axes_to_y_up() {
    // Source is Z-up: X stays, Y comes from source Z, Z from negated Y.
    let p = remap(2, 3, 5);
    assert_eq!(p, Vec3i { x: 2, y: 5, z: -3 });
}

#[test]
fn remap_round_trips_through_its_inverse() {
    let cases = [(0i32, 0i32, 0i32), (1, 2, 3), (-4, 7, -9), (255, 1, 255)];
    for (x, y, z) in cases {
        let p = remap(x, y, z);
        let back = remap_inverse(p.x, p.y, p.z);
        assert_eq!(back, Vec3i { x, y, z });
        let q = remap_inverse(x, y, z);
        let forward = remap(q.x, q.y, q.z);
        assert_eq!(forward, Vec3i { x, y, z });
    }
}

#[test]
fn greedy_merging_joins_same_material_faces() {
    // A flat 4x4x1 plate of one material: each of the six orientations
    // merges into one quad.
    let mut rows = Vec::new();
    for x in 0..4u8 {
        for y in 0..4u8 {
            rows.push(RawVoxel { x, y, z: 0, i: 2 });
        }
    }
    let grid = VoxelGrid::load_from_model(4, 4, 1, &rows, true);
    let mesh = mesh_model(&grid, true);
    assert_eq!(mesh.positions.len(), 6 * 4);
}

#[test]
fn different_materials_do_not_merge() {
    // Two voxels side by side with different materials: no merging, so
    // twelve quads in all (six faces each, the shared pair culled).
    let rows = vec![
        RawVoxel { x: 0, y: 0, z: 0, i: 1 },
        RawVoxel { x: 1, y: 0, z: 0, i: 2 },
    ];
    let grid = VoxelGrid::load_from_model(2, 1, 1, &rows, true);
    let mesh = mesh_model(&grid, true);
    // 5 visible faces per voxel, none merged.
    assert_eq!(mesh.positions.len(), 10 * 4);
}

#[test]
fn uv_vertical_flip_changes_texture_coordinates() {
    let rows = vec![RawVoxel { x: 0, y: 0, z: 0, i: 0 }];
    let grid = VoxelGrid::load_from_model(1, 1, 1, &rows, true);
    let flipped = mesh_model(&grid, true);
    let unflipped = mesh_model(&grid, false);
    assert_eq!(flipped.uvs.len(), unflipped.uvs.len());
    assert!(flipped.uvs != unflipped.uvs);
}
