//! Voxel grid loader: turns one model's raw per-voxel array into a dense
//! addressable grid with face-visibility rules. A cell value of 0 is empty
//! air; a value `v` in 1..=255 is solid with palette element `v - 1`.
//! Coordinates outside the extent are treated as empty.

use vstd::prelude::*;
use vstd::arithmetic::div_mod::lemma_fundamental_div_mod_converse;
use std::collections::HashMap;

verus! {

broadcast use vstd::std_specs::hash::group_hash_axioms;

/// A single grid cell: a palette index where 0 denotes empty air and a
/// value `v` in 1..=255 denotes a solid voxel of palette element `v - 1`.
/// Equality is by raw index value.
#[derive(Clone, Copy, PartialEq, Eq, Structural, Debug)]
pub struct Voxel(pub u8);

/// One row of the decoder's flat voxel array: a position and a zero-based
/// palette element index.
#[derive(Clone, Copy, Debug)]
pub struct RawVoxel {
    pub x: u8,
    pub y: u8,
    pub z: u8,
    pub i: u8,
}

/// The mathematical model of a voxel grid: an extent, a dense cell
/// sequence, and the outer-face meshing flag.
#[verifier::ext_equal]
pub ghost struct GridView {
    pub size_x: int,
    pub size_y: int,
    pub size_z: int,
    pub cells: Seq<u8>,
    pub outer: bool,
}

impl GridView {
    pub open spec fn wf(self) -> bool {
        &&& 0 <= self.size_x <= 256
        &&& 0 <= self.size_y <= 256
        &&& 0 <= self.size_z <= 256
        &&& self.cells.len() == self.size_x * self.size_y * self.size_z
    }

    pub open spec fn in_bounds(self, x: int, y: int, z: int) -> bool {
        &&& 0 <= x < self.size_x
        &&& 0 <= y < self.size_y
        &&& 0 <= z < self.size_z
    }

    /// The linear cell index of an in-bounds coordinate.
    pub open spec fn idx(self, x: int, y: int, z: int) -> int {
        x + self.size_x * (y + self.size_y * z)
    }

    /// The coordinate of a linear cell index.
    pub open spec fn coords_of(self, k: int) -> (int, int, int) {
        (k % self.size_x, (k / self.size_x) % self.size_y, k / (self.size_x * self.size_y))
    }

    /// The cell value at a coordinate; empty outside the extent.
    pub open spec fn at(self, x: int, y: int, z: int) -> u8 {
        if self.in_bounds(x, y, z) {
            self.cells[self.idx(x, y, z)]
        } else {
            0
        }
    }
}

/// The linearization maps in-bounds coordinates within the cell sequence.
pub proof fn lemma_idx_bounds(g: GridView, x: int, y: int, z: int)
    requires
        g.wf(),
        g.in_bounds(x, y, z),
    ensures
        0 <= g.idx(x, y, z) < g.cells.len(),
        g.coords_of(g.idx(x, y, z)) == (x, y, z),
{
    let sx = g.size_x;
    let sy = g.size_y;
    let sz = g.size_z;
    let a = y + sy * z;
    let k = g.idx(x, y, z);
    assert(0 <= a < sy * sz && 0 <= x + sx * a < sx * sy * sz && k == a * sx + x && a == z * sy + y
        && k == z * (sx * sy) + (x + sx * y) && 0 <= x + sx * y < sx * sy) by (nonlinear_arith)
        requires
            0 <= x < sx,
            0 <= y < sy,
            0 <= z < sz,
            a == y + sy * z,
            k == x + sx * (y + sy * z),
    ;
    lemma_fundamental_div_mod_converse(k, sx, a, x);
    lemma_fundamental_div_mod_converse(a, sy, z, y);
    lemma_fundamental_div_mod_converse(k, sx * sy, z, x + sx * y);
}

/// Distinct in-bounds coordinates have distinct linear indices.
pub proof fn lemma_idx_injective(g: GridView, x1: int, y1: int, z1: int, x2: int, y2: int, z2: int)
    requires
        g.wf(),
        g.in_bounds(x1, y1, z1),
        g.in_bounds(x2, y2, z2),
        g.idx(x1, y1, z1) == g.idx(x2, y2, z2),
    ensures
        x1 == x2 && y1 == y2 && z1 == z2,
{
    lemma_idx_bounds(g, x1, y1, z1);
    lemma_idx_bounds(g, x2, y2, z2);
}

/// Every linear index is the index of its own coordinate.
pub proof fn lemma_coords_of(g: GridView, k: int)
    requires
        g.wf(),
        0 <= k < g.cells.len(),
    ensures
        ({
            let (x, y, z) = g.coords_of(k);
            g.in_bounds(x, y, z) && g.idx(x, y, z) == k
        }),
        g.size_x > 0 && g.size_y > 0 && g.size_z > 0,
{
    let sx = g.size_x;
    let sy = g.size_y;
    let sz = g.size_z;
    assert(sx > 0 && sy > 0 && sz > 0) by (nonlinear_arith)
        requires
            0 <= k < sx * sy * sz,
            sx >= 0,
            sy >= 0,
            sz >= 0,
    ;
    let x = k % sx;
    let a = k / sx;
    assert(k == sx * a + x && 0 <= x < sx) by {
        vstd::arithmetic::div_mod::lemma_fundamental_div_mod(k, sx);
        vstd::arithmetic::div_mod::lemma_mod_bound(k, sx);
    }
    let y = a % sy;
    let z = a / sy;
    assert(0 <= a) by (nonlinear_arith)
        requires
            k == sx * a + x,
            0 <= x < sx,
            0 <= k,
    ;
    assert(a == sy * z + y && 0 <= y < sy) by {
        vstd::arithmetic::div_mod::lemma_fundamental_div_mod(a, sy);
        vstd::arithmetic::div_mod::lemma_mod_bound(a, sy);
    }
    assert(0 <= z < sz && g.idx(x, y, z) == k) by (nonlinear_arith)
        requires
            k == sx * a + x,
            a == sy * z + y,
            0 <= x < sx,
            0 <= y < sy,
            0 <= a,
            0 <= k < sx * sy * sz,
            sx > 0,
            sy > 0,
            sz > 0,
            g.idx(x, y, z) == x + sx * (y + sy * z),
    ;
    assert(k / (sx * sy) == z) by {
        assert(k == z * (sx * sy) + (x + sx * y) && 0 <= x + sx * y < sx * sy) by (nonlinear_arith)
            requires
                k == sx * a + x,
                a == sy * z + y,
                0 <= x < sx,
                0 <= y < sy,
                sx > 0,
                sy > 0,
        ;
        lemma_fundamental_div_mod_converse(k, sx * sy, z, x + sx * y);
    }
}

/// The grid value that a raw voxel array gives to a coordinate: the last
/// row written at that position wins; positions no row names are empty.
pub open spec fn rows_value(rows: Seq<RawVoxel>, x: int, y: int, z: int) -> u8
    decreases rows.len(),
{
    if rows.len() == 0 {
        0u8
    } else {
        let last = rows.last();
        if last.x == x && last.y == y && last.z == z {
            solid_value(last.i)
        } else {
            rows_value(rows.drop_last(), x, y, z)
        }
    }
}

/// The cell value of a solid voxel with palette element index `i`.
pub open spec fn solid_value(i: u8) -> u8 {
    if i == 255 {
        255u8
    } else {
        (i + 1) as u8
    }
}

/// A dense voxel grid: the extent of one model plus its cells, and the
/// outer-face meshing flag that governs visibility at the boundary.
pub struct VoxelGrid {
    pub size_x: u32,
    pub size_y: u32,
    pub size_z: u32,
    pub voxels: Vec<u8>,
    pub mesh_outer_faces: bool,
}

impl View for VoxelGrid {
    type V = GridView;

    open spec fn view(&self) -> GridView {
        GridView {
            size_x: self.size_x as int,
            size_y: self.size_y as int,
            size_z: self.size_z as int,
            cells: self.voxels@,
            outer: self.mesh_outer_faces,
        }
    }
}

/// One of the six axis-aligned face directions, in the source (Z-up)
/// coordinate convention.
#[derive(Clone, Copy, PartialEq, Eq, Structural, Debug)]
pub enum FaceDir {
    XNeg,
    XPos,
    YNeg,
    YPos,
    ZNeg,
    ZPos,
}

impl FaceDir {
    /// The unit offset towards the neighboring cell this face looks at.
    pub open spec fn offset(self) -> (int, int, int) {
        match self {
            FaceDir::XNeg => (-1int, 0int, 0int),
            FaceDir::XPos => (1int, 0int, 0int),
            FaceDir::YNeg => (0int, -1int, 0int),
            FaceDir::YPos => (0int, 1int, 0int),
            FaceDir::ZNeg => (0int, 0int, -1int),
            FaceDir::ZPos => (0int, 0int, 1int),
        }
    }
}

/// A face of a solid voxel is visible exactly when the neighboring cell it
/// looks at is empty, or lies outside the extent and outer faces are meshed.
pub open spec fn face_visible(g: GridView, x: int, y: int, z: int, d: FaceDir) -> bool {
    let (dx, dy, dz) = d.offset();
    let nx = x + dx;
    let ny = y + dy;
    let nz = z + dz;
    g.at(x, y, z) != 0 && if g.in_bounds(nx, ny, nz) {
        g.at(nx, ny, nz) == 0
    } else {
        g.outer
    }
}

/// A voxel is visible when any of its six faces is.
pub open spec fn voxel_visible(g: GridView, x: int, y: int, z: int) -> bool {
    ||| face_visible(g, x, y, z, FaceDir::XNeg)
    ||| face_visible(g, x, y, z, FaceDir::XPos)
    ||| face_visible(g, x, y, z, FaceDir::YNeg)
    ||| face_visible(g, x, y, z, FaceDir::YPos)
    ||| face_visible(g, x, y, z, FaceDir::ZNeg)
    ||| face_visible(g, x, y, z, FaceDir::ZPos)
}

/// A visible solid voxel: its position and its palette element index.
#[derive(Clone, Copy, PartialEq, Eq, Structural, Debug)]
pub struct VisibleVoxel {
    pub x: u32,
    pub y: u32,
    pub z: u32,
    pub index: u8,
}

impl VoxelGrid {
    pub open spec fn wf(self) -> bool {
        self@.wf()
    }

    /// Builds the grid of one model from the decoder's flat voxel array.
    /// Rows are written in order, so at a shared position the last row
    /// wins; positions no row names stay empty.
    pub fn load_from_model(
        size_x: u32,
        size_y: u32,
        size_z: u32,
        rows: &Vec<RawVoxel>,
        mesh_outer_faces: bool,
    ) -> (r: VoxelGrid)
        requires
            size_x <= 256,
            size_y <= 256,
            size_z <= 256,
        ensures
            r.wf(),
            r.size_x == size_x,
            r.size_y == size_y,
            r.size_z == size_z,
            r.mesh_outer_faces == mesh_outer_faces,
            forall|x: int, y: int, z: int| r@.in_bounds(x, y, z) ==> r@.at(x, y, z) == rows_value(
                rows@,
                x,
                y,
                z,
            ),
    {
        proof {
            assert((size_x as int) * (size_y as int) <= 0x10000 && (size_x as int) * (size_y
                as int) * (size_z as int) <= 0x1000000) by (nonlinear_arith)
                requires
                    size_x <= 256,
                    size_y <= 256,
                    size_z <= 256,
            ;
        }
        let total: usize = (size_x as usize) * (size_y as usize) * (size_z as usize);
        let mut voxels: Vec<u8> = Vec::new();
        let mut k: usize = 0;
        while k < total
            invariant
                k <= total,
                voxels@.len() == k,
                forall|j: int| 0 <= j < k ==> voxels@[j] == 0u8,
            decreases total - k,
        {
            voxels.push(0);
            k += 1;
        }
        let mut grid = VoxelGrid { size_x, size_y, size_z, voxels, mesh_outer_faces };
        proof {
            assert forall|x: int, y: int, z: int| grid@.in_bounds(x, y, z) implies grid@.at(x, y, z)
                == rows_value(rows@.take(0), x, y, z) by {
                lemma_idx_bounds(grid@, x, y, z);
            }
        }
        let mut r: usize = 0;
        while r < rows.len()
            invariant
                r <= rows@.len(),
                grid.size_x == size_x,
                grid.size_y == size_y,
                grid.size_z == size_z,
                grid.mesh_outer_faces == mesh_outer_faces,
                grid.wf(),
                forall|x: int, y: int, z: int| grid@.in_bounds(x, y, z) ==> grid@.at(x, y, z)
                    == rows_value(rows@.take(r as int), x, y, z),
            decreases rows@.len() - r,
        {
            let ghost pre = grid@;
            let row = rows[r];
            if (row.x as u32) < size_x && (row.y as u32) < size_y && (row.z as u32) < size_z {
                proof {
                    lemma_idx_bounds(grid@, row.x as int, row.y as int, row.z as int);
                    assert((row.y as int) + (size_y as int) * (row.z as int) <= 65535 && (row.x
                        as int) + (size_x as int) * ((row.y as int) + (size_y as int) * (row.z
                        as int)) < 0x1000000) by (nonlinear_arith)
                        requires
                            (row.x as int) < size_x <= 256,
                            (row.y as int) < size_y <= 256,
                            (row.z as int) < size_z <= 256,
                    ;
                }
                let idx: usize = (row.x as usize) + (size_x as usize) * ((row.y as usize) + (size_y
                    as usize) * (row.z as usize));
                let value: u8 = if row.i == 255 { 255 } else { row.i + 1 };
                grid.voxels.set(idx, value);
                proof {
                    assert forall|x: int, y: int, z: int| grid@.in_bounds(x, y, z) implies grid@.at(
                        x,
                        y,
                        z,
                    ) == rows_value(rows@.take(r + 1), x, y, z) by {
                        lemma_idx_bounds(grid@, x, y, z);
                        assert(rows@.take(r + 1).drop_last() =~= rows@.take(r as int));
                        assert(rows@.take(r + 1).last() == rows@[r as int]);
                        if x == row.x as int && y == row.y as int && z == row.z as int {
                        } else {
                            if grid@.idx(x, y, z) == grid@.idx(
                                row.x as int,
                                row.y as int,
                                row.z as int,
                            ) {
                                lemma_idx_injective(
                                    grid@,
                                    x,
                                    y,
                                    z,
                                    row.x as int,
                                    row.y as int,
                                    row.z as int,
                                );
                            }
                            assert(grid@.at(x, y, z) == pre.at(x, y, z));
                        }
                    }
                }
            } else {
                proof {
                    assert forall|x: int, y: int, z: int| grid@.in_bounds(x, y, z) implies grid@.at(
                        x,
                        y,
                        z,
                    ) == rows_value(rows@.take(r + 1), x, y, z) by {
                        assert(rows@.take(r + 1).drop_last() =~= rows@.take(r as int));
                        assert(rows@.take(r + 1).last() == rows@[r as int]);
                    }
                }
            }
            r += 1;
        }
        proof {
            assert(rows@.take(rows@.len() as int) =~= rows@);
        }
        grid
    }

    /// The cell value at a coordinate given with signed components; empty
    /// outside the extent.
    pub fn get_signed(&self, x: i64, y: i64, z: i64) -> (r: u8)
        requires
            self.wf(),
        ensures
            r == self@.at(x as int, y as int, z as int),
    {
        if x >= 0 && (x as u64) < (self.size_x as u64) && y >= 0 && (y as u64) < (self.size_y
            as u64) && z >= 0 && (z as u64) < (self.size_z as u64) {
            proof {
                lemma_idx_bounds(self@, x as int, y as int, z as int);
                assert((y as int) + (self.size_y as int) * (z as int) <= 65535 && (x as int) + (
                self.size_x as int) * ((y as int) + (self.size_y as int) * (z as int)) < 0x1000000)
                    by (nonlinear_arith)
                    requires
                        0 <= (x as int) < self.size_x <= 256,
                        0 <= (y as int) < self.size_y <= 256,
                        0 <= (z as int) < self.size_z <= 256,
                ;
            }
            let idx: usize = (x as usize) + (self.size_x as usize) * ((y as usize) + (self.size_y
                as usize) * (z as usize));
            self.voxels[idx]
        } else {
            0
        }
    }

    /// The cell value at a coordinate; empty outside the extent.
    pub fn get(&self, x: u32, y: u32, z: u32) -> (r: u8)
        requires
            self.wf(),
        ensures
            r == self@.at(x as int, y as int, z as int),
    {
        self.get_signed(x as i64, y as i64, z as i64)
    }

    /// Whether the given face of the cell at a coordinate is visible.
    pub fn face_visible_at(&self, x: u32, y: u32, z: u32, d: FaceDir) -> (r: bool)
        requires
            self.wf(),
            x <= 256,
            y <= 256,
            z <= 256,
        ensures
            r == face_visible(self@, x as int, y as int, z as int, d),
    {
        let v = self.get(x, y, z);
        if v == 0 {
            return false;
        }
        let (dx, dy, dz): (i64, i64, i64) = match d {
            FaceDir::XNeg => (-1, 0, 0),
            FaceDir::XPos => (1, 0, 0),
            FaceDir::YNeg => (0, -1, 0),
            FaceDir::YPos => (0, 1, 0),
            FaceDir::ZNeg => (0, 0, -1),
            FaceDir::ZPos => (0, 0, 1),
        };
        let nx = x as i64 + dx;
        let ny = y as i64 + dy;
        let nz = z as i64 + dz;
        let in_bounds = nx >= 0 && (nx as u64) < (self.size_x as u64) && ny >= 0 && (ny as u64)
            < (self.size_y as u64) && nz >= 0 && (nz as u64) < (self.size_z as u64);
        if in_bounds {
            self.get_signed(nx, ny, nz) == 0
        } else {
            self.mesh_outer_faces
        }
    }

    /// Whether the cell at a coordinate is a solid voxel with any visible
    /// face.
    pub fn voxel_visible_at(&self, x: u32, y: u32, z: u32) -> (r: bool)
        requires
            self.wf(),
            x <= 256,
            y <= 256,
            z <= 256,
        ensures
            r == voxel_visible(self@, x as int, y as int, z as int),
    {
        self.face_visible_at(x, y, z, FaceDir::XNeg) || self.face_visible_at(x, y, z, FaceDir::XPos)
            || self.face_visible_at(x, y, z, FaceDir::YNeg) || self.face_visible_at(
            x,
            y,
            z,
            FaceDir::YPos,
        ) || self.face_visible_at(x, y, z, FaceDir::ZNeg) || self.face_visible_at(
            x,
            y,
            z,
            FaceDir::ZPos,
        )
    }
}

/// The visible voxels of a grid, scanned from linear cell index `k` on, in
/// cell order.
pub open spec fn visible_list_from(g: GridView, k: int) -> Seq<VisibleVoxel>
    recommends
        g.wf(),
    decreases g.cells.len() - k when 0 <= k <= g.cells.len()
{
    if k < 0 || k >= g.cells.len() {
        Seq::empty()
    } else {
        let (x, y, z) = g.coords_of(k);
        let rest = visible_list_from(g, k + 1);
        if voxel_visible(g, x, y, z) {
            seq![
                VisibleVoxel {
                    x: x as u32,
                    y: y as u32,
                    z: z as u32,
                    index: (g.at(x, y, z) - 1) as u8,
                },
            ] + rest
        } else {
            rest
        }
    }
}

/// The visible voxels of a grid, in cell order.
pub open spec fn visible_list(g: GridView) -> Seq<VisibleVoxel> {
    visible_list_from(g, 0)
}

/// The refraction indices of the visible voxels whose palette index is in
/// the lookup, in list order.
pub open spec fn translucent_iors(list: Seq<VisibleVoxel>, m: Map<u8, u32>) -> Seq<u32>
    decreases list.len(),
{
    if list.len() == 0 {
        Seq::empty()
    } else {
        translucent_iors(list.drop_last(), m) + if m.contains_key(list.last().index) {
            seq![m[list.last().index]]
        } else {
            Seq::empty()
        }
    }
}

/// The sum of a sequence of values.
pub open spec fn seq_sum(s: Seq<u32>) -> int
    decreases s.len(),
{
    if s.len() == 0 {
        0
    } else {
        seq_sum(s.drop_last()) + s.last()
    }
}

/// The per-model index of refraction: the mean of the refraction indices
/// of the translucent visible voxels, or nothing when there are none.
pub open spec fn model_ior(list: Seq<VisibleVoxel>, m: Map<u8, u32>) -> Option<u32> {
    let iors = translucent_iors(list, m);
    if iors.len() == 0 {
        None
    } else {
        Some((seq_sum(iors) / iors.len() as int) as u32)
    }
}

/// A translucent entry exists in the list exactly when the ior sequence is
/// non-empty.
pub proof fn lemma_translucent_iors_exist(list: Seq<VisibleVoxel>, m: Map<u8, u32>)
    ensures
        translucent_iors(list, m).len() > 0 <==> exists|j: int|
            0 <= j < list.len() && m.contains_key(list[j].index),
    decreases list.len(),
{
    if list.len() > 0 {
        lemma_translucent_iors_exist(list.drop_last(), m);
        if translucent_iors(list.drop_last(), m).len() > 0 {
            let j = choose|j: int|
                0 <= j < list.drop_last().len() && m.contains_key(list.drop_last()[j].index);
            assert(list[j] == list.drop_last()[j]);
        }
        if m.contains_key(list.last().index) {
            assert(m.contains_key(list[list.len() - 1].index));
        }
        if exists|j: int| 0 <= j < list.len() && m.contains_key(list[j].index) {
            let j = choose|j: int| 0 <= j < list.len() && m.contains_key(list[j].index);
            if j < list.len() - 1 {
                assert(list.drop_last()[j] == list[j]);
            }
        }
    }
}

/// Every ior in the sequence is bounded by the largest map value bound.
pub proof fn lemma_seq_sum_bound(s: Seq<u32>)
    ensures
        0 <= seq_sum(s) <= s.len() * (u32::MAX as int),
    decreases s.len(),
{
    if s.len() == 0 {
    } else {
        lemma_seq_sum_bound(s.drop_last());
        assert((s.len() - 1) * (u32::MAX as int) + (u32::MAX as int) == s.len() * (u32::MAX as int))
            by (nonlinear_arith);
    }
}

impl VoxelGrid {
    /// The visible voxels of this grid, in cell order, together with the
    /// per-model index of refraction: the mean refraction index of the
    /// visible voxels that are translucent per the lookup, or nothing when
    /// the model has no translucent visible voxel.
    pub fn visible_voxels(&self, ior_for_voxel: &HashMap<u8, u32>) -> (r: (
        Vec<VisibleVoxel>,
        Option<u32>,
    ))
        requires
            self.wf(),
        ensures
            r.0@ == visible_list(self@),
            r.1 == model_ior(visible_list(self@), ior_for_voxel@),
    {
        let ghost g = self@;
        proof {
            assert((self.size_x as int) * (self.size_y as int) <= 0x10000 && (self.size_x as int)
                * (self.size_y as int) * (self.size_z as int) <= 0x1000000) by (nonlinear_arith)
                requires
                    self.size_x <= 256,
                    self.size_y <= 256,
                    self.size_z <= 256,
            ;
        }
        let total: usize = (self.size_x as usize) * (self.size_y as usize) * (self.size_z as usize);
        proof {
            assert(g.cells.len() == total);
        }
        let mut list: Vec<VisibleVoxel> = Vec::new();
        let mut k: usize = 0;
        while k < total
            invariant
                self.wf(),
                g == self@,
                total == g.cells.len(),
                k <= total,
                total <= 0x1000000,
                list@.len() <= k,
                list@ + visible_list_from(g, k as int) =~= visible_list(g),
            decreases total - k,
        {
            proof {
                lemma_coords_of(g, k as int);
                assert((self.size_x as int) * (self.size_y as int) <= 0x10000) by (nonlinear_arith)
                    requires
                        self.size_x <= 256,
                        self.size_y <= 256,
                ;
            }
            let sx = self.size_x as usize;
            let sy = self.size_y as usize;
            proof {
                assert((self.size_x as int) * (self.size_y as int) > 0) by (nonlinear_arith)
                    requires
                        self.size_x > 0,
                        self.size_y > 0,
                ;
            }
            let x = (k % sx) as u32;
            let y = ((k / sx) % sy) as u32;
            let z = (k / (sx * sy)) as u32;
            proof {
                assert(g.coords_of(k as int) == (x as int, y as int, z as int));
            }
            if self.voxel_visible_at(x, y, z) {
                let v = self.get(x, y, z);
                proof {
                    let (cx, cy, cz) = g.coords_of(k as int);
                    assert(g.at(cx, cy, cz) != 0);
                }
                list.push(VisibleVoxel { x, y, z, index: v - 1 });
            }
            k += 1;
        }
        proof {
            assert(list@ =~= visible_list(g));
        }
        // Mean refraction index of the translucent visible voxels.
        let mut sum: u64 = 0;
        let mut count: usize = 0;
        let mut j: usize = 0;
        while j < list.len()
            invariant
                j <= list@.len(),
                count <= j,
                list@.len() <= 0x1000000,
                sum == seq_sum(translucent_iors(list@.take(j as int), ior_for_voxel@)),
                count == translucent_iors(list@.take(j as int), ior_for_voxel@).len(),
            decreases list@.len() - j,
        {
            proof {
                assert(list@.take(j + 1).drop_last() =~= list@.take(j as int));
                assert(list@.take(j + 1).last() == list@[j as int]);
                lemma_seq_sum_bound(translucent_iors(list@.take(j as int), ior_for_voxel@));
                assert(count * (u32::MAX as int) <= 0x1000000 * (u32::MAX as int))
                    by (nonlinear_arith)
                    requires
                        0 <= count <= 0x1000000,
                ;
            }
            match ior_for_voxel.get(&list[j].index) {
                Some(v) => {
                    proof {
                        let m = ior_for_voxel@;
                        let pre = translucent_iors(list@.take(j as int), m);
                        let post = translucent_iors(list@.take(j + 1), m);
                        assert(post == pre + seq![m[list@[j as int].index]]);
                        assert(post.drop_last() =~= pre);
                        assert(post.last() == m[list@[j as int].index]);
                    }
                    sum = sum + (*v as u64);
                    count = count + 1;
                },
                None => {
                    proof {
                        let m = ior_for_voxel@;
                        let pre = translucent_iors(list@.take(j as int), m);
                        let post = translucent_iors(list@.take(j + 1), m);
                        assert(post =~= pre);
                    }
                },
            }
            j += 1;
        }
        proof {
            assert(list@.take(list@.len() as int) =~= list@);
        }
        let ior: Option<u32> = if count == 0 {
            None
        } else {
            proof {
                lemma_seq_sum_bound(translucent_iors(list@, ior_for_voxel@));
                vstd::arithmetic::div_mod::lemma_multiply_divide_le(
                    seq_sum(translucent_iors(list@, ior_for_voxel@)),
                    count as int,
                    u32::MAX as int,
                );
            }
            Some((sum / (count as u64)) as u32)
        };
        (list, ior)
    }
}


impl VoxelGrid {
    /// The smallest of the grid's three extents: the volumetric-thickness
    /// heuristic for translucent models.
    pub fn min_extent(&self) -> (r: u32)
        ensures
            r == vstd::math::min(
                self.size_x as int,
                vstd::math::min(self.size_y as int, self.size_z as int),
            ),
    {
        let yz = if self.size_y < self.size_z {
            self.size_y
        } else {
            self.size_z
        };
        if self.size_x < yz {
            self.size_x
        } else {
            yz
        }
    }
}
} // verus!
