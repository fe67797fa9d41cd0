//! Region editor: applies a caller-supplied per-voxel function to every
//! coordinate of a bounded region of an already-loaded model, then re-runs
//! the greedy mesher. Reads go against the grid's state as of the start of
//! the edit and writes are committed after the whole region has been
//! evaluated, so the function never observes its own in-progress writes and
//! edits are order-independent within one call.

use vstd::prelude::*;
use std::collections::HashMap;
use crate::voxel::{
    lemma_coords_of, model_ior, visible_list, GridView, Voxel, VoxelGrid,
};
use crate::mesh::{mesh_model, mesh_spec, MeshData};

verus! {

broadcast use vstd::std_specs::hash::group_hash_axioms;

/// An axis-aligned integer box bounding an edit; an edit with a zero
/// extent on any axis is degenerate and applies nowhere.
#[derive(Clone, Copy, PartialEq, Eq, Structural, Debug)]
pub struct VoxelRegion {
    pub origin_x: u32,
    pub origin_y: u32,
    pub origin_z: u32,
    pub size_x: u32,
    pub size_y: u32,
    pub size_z: u32,
}

impl VoxelRegion {
    /// A region bounds an edit only when it has a positive extent on every
    /// axis.
    pub open spec fn valid(self) -> bool {
        self.size_x > 0 && self.size_y > 0 && self.size_z > 0
    }

    /// Whether a coordinate lies inside the region.
    pub open spec fn contains(self, x: int, y: int, z: int) -> bool {
        &&& self.origin_x <= x < self.origin_x + self.size_x
        &&& self.origin_y <= y < self.origin_y + self.size_y
        &&& self.origin_z <= z < self.origin_z + self.size_z
    }

    /// Whether a coordinate lies inside the region.
    pub fn contains_exec(&self, x: u32, y: u32, z: u32) -> (r: bool)
        ensures
            r == self.contains(x as int, y as int, z as int),
    {
        x >= self.origin_x && (x as u64) < (self.origin_x as u64) + (self.size_x as u64) && y
            >= self.origin_y && (y as u64) < (self.origin_y as u64) + (self.size_y as u64) && z
            >= self.origin_z && (z as u64) < (self.origin_z as u64) + (self.size_z as u64)
    }

    /// The region covering a whole grid, for full-model edits.
    pub fn full(grid: &VoxelGrid) -> (r: VoxelRegion)
        ensures
            r.origin_x == 0 && r.origin_y == 0 && r.origin_z == 0,
            r.size_x == grid.size_x && r.size_y == grid.size_y && r.size_z == grid.size_z,
    {
        VoxelRegion {
            origin_x: 0,
            origin_y: 0,
            origin_z: 0,
            size_x: grid.size_x,
            size_y: grid.size_y,
            size_z: grid.size_z,
        }
    }
}

/// The grid after an edit: every cell inside the region takes the value of
/// the edit function on the pre-edit cell; every other cell is unchanged.
pub open spec fn apply_edit(
    g: GridView,
    region: VoxelRegion,
    f: spec_fn(int, int, int, u8) -> u8,
) -> GridView {
    GridView {
        cells: Seq::new(
            g.cells.len(),
            |k: int|
                {
                    let (x, y, z) = g.coords_of(k);
                    if region.contains(x, y, z) {
                        f(x, y, z, g.cells[k])
                    } else {
                        g.cells[k]
                    }
                },
        ),
        ..g
    }
}

/// Region edits are idempotent for edit functions that are themselves
/// idempotent on a cell value: applying the same edit twice (without an
/// intervening edit) leaves the grid, and therefore the remeshed mesh, as
/// after the first application.
pub proof fn lemma_edit_idempotent(
    g: GridView,
    region: VoxelRegion,
    f: spec_fn(int, int, int, u8) -> u8,
    v_flip: bool,
)
    requires
        forall|x: int, y: int, z: int, v: u8| #[trigger] f(x, y, z, f(x, y, z, v)) == f(x, y, z, v),
    ensures
        apply_edit(apply_edit(g, region, f), region, f) == apply_edit(g, region, f),
        mesh_spec(apply_edit(apply_edit(g, region, f), region, f), v_flip) == mesh_spec(
            apply_edit(g, region, f),
            v_flip,
        ),
{
    let g1 = apply_edit(g, region, f);
    let g2 = apply_edit(g1, region, f);
    assert forall|k: int| 0 <= k < g.cells.len() implies g2.cells[k] == g1.cells[k] by {
        let (x, y, z) = g.coords_of(k);
        assert(g1.coords_of(k) == g.coords_of(k));
        if region.contains(x, y, z) {
            assert(g1.cells[k] == f(x, y, z, g.cells[k]));
            assert(g2.cells[k] == f(x, y, z, f(x, y, z, g.cells[k])));
        }
    }
    assert(g2.cells =~= g1.cells);
    assert(g2 =~= g1);
}

/// A loaded model: its voxel grid, the mesh generated from it, the flip
/// setting the mesh was generated with, the per-model refraction index
/// (present exactly when the model has a translucent visible voxel, which
/// selects the translucent material variant), and the model's resolved
/// name.
pub struct VoxelModel {
    pub name: String,
    pub data: VoxelGrid,
    pub mesh: MeshData,
    pub v_flip: bool,
    pub ior: Option<u32>,
}

impl VoxelModel {
    /// The model invariant: a well-formed grid whose mesh is exactly the
    /// grid's greedy mesh.
    pub open spec fn wf(self) -> bool {
        &&& self.data.wf()
        &&& self.mesh@ == mesh_spec(self.data@, self.v_flip)
    }

    /// Whether this model selects the translucent material variant.
    pub fn is_translucent(&self) -> (r: bool)
        ensures
            r == (self.ior is Some),
    {
        match self.ior {
            Some(_) => true,
            None => false,
        }
    }
}

/// Applies an edit function to every coordinate of the region that lies in
/// the model's grid, then remeshes and refreshes the model's translucency
/// classification against the given palette lookup. The function reads the
/// pre-edit grid only: writes are buffered and committed after the whole
/// region has been evaluated. A region with a zero extent on any axis is a
/// silent no-op. The model's name and flip setting are preserved.
pub fn edit_region<F: Fn(u32, u32, u32, Voxel, &VoxelGrid) -> Voxel>(
    model: &mut VoxelModel,
    region: &VoxelRegion,
    f: &F,
    ior_for_voxel: &HashMap<u8, u32>,
)
    requires
        old(model).wf(),
        forall|x: u32, y: u32, z: u32|
            region.contains(x as int, y as int, z as int) && old(model).data@.in_bounds(
                x as int,
                y as int,
                z as int,
            ) ==> f.requires(
                (
                    x,
                    y,
                    z,
                    Voxel(old(model).data@.at(x as int, y as int, z as int)),
                    &old(model).data,
                ),
            ),
    ensures
        final(model).wf(),
        final(model).name == old(model).name,
        final(model).v_flip == old(model).v_flip,
        !region.valid() ==> *final(model) == *old(model),
        region.valid() ==> {
            let pre = old(model).data@;
            let post = final(model).data@;
            &&& post.size_x == pre.size_x
            &&& post.size_y == pre.size_y
            &&& post.size_z == pre.size_z
            &&& post.outer == pre.outer
            &&& forall|x: int, y: int, z: int| pre.in_bounds(x, y, z) ==> if region.contains(
                x,
                y,
                z,
            ) {
                exists|nv: Voxel|
                    #[trigger] f.ensures(
                        (x as u32, y as u32, z as u32, Voxel(pre.at(x, y, z)), &old(model).data),
                        nv,
                    ) && post.at(x, y, z) == nv.0
            } else {
                post.at(x, y, z) == pre.at(x, y, z)
            }
            &&& final(model).mesh@ == mesh_spec(post, old(model).v_flip)
            &&& final(model).ior == model_ior(visible_list(post), ior_for_voxel@)
            &&& forall|fs: spec_fn(int, int, int, u8) -> u8|
                (forall|x: u32, y: u32, z: u32, v: Voxel, rv: Voxel| #[trigger] f.ensures(
                    (x, y, z, v, &old(model).data),
                    rv,
                ) ==> rv.0 == fs(x as int, y as int, z as int, v.0)) ==> post == apply_edit(
                    pre,
                    *region,
                    fs,
                )
        },
{
    if region.size_x == 0 || region.size_y == 0 || region.size_z == 0 {
        return ;
    }
    let ghost pre = model.data@;
    let sx = model.data.size_x as usize;
    let sy = model.data.size_y as usize;
    let sz = model.data.size_z as usize;
    proof {
        assert((sx as int) * (sy as int) <= 0x10000 && (sx as int) * (sy as int) * (sz as int)
            <= 0x1000000) by (nonlinear_arith)
            requires
                0 <= sx <= 256,
                0 <= sy <= 256,
                0 <= sz <= 256,
        ;
    }
    let total = sx * sy * sz;
    let mut new_cells: Vec<u8> = Vec::new();
    let ghost mut wit: Seq<Voxel> = Seq::empty();
    let ghost mut args: Seq<(u32, u32, u32)> = Seq::empty();
    let mut k: usize = 0;
    while k < total
        invariant
            model.data.wf(),
            model.data@ == pre,
            *model == *old(model),
            sx == pre.size_x && sy == pre.size_y && sz == pre.size_z,
            total == pre.cells.len(),
            total == sx * sy * sz,
            k <= total,
            new_cells@.len() == k,
            wit.len() == k,
            args.len() == k,
            forall|x: u32, y: u32, z: u32|
                region.contains(x as int, y as int, z as int) && pre.in_bounds(
                    x as int,
                    y as int,
                    z as int,
                ) ==> f.requires(
                    (x, y, z, Voxel(pre.at(x as int, y as int, z as int)), &old(model).data),
                ),
            forall|j: int| #![trigger args[j]] 0 <= j < k ==> {
                let (x, y, z) = args[j];
                &&& (x as int, y as int, z as int) == pre.coords_of(j)
                &&& if region.contains(x as int, y as int, z as int) {
                    f.ensures(
                        (x, y, z, Voxel(pre.cells[j]), &old(model).data),
                        wit[j],
                    ) && new_cells@[j] == wit[j].0
                } else {
                    new_cells@[j] == pre.cells[j]
                }
            },
        decreases total - k,
    {
        proof {
            lemma_coords_of(pre, k as int);
            assert((sx as int) * (sy as int) > 0 && (sx as int) * (sy as int) <= 0x10000)
                by (nonlinear_arith)
                requires
                    1 <= sx <= 256,
                    1 <= sy <= 256,
            ;
        }
        let x = (k % sx) as u32;
        let y = ((k / sx) % sy) as u32;
        let z = (k / (sx * sy)) as u32;
        let old_v = model.data.get(x, y, z);
        proof {
            assert(pre.coords_of(k as int) == (x as int, y as int, z as int));
            assert(pre.at(x as int, y as int, z as int) == pre.cells[k as int]);
            args = args.push((x, y, z));
        }
        let nv: u8;
        if region.contains_exec(x, y, z) {
            let res = f(x, y, z, Voxel(old_v), &model.data);
            proof {
                assert(f.ensures((x, y, z, Voxel(old_v), &model.data), res));
                wit = wit.push(res);
            }
            nv = res.0;
        } else {
            proof {
                wit = wit.push(Voxel(0));
            }
            nv = old_v;
        }
        new_cells.push(nv);
        k += 1;
    }
    model.data.voxels = new_cells;
    proof {
        assert(model.data@.wf());
        assert forall|x: int, y: int, z: int| pre.in_bounds(x, y, z) implies {
            let post = model.data@;
            if region.contains(x, y, z) {
                exists|nv: Voxel|
                    #[trigger] f.ensures(
                        (x as u32, y as u32, z as u32, Voxel(pre.at(x, y, z)), &old(model).data),
                        nv,
                    ) && post.at(x, y, z) == nv.0
            } else {
                post.at(x, y, z) == pre.at(x, y, z)
            }
        } by {
            crate::voxel::lemma_idx_bounds(pre, x, y, z);
            let j = pre.idx(x, y, z);
            assert(pre.coords_of(j) == (x, y, z));
            assert(model.data@.at(x, y, z) == model.data@.cells[j]);
            let (ax, ay, az) = args[j];
            assert((ax as int, ay as int, az as int) == (x, y, z));
            if region.contains(x, y, z) {
                assert(f.ensures(
                    (ax, ay, az, Voxel(pre.cells[j]), &old(model).data),
                    wit[j],
                ) && model.data@.cells[j] == wit[j].0);
                assert(ax == x as u32 && ay == y as u32 && az == z as u32);
            }
        }
        let post = model.data@;
        assert forall|fs: spec_fn(int, int, int, u8) -> u8|
            (forall|x: u32, y: u32, z: u32, v: Voxel, rv: Voxel| #[trigger] f.ensures(
                (x, y, z, v, &old(model).data),
                rv,
            ) ==> rv.0 == fs(x as int, y as int, z as int, v.0)) implies post == apply_edit(
            pre,
            *region,
            fs,
        ) by {
            let edited = apply_edit(pre, *region, fs);
            assert forall|j: int| 0 <= j < pre.cells.len() implies post.cells[j]
                == edited.cells[j] by {
                lemma_coords_of(pre, j);
                let (x, y, z) = pre.coords_of(j);
                let (ax, ay, az) = args[j];
                assert((ax as int, ay as int, az as int) == (x, y, z));
                if region.contains(x, y, z) {
                    assert(f.ensures(
                        (ax, ay, az, Voxel(pre.cells[j]), &old(model).data),
                        wit[j],
                    ) && post.cells[j] == wit[j].0);
                    assert(wit[j].0 == fs(ax as int, ay as int, az as int, pre.cells[j]));
                }
            }
            assert(post.cells =~= edited.cells);
            assert(post =~= edited);
        }
    }
    model.mesh = mesh_model(&model.data, model.v_flip);
    let (_visible, ior) = model.data.visible_voxels(ior_for_voxel);
    model.ior = ior;
}

} // verus!
