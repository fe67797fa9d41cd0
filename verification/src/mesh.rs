//! Greedy surface mesher: converts the visible voxel faces of a grid into a
//! quad-merged surface mesh. For each of the six face orientations and each
//! slice along its normal axis, visible faces form a two-dimensional mask;
//! same-material runs are merged greedily along both in-plane axes, and the
//! resulting quads are emitted as interleaved mesh attributes. Input voxel
//! coordinates use the source's left-handed Z-up convention; emitted
//! positions and normals are remapped to a right-handed Y-up convention
//! (X unchanged, Y from source Z, Z from negated source Y).

use vstd::prelude::*;
use vstd::arithmetic::div_mod::{
    lemma_fundamental_div_mod, lemma_fundamental_div_mod_converse, lemma_mod_bound,
    lemma_multiply_divide_lt,
};
use crate::voxel::{face_visible, FaceDir, GridView, VoxelGrid};

verus! {

/// An integer point or vector in mesh space.
#[derive(Clone, Copy, PartialEq, Eq, Structural, Debug)]
pub struct Vec3i {
    pub x: i32,
    pub y: i32,
    pub z: i32,
}

/// An integer texture coordinate, in quad-local units.
#[derive(Clone, Copy, PartialEq, Eq, Structural, Debug)]
pub struct Vec2u {
    pub u: u32,
    pub v: u32,
}

/// A merged in-plane rectangle of same-material visible faces.
#[derive(Clone, Copy, PartialEq, Eq, Structural, Debug)]
pub struct QuadRect {
    pub u: u32,
    pub v: u32,
    pub w: u32,
    pub h: u32,
    /// The (non-zero) grid cell value shared by the merged faces.
    pub material: u8,
}

/// A merged rectangle with its face orientation and slice position.
#[derive(Clone, Copy, PartialEq, Eq, Structural, Debug)]
pub struct OrientedQuad {
    pub dir: FaceDir,
    pub slice: u32,
    pub rect: QuadRect,
}

/// The source-to-target coordinate remap: left-handed Z-up to right-handed
/// Y-up. X is unchanged, Y comes from source Z, Z from negated source Y.
pub open spec fn remap_spec(p: (int, int, int)) -> (int, int, int) {
    (p.0, p.2, -p.1)
}

/// The inverse coordinate remap: right-handed Y-up back to left-handed
/// Z-up. X is unchanged, Y from negated target Z, Z from target Y.
pub open spec fn remap_inverse_spec(p: (int, int, int)) -> (int, int, int) {
    (p.0, -p.2, p.1)
}

/// The coordinate remap is a pure bijection: the inverse remap undoes the
/// remap, and the remap undoes the inverse, on every coordinate.
pub proof fn lemma_remap_bijection(p: (int, int, int))
    ensures
        remap_inverse_spec(remap_spec(p)) == p,
        remap_spec(remap_inverse_spec(p)) == p,
{
}

/// The source-to-target coordinate remap on machine integers.
pub fn remap(x: i32, y: i32, z: i32) -> (r: Vec3i)
    requires
        y != i32::MIN,
    ensures
        (r.x as int, r.y as int, r.z as int) == remap_spec((x as int, y as int, z as int)),
{
    Vec3i { x, y: z, z: -y }
}

/// The inverse coordinate remap on machine integers.
pub fn remap_inverse(x: i32, y: i32, z: i32) -> (r: Vec3i)
    requires
        z != i32::MIN,
    ensures
        (r.x as int, r.y as int, r.z as int) == remap_inverse_spec((x as int, y as int, z as int)),
{
    Vec3i { x, y: -z, z: y }
}

/// The in-plane extents (width, height) of a face orientation's slices.
pub open spec fn plane_dims(g: GridView, d: FaceDir) -> (int, int) {
    match d {
        FaceDir::XNeg | FaceDir::XPos => (g.size_y, g.size_z),
        FaceDir::YNeg | FaceDir::YPos => (g.size_x, g.size_z),
        FaceDir::ZNeg | FaceDir::ZPos => (g.size_x, g.size_y),
    }
}

/// The number of slices along a face orientation's normal axis.
pub open spec fn slices_count(g: GridView, d: FaceDir) -> int {
    match d {
        FaceDir::XNeg | FaceDir::XPos => g.size_x,
        FaceDir::YNeg | FaceDir::YPos => g.size_y,
        FaceDir::ZNeg | FaceDir::ZPos => g.size_z,
    }
}

/// The grid cell addressed by a slice index and in-plane coordinates.
pub open spec fn cell_of(d: FaceDir, k: int, u: int, v: int) -> (int, int, int) {
    match d {
        FaceDir::XNeg | FaceDir::XPos => (k, u, v),
        FaceDir::YNeg | FaceDir::YPos => (u, k, v),
        FaceDir::ZNeg | FaceDir::ZPos => (u, v, k),
    }
}

/// The mask value of one slice cell: the cell's value when its face in
/// direction `d` is visible, and 0 otherwise.
pub open spec fn mask_at(g: GridView, d: FaceDir, k: int, u: int, v: int) -> u8 {
    let (x, y, z) = cell_of(d, k, u, v);
    if face_visible(g, x, y, z, d) {
        g.at(x, y, z)
    } else {
        0u8
    }
}

/// The visibility mask of one slice, in row-major in-plane order.
pub open spec fn mask_seq(g: GridView, d: FaceDir, k: int) -> Seq<u8> {
    let (w, h) = plane_dims(g, d);
    Seq::new((w * h) as nat, |p: int| mask_at(g, d, k, p % w, p / w))
}

/// The length of the same-material unused run rightwards from `(u, v)`.
pub open spec fn run_w(mask: Seq<u8>, wd: int, used: Set<int>, u: int, v: int, m: u8) -> int
    decreases wd - u when u <= wd
{
    if u >= wd || mask[u + v * wd] != m || used.contains(u + v * wd) {
        0
    } else {
        1 + run_w(mask, wd, used, u + 1, v, m)
    }
}

/// Whether the whole span `[u0, u0 + w)` of row `v` carries material `m`
/// and is unused.
pub open spec fn row_match(mask: Seq<u8>, wd: int, used: Set<int>, u0: int, w: int, v: int, m: u8) -> bool {
    run_w(mask, wd, used, u0, v, m) >= w
}

/// The number of consecutive rows from `v` down that match the span.
pub open spec fn run_h(
    mask: Seq<u8>,
    wd: int,
    ht: int,
    used: Set<int>,
    u0: int,
    w: int,
    v: int,
    m: u8,
) -> int
    decreases ht - v when v <= ht
{
    if v >= ht || !row_match(mask, wd, used, u0, w, v, m) {
        0
    } else {
        1 + run_h(mask, wd, ht, used, u0, w, v + 1, m)
    }
}

/// The in-plane cell indices covered by a rectangle.
pub open spec fn rect_cells(wd: int, u0: int, v0: int, w: int, h: int) -> Set<int> {
    Set::new(|p: int| 0 <= p && u0 <= p % wd < u0 + w && v0 <= p / wd < v0 + h)
}

/// Greedy rectangle decomposition of a mask, scanning cells in row-major
/// order from linear index `p`: the first unused non-empty cell starts a
/// rectangle, extended rightwards as far as the material run allows and
/// then downwards while whole rows match.
pub open spec fn greedy_from(mask: Seq<u8>, wd: int, ht: int, used: Set<int>, p: int) -> Seq<
    QuadRect,
>
    decreases wd * ht - p when 0 <= p
{
    if p >= wd * ht {
        Seq::empty()
    } else if mask[p] == 0 || used.contains(p) {
        greedy_from(mask, wd, ht, used, p + 1)
    } else {
        let u0 = p % wd;
        let v0 = p / wd;
        let m = mask[p];
        let w = run_w(mask, wd, used, u0, v0, m);
        let h = 1 + run_h(mask, wd, ht, used, u0, w, v0 + 1, m);
        seq![
            QuadRect { u: u0 as u32, v: v0 as u32, w: w as u32, h: h as u32, material: m },
        ] + greedy_from(mask, wd, ht, used.union(rect_cells(wd, u0, v0, w, h)), p + 1)
    }
}

/// Greedy rectangle decomposition of a whole mask.
pub open spec fn greedy_rects(mask: Seq<u8>, wd: int, ht: int) -> Seq<QuadRect> {
    greedy_from(mask, wd, ht, Set::empty(), 0)
}

/// The rightward run never reaches past the mask width.
pub proof fn lemma_run_w_le(mask: Seq<u8>, wd: int, used: Set<int>, u: int, v: int, m: u8)
    requires
        0 <= u <= wd,
    ensures
        0 <= run_w(mask, wd, used, u, v, m) <= wd - u,
    decreases wd - u,
{
    if u < wd && mask[u + v * wd] == m && !used.contains(u + v * wd) {
        lemma_run_w_le(mask, wd, used, u + 1, v, m);
    }
}

/// The downward run never reaches past the mask height.
pub proof fn lemma_run_h_le(
    mask: Seq<u8>,
    wd: int,
    ht: int,
    used: Set<int>,
    u0: int,
    w: int,
    v: int,
    m: u8,
)
    requires
        0 <= v <= ht,
    ensures
        0 <= run_h(mask, wd, ht, used, u0, w, v, m) <= ht - v,
    decreases ht - v,
{
    if v < ht && row_match(mask, wd, used, u0, w, v, m) {
        lemma_run_h_le(mask, wd, ht, used, u0, w, v + 1, m);
    }
}

/// Whether a rectangle lies inside a mask of the given extents, with
/// positive extents of its own and a non-zero material.
pub open spec fn rect_in_bounds(r: QuadRect, wd: int, ht: int) -> bool {
    &&& r.u + r.w <= wd
    &&& r.v + r.h <= ht
    &&& r.w >= 1
    &&& r.h >= 1
    &&& r.material != 0
}

/// Every rectangle the greedy scan emits lies inside the mask, has positive
/// extents and a non-zero material; and at most one rectangle is emitted
/// per remaining cell.
pub proof fn lemma_greedy_from_bounds(mask: Seq<u8>, wd: int, ht: int, used: Set<int>, p: int)
    requires
        0 <= p,
        0 <= wd <= 256,
        0 <= ht <= 256,
    ensures
        greedy_from(mask, wd, ht, used, p).len() <= if wd * ht - p >= 0 {
            wd * ht - p
        } else {
            0
        },
        forall|j: int| 0 <= j < greedy_from(mask, wd, ht, used, p).len() ==> rect_in_bounds(
            #[trigger] greedy_from(mask, wd, ht, used, p)[j],
            wd,
            ht,
        ),
    decreases wd * ht - p,
{
    if p >= wd * ht {
    } else if mask[p] == 0 || used.contains(p) {
        lemma_greedy_from_bounds(mask, wd, ht, used, p + 1);
    } else {
        let u0 = p % wd;
        let v0 = p / wd;
        let m = mask[p];
        assert(wd > 0 && ht > 0) by (nonlinear_arith)
            requires
                0 <= p < wd * ht,
                wd >= 0,
                ht >= 0,
        ;
        lemma_mod_bound(p, wd);
        lemma_multiply_divide_lt(p, wd, ht);
        vstd::arithmetic::div_mod::lemma_div_pos_is_pos(p, wd);
        lemma_fundamental_div_mod(p, wd);
        assert(wd * v0 == v0 * wd) by (nonlinear_arith);
        assert(u0 + v0 * wd == p);
        let w = run_w(mask, wd, used, u0, v0, m);
        lemma_run_w_le(mask, wd, used, u0, v0, m);
        lemma_run_w_le(mask, wd, used, u0 + 1, v0, m);
        assert(run_w(mask, wd, used, u0, v0, m) >= 1);
        let h = 1 + run_h(mask, wd, ht, used, u0, w, v0 + 1, m);
        lemma_run_h_le(mask, wd, ht, used, u0, w, v0 + 1, m);
        lemma_greedy_from_bounds(mask, wd, ht, used.union(rect_cells(wd, u0, v0, w, h)), p + 1);
        let rest = greedy_from(mask, wd, ht, used.union(rect_cells(wd, u0, v0, w, h)), p + 1);
        let whole = greedy_from(mask, wd, ht, used, p);
        assert(rect_in_bounds(whole[0], wd, ht));
        assert(forall|j: int| 1 <= j < whole.len() ==> #[trigger] whole[j] == rest[j - 1]);
    }
}

/// The set of used in-plane cells recorded by a boolean vector.
pub open spec fn used_set(s: Seq<bool>) -> Set<int> {
    Set::new(|p: int| 0 <= p < s.len() && s[p])
}

/// The length of the same-material unused run rightwards from `(u0, v)`.
fn run_w_exec(mask: &Vec<u8>, wd: usize, used: &Vec<bool>, u0: usize, v: usize, m: u8) -> (r:
    usize)
    requires
        used@.len() == mask@.len(),
        wd >= 1,
        u0 < wd,
        (v + 1) * wd <= mask@.len(),
    ensures
        r == run_w(mask@, wd as int, used_set(used@), u0 as int, v as int, m),
        r <= wd - u0,
{
    proof {
        lemma_run_w_le(mask@, wd as int, used_set(used@), u0 as int, v as int, m);
        assert(v * wd + wd == (v + 1) * wd) by (nonlinear_arith);
        assert(mask@.len() <= usize::MAX) by {
            assert(mask.len() == mask@.len());
        }
    }
    let mut u = u0;
    while u < wd && mask[u + v * wd] == m && !used[u + v * wd]
        invariant
            used@.len() == mask@.len(),
            mask@.len() <= usize::MAX,
            wd >= 1,
            u0 <= u <= wd,
            v * wd + wd <= mask@.len(),
            run_w(mask@, wd as int, used_set(used@), u0 as int, v as int, m) == (u - u0) + run_w(
                mask@,
                wd as int,
                used_set(used@),
                u as int,
                v as int,
                m,
            ),
        decreases wd - u,
    {
        u += 1;
    }
    proof {
        assert(run_w(mask@, wd as int, used_set(used@), u as int, v as int, m) == 0);
        lemma_run_w_le(mask@, wd as int, used_set(used@), u0 as int, v as int, m);
    }
    u - u0
}

/// Whether the whole span `[u0, u0 + w)` of row `v` carries material `m`
/// and is unused.
fn row_match_exec(
    mask: &Vec<u8>,
    wd: usize,
    ht: usize,
    used: &Vec<bool>,
    u0: usize,
    w: usize,
    v: usize,
    m: u8,
) -> (r: bool)
    requires
        used@.len() == mask@.len(),
        mask@.len() == wd * ht,
        wd >= 1,
        u0 < wd,
        v < ht,
    ensures
        r == row_match(mask@, wd as int, used_set(used@), u0 as int, w as int, v as int, m),
{
    proof {
        assert((v + 1) * wd <= wd * ht) by (nonlinear_arith)
            requires
                v < ht,
                wd >= 1,
        ;
    }
    let rw = run_w_exec(mask, wd, used, u0, v, m);
    rw >= w
}

/// Whether an in-plane cell index lies in the fully marked rows of a
/// rectangle being filled.
pub open spec fn in_rect_rows(wd: int, u0: int, w: int, v0: int, vv: int, q: int) -> bool {
    u0 <= q % wd < u0 + w && v0 <= q / wd < vv
}

/// Whether an in-plane cell index lies in the partially marked row of a
/// rectangle being filled.
pub open spec fn in_row_span(wd: int, u0: int, uu: int, vv: int, q: int) -> bool {
    u0 <= q % wd < uu && q / wd == vv
}

/// The marking state of the used-cell vector while a rectangle is filled:
/// rows `v0..vv` are fully marked and row `vv` is marked up to `uu`.
pub open spec fn mark_state(
    orig: Seq<bool>,
    cur: Seq<bool>,
    wd: int,
    u0: int,
    w: int,
    v0: int,
    vv: int,
    uu: int,
) -> bool {
    &&& cur.len() == orig.len()
    &&& forall|q: int| 0 <= q < cur.len() ==> (#[trigger] cur[q]) == (orig[q] || in_rect_rows(
        wd,
        u0,
        w,
        v0,
        vv,
        q,
    ) || in_row_span(wd, u0, uu, vv, q))
}

/// Marks every cell of a rectangle as used.
fn mark_rect(used: &mut Vec<bool>, wd: usize, u0: usize, v0: usize, w: usize, h: usize)
    requires
        wd >= 1,
        u0 + w <= wd,
        (v0 + h) * wd <= old(used)@.len(),
        w >= 1,
    ensures
        final(used)@.len() == old(used)@.len(),
        used_set(final(used)@) == used_set(old(used)@).union(
            rect_cells(wd as int, u0 as int, v0 as int, w as int, h as int),
        ),
{
    let ghost orig = used@;
    proof {
        assert(used@.len() <= usize::MAX) by {
            assert(used.len() == used@.len());
        }
        assert(v0 + h <= (v0 + h) * wd) by (nonlinear_arith)
            requires
                wd >= 1,
                v0 >= 0,
                h >= 0,
        ;
        assert(mark_state(orig, used@, wd as int, u0 as int, w as int, v0 as int, v0 as int, u0 as int));
    }
    let mut vv = v0;
    while vv < v0 + h
        invariant
            wd >= 1,
            u0 + w <= wd,
            w >= 1,
            v0 <= vv <= v0 + h,
            used@.len() <= usize::MAX,
            v0 + h <= used@.len(),
            (v0 + h) * wd <= used@.len(),
            mark_state(orig, used@, wd as int, u0 as int, w as int, v0 as int, vv as int, u0 as int),
        decreases v0 + h - vv,
    {
        let mut uu = u0;
        while uu < u0 + w
            invariant
                wd >= 1,
                u0 + w <= wd,
                w >= 1,
                v0 <= vv < v0 + h,
                u0 <= uu <= u0 + w,
                used@.len() <= usize::MAX,
                v0 + h <= used@.len(),
                (v0 + h) * wd <= used@.len(),
                mark_state(orig, used@, wd as int, u0 as int, w as int, v0 as int, vv as int, uu as int),
            decreases u0 + w - uu,
        {
            let ghost prev = used@;
            proof {
                assert(uu + vv * wd < (vv + 1) * wd && (vv + 1) * wd <= (v0 + h) * wd)
                    by (nonlinear_arith)
                    requires
                        uu < wd,
                        wd >= 1,
                        0 <= vv < v0 + h,
                ;
                lemma_fundamental_div_mod_converse(uu + vv * wd, wd as int, vv as int, uu as int);
            }
            let idx = uu + vv * wd;
            used.set(idx, true);
            proof {
                assert forall|q: int| 0 <= q < used@.len() implies (#[trigger] used@[q]) == (orig[q]
                    || in_rect_rows(wd as int, u0 as int, w as int, v0 as int, vv as int, q)
                    || in_row_span(wd as int, u0 as int, uu + 1, vv as int, q)) by {
                    if q == idx {
                        assert(used@[q]);
                        assert(in_row_span(wd as int, u0 as int, uu + 1, vv as int, q));
                    } else {
                        assert(used@[q] == prev[q]);
                        if q % (wd as int) == uu && q / (wd as int) == vv {
                            lemma_fundamental_div_mod(q, wd as int);
                            assert(q == (wd as int) * (q / (wd as int)) + q % (wd as int));
                            assert((wd as int) * (vv as int) == (vv as int) * (wd as int))
                                by (nonlinear_arith);
                            assert(q == idx);
                        }
                    }
                }
                assert(mark_state(orig, used@, wd as int, u0 as int, w as int, v0 as int, vv as int, uu + 1));
            }
            uu += 1;
        }
        proof {
            assert forall|q: int| 0 <= q < used@.len() implies (#[trigger] used@[q]) == (orig[q]
                || in_rect_rows(wd as int, u0 as int, w as int, v0 as int, vv + 1, q)
                || in_row_span(wd as int, u0 as int, u0 as int, vv + 1, q)) by {
            }
            assert(mark_state(orig, used@, wd as int, u0 as int, w as int, v0 as int, vv + 1, u0 as int));
        }
        vv += 1;
    }
    proof {
        assert forall|q: int| used_set(used@).contains(q) <==> #[trigger] (used_set(orig).union(
            rect_cells(wd as int, u0 as int, v0 as int, w as int, h as int),
        )).contains(q) by {
            if 0 <= q && u0 <= q % (wd as int) < u0 + w && v0 <= q / (wd as int) < v0 + h {
                lemma_fundamental_div_mod(q, wd as int);
                assert(q < (v0 + h) * (wd as int)) by (nonlinear_arith)
                    requires
                        q >= 0,
                        wd >= 1,
                        q == (wd as int) * (q / (wd as int)) + q % (wd as int),
                        q % (wd as int) < wd,
                        q / (wd as int) < v0 + h,
                ;
            }
        }
        assert(used_set(used@) =~= used_set(orig).union(
            rect_cells(wd as int, u0 as int, v0 as int, w as int, h as int),
        ));
    }
}

/// Greedy rectangle decomposition of one slice mask.
pub fn greedy_rects_exec(mask: &Vec<u8>, wd: usize, ht: usize) -> (r: Vec<QuadRect>)
    requires
        mask@.len() == wd * ht,
        wd <= 256,
        ht <= 256,
    ensures
        r@ == greedy_rects(mask@, wd as int, ht as int),
{
    let total = mask.len();
    let mut used: Vec<bool> = Vec::new();
    let mut i: usize = 0;
    while i < total
        invariant
            i <= total,
            used@.len() == i,
            forall|j: int| 0 <= j < i ==> !used@[j],
        decreases total - i,
    {
        used.push(false);
        i += 1;
    }
    proof {
        assert(used_set(used@) =~= Set::empty());
    }
    let mut out: Vec<QuadRect> = Vec::new();
    let mut p: usize = 0;
    while p < total
        invariant
            mask@.len() == wd * ht,
            mask@.len() == total,
            used@.len() == total,
            wd <= 256,
            ht <= 256,
            p <= total,
            out@ + greedy_from(mask@, wd as int, ht as int, used_set(used@), p as int)
                =~= greedy_rects(mask@, wd as int, ht as int),
        decreases total - p,
    {
        if mask[p] != 0 && !used[p] {
            proof {
                assert(wd >= 1 && ht >= 1) by (nonlinear_arith)
                    requires
                        (p as int) < (wd as int) * (ht as int),
                        p >= 0,
                        wd >= 0,
                        ht >= 0,
                ;
                lemma_fundamental_div_mod(p as int, wd as int);
                lemma_mod_bound(p as int, wd as int);
                lemma_multiply_divide_lt(p as int, wd as int, ht as int);
                vstd::arithmetic::div_mod::lemma_div_pos_is_pos(p as int, wd as int);
            }
            let u0 = p % wd;
            let v0 = p / wd;
            let m = mask[p];
            proof {
                assert((v0 + 1) * wd <= wd * ht) by (nonlinear_arith)
                    requires
                        (v0 as int) < ht,
                        wd >= 1,
                ;
            }
            let w = run_w_exec(mask, wd, &used, u0, v0, m);
            let mut h: usize = 1;
            while v0 + h < ht && row_match_exec(mask, wd, ht, &used, u0, w, v0 + h, m)
                invariant
                    mask@.len() == wd * ht,
                    used@.len() == mask@.len(),
                    wd >= 1,
                    ht >= 1,
                    u0 < wd,
                    v0 < ht,
                    1 <= h,
                    v0 + h <= ht,
                    run_h(
                        mask@,
                        wd as int,
                        ht as int,
                        used_set(used@),
                        u0 as int,
                        w as int,
                        v0 + 1,
                        m,
                    ) == (h - 1) + run_h(
                        mask@,
                        wd as int,
                        ht as int,
                        used_set(used@),
                        u0 as int,
                        w as int,
                        v0 + h,
                        m,
                    ),
                decreases ht - (v0 + h),
            {
                h += 1;
            }
            proof {
                assert(run_h(
                    mask@,
                    wd as int,
                    ht as int,
                    used_set(used@),
                    u0 as int,
                    w as int,
                    (v0 + h) as int,
                    m,
                ) == 0);
            }
            let rect = QuadRect {
                u: u0 as u32,
                v: v0 as u32,
                w: w as u32,
                h: h as u32,
                material: m,
            };
            let ghost pre_used = used@;
            proof {
                lemma_run_w_le(mask@, wd as int, used_set(used@), u0 as int, v0 as int, m);
                lemma_run_w_le(mask@, wd as int, used_set(used@), u0 + 1, v0 as int, m);
                assert((wd as int) * (v0 as int) == (v0 as int) * (wd as int)) by (nonlinear_arith);
                assert(u0 + v0 * (wd as int) == p as int);
                assert(mask@[u0 + v0 * (wd as int)] == m);
                assert(!used_set(used@).contains(p as int));
                assert(run_w(mask@, wd as int, used_set(used@), u0 as int, v0 as int, m) >= 1);
                assert(w >= 1);
                assert((v0 + h) * wd <= wd * ht) by (nonlinear_arith)
                    requires
                        v0 + h <= ht,
                        wd >= 1,
                ;
            }
            mark_rect(&mut used, wd, u0, v0, w, h);
            out.push(rect);
            proof {
                let g0 = greedy_from(mask@, wd as int, ht as int, used_set(pre_used), p as int);
                assert(g0 == seq![rect] + greedy_from(
                    mask@,
                    wd as int,
                    ht as int,
                    used_set(pre_used).union(
                        rect_cells(wd as int, u0 as int, v0 as int, w as int, h as int),
                    ),
                    p + 1,
                ));
            }
        }
        p += 1;
    }
    proof {
        assert(out@ =~= greedy_rects(mask@, wd as int, ht as int));
    }
    out
}


/// Builds the visibility mask of one slice, in row-major in-plane order.
pub fn build_mask(grid: &VoxelGrid, d: FaceDir, k: u32) -> (r: Vec<u8>)
    requires
        grid.wf(),
        (k as int) < slices_count(grid@, d),
    ensures
        r@ == mask_seq(grid@, d, k as int),
{
    let ghost g = grid@;
    let (w32, h32) = plane_dims_exec(grid, d);
    let wd = w32 as usize;
    let ht = h32 as usize;
    proof {
        assert((wd as int) * (ht as int) <= 65536) by (nonlinear_arith)
            requires
                0 <= wd <= 256,
                0 <= ht <= 256,
        ;
    }
    let total = wd * ht;
    let mut r: Vec<u8> = Vec::new();
    let mut p: usize = 0;
    while p < total
        invariant
            grid.wf(),
            g == grid@,
            (wd as int, ht as int) == plane_dims(g, d),
            wd <= 256,
            ht <= 256,
            (k as int) < slices_count(g, d),
            total == wd * ht,
            p <= total,
            r@.len() == p,
            forall|j: int| 0 <= j < p ==> r@[j] == mask_seq(g, d, k as int)[j],
        decreases total - p,
    {
        proof {
            assert(wd >= 1 && ht >= 1) by (nonlinear_arith)
                requires
                    (p as int) < (wd as int) * (ht as int),
                    p >= 0,
                    wd >= 0,
                    ht >= 0,
            ;
            lemma_mod_bound(p as int, wd as int);
            lemma_multiply_divide_lt(p as int, wd as int, ht as int);
            vstd::arithmetic::div_mod::lemma_div_pos_is_pos(p as int, wd as int);
        }
        let u = (p % wd) as u32;
        let v = (p / wd) as u32;
        let (cx, cy, cz): (u32, u32, u32) = match d {
            FaceDir::XNeg | FaceDir::XPos => (k, u, v),
            FaceDir::YNeg | FaceDir::YPos => (u, k, v),
            FaceDir::ZNeg | FaceDir::ZPos => (u, v, k),
        };
        proof {
            assert((cx as int, cy as int, cz as int) == cell_of(d, k as int, u as int, v as int));
            assert(slices_count(g, d) <= 256);
        }
        let val = if grid.face_visible_at(cx, cy, cz, d) {
            grid.get(cx, cy, cz)
        } else {
            0
        };
        proof {
            assert(val == mask_at(g, d, k as int, u as int, v as int));
            assert(mask_seq(g, d, k as int)[p as int] == mask_at(
                g,
                d,
                k as int,
                (p as int) % (wd as int),
                (p as int) / (wd as int),
            ));
        }
        r.push(val);
        p += 1;
    }
    proof {
        assert(r@ =~= mask_seq(g, d, k as int));
    }
    r
}

/// The in-plane extents (width, height) of a face orientation's slices.
pub fn plane_dims_exec(grid: &VoxelGrid, d: FaceDir) -> (r: (u32, u32))
    ensures
        (r.0 as int, r.1 as int) == plane_dims(grid@, d),
{
    match d {
        FaceDir::XNeg | FaceDir::XPos => (grid.size_y, grid.size_z),
        FaceDir::YNeg | FaceDir::YPos => (grid.size_x, grid.size_z),
        FaceDir::ZNeg | FaceDir::ZPos => (grid.size_x, grid.size_y),
    }
}

/// The number of slices along a face orientation's normal axis.
pub fn slices_count_exec(grid: &VoxelGrid, d: FaceDir) -> (r: u32)
    ensures
        r as int == slices_count(grid@, d),
{
    match d {
        FaceDir::XNeg | FaceDir::XPos => grid.size_x,
        FaceDir::YNeg | FaceDir::YPos => grid.size_y,
        FaceDir::ZNeg | FaceDir::ZPos => grid.size_z,
    }
}

/// The face orientations, in emission order.
pub open spec fn dir_of_index(i: int) -> FaceDir {
    if i == 0 {
        FaceDir::XNeg
    } else if i == 1 {
        FaceDir::XPos
    } else if i == 2 {
        FaceDir::YNeg
    } else if i == 3 {
        FaceDir::YPos
    } else if i == 4 {
        FaceDir::ZNeg
    } else {
        FaceDir::ZPos
    }
}

/// The rectangles of one slice, tagged with their orientation and slice.
pub open spec fn oriented_quads(rs: Seq<QuadRect>, d: FaceDir, k: int) -> Seq<OrientedQuad> {
    rs.map_values(|r: QuadRect| OrientedQuad { dir: d, slice: k as u32, rect: r })
}

/// The merged quads of one slice of one orientation.
pub open spec fn slice_quads(g: GridView, d: FaceDir, k: int) -> Seq<OrientedQuad> {
    let (w, h) = plane_dims(g, d);
    oriented_quads(greedy_rects(mask_seq(g, d, k), w, h), d, k)
}

/// The merged quads of one orientation, from slice `k` on.
pub open spec fn slices_from(g: GridView, d: FaceDir, k: int) -> Seq<OrientedQuad>
    decreases slices_count(g, d) - k when 0 <= k <= slices_count(g, d)
{
    if k >= slices_count(g, d) {
        Seq::empty()
    } else {
        slice_quads(g, d, k) + slices_from(g, d, k + 1)
    }
}

/// The merged quads of the orientations from index `i` on.
pub open spec fn quads_from_dir(g: GridView, i: int) -> Seq<OrientedQuad>
    decreases 6 - i when 0 <= i <= 6
{
    if i >= 6 {
        Seq::empty()
    } else if slices_count(g, dir_of_index(i)) < 0 {
        quads_from_dir(g, i + 1)
    } else {
        slices_from(g, dir_of_index(i), 0) + quads_from_dir(g, i + 1)
    }
}

/// All merged quads of a grid, over the six orientations in order.
pub open spec fn quads_of(g: GridView) -> Seq<OrientedQuad> {
    quads_from_dir(g, 0)
}

/// Whether a quad lies inside its orientation's slice extents.
pub open spec fn quad_in_bounds(q: OrientedQuad, g: GridView) -> bool {
    let (w, h) = plane_dims(g, q.dir);
    &&& rect_in_bounds(q.rect, w, h)
    &&& 0 <= q.slice < slices_count(g, q.dir)
}

/// Every quad of one orientation is in bounds, and one slice yields at most
/// one quad per cell.
pub proof fn lemma_slices_from_bounds(g: GridView, d: FaceDir, k: int)
    requires
        g.wf(),
        0 <= k <= slices_count(g, d),
    ensures
        slices_from(g, d, k).len() <= (slices_count(g, d) - k) * 65536,
        forall|j: int| 0 <= j < slices_from(g, d, k).len() ==> quad_in_bounds(
            #[trigger] slices_from(g, d, k)[j],
            g,
        ),
    decreases slices_count(g, d) - k,
{
    if k < slices_count(g, d) {
        lemma_slices_from_bounds(g, d, k + 1);
        let (w, h) = plane_dims(g, d);
        let mask = mask_seq(g, d, k);
        lemma_greedy_from_bounds(mask, w, h, Set::empty(), 0);
        assert(w * h <= 65536) by (nonlinear_arith)
            requires
                0 <= w <= 256,
                0 <= h <= 256,
        ;
        let head = slice_quads(g, d, k);
        let tail = slices_from(g, d, k + 1);
        let whole = slices_from(g, d, k);
        assert(head.len() <= 65536);
        assert(whole.len() == head.len() + tail.len());
        assert((slices_count(g, d) - k - 1) * 65536 + 65536 == (slices_count(g, d) - k) * 65536)
            by (nonlinear_arith);
        assert forall|j: int| 0 <= j < whole.len() implies quad_in_bounds(#[trigger] whole[j], g)
            by {
            if j < head.len() {
                assert(whole[j] == head[j]);
                assert(head[j].rect == greedy_rects(mask, w, h)[j]);
                assert(rect_in_bounds(greedy_rects(mask, w, h)[j], w, h));
            } else {
                assert(whole[j] == tail[j - head.len()]);
            }
        }
    }
}

/// Every quad of a grid is in bounds, and the total count is bounded.
pub proof fn lemma_quads_of_bounds(g: GridView)
    requires
        g.wf(),
    ensures
        quads_of(g).len() <= 0x600_0000,
        forall|j: int| 0 <= j < quads_of(g).len() ==> quad_in_bounds(
            #[trigger] quads_of(g)[j],
            g,
        ),
{
    lemma_quads_from_dir_bounds(g, 0);
}

/// Every quad of the orientations from index `i` on is in bounds, and the
/// count is bounded.
pub proof fn lemma_quads_from_dir_bounds(g: GridView, i: int)
    requires
        g.wf(),
        0 <= i <= 6,
    ensures
        quads_from_dir(g, i).len() <= (6 - i) * 0x100_0000,
        forall|j: int| 0 <= j < quads_from_dir(g, i).len() ==> quad_in_bounds(
            #[trigger] quads_from_dir(g, i)[j],
            g,
        ),
    decreases 6 - i,
{
    if i < 6 {
        lemma_quads_from_dir_bounds(g, i + 1);
        let d = dir_of_index(i);
        lemma_slices_from_bounds(g, d, 0);
        let head = slices_from(g, d, 0);
        let tail = quads_from_dir(g, i + 1);
        let whole = quads_from_dir(g, i);
        assert(slices_count(g, d) * 65536 <= 0x100_0000) by (nonlinear_arith)
            requires
                0 <= slices_count(g, d) <= 256,
        ;
        assert forall|j: int| 0 <= j < whole.len() implies quad_in_bounds(#[trigger] whole[j], g)
            by {
            if j < head.len() {
                assert(whole[j] == head[j]);
            } else {
                assert(whole[j] == tail[j - head.len()]);
            }
        }
    }
}

/// Collects the merged quads of every slice of every orientation.
pub fn collect_quads(grid: &VoxelGrid) -> (r: Vec<OrientedQuad>)
    requires
        grid.wf(),
    ensures
        r@ == quads_of(grid@),
{
    let ghost g = grid@;
    let mut quads: Vec<OrientedQuad> = Vec::new();
    let mut di: usize = 0;
    while di < 6
        invariant
            grid.wf(),
            g == grid@,
            di <= 6,
            quads@ + quads_from_dir(g, di as int) =~= quads_of(g),
        decreases 6 - di,
    {
        let d = match di {
            0 => FaceDir::XNeg,
            1 => FaceDir::XPos,
            2 => FaceDir::YNeg,
            3 => FaceDir::YPos,
            4 => FaceDir::ZNeg,
            _ => FaceDir::ZPos,
        };
        proof {
            assert(d == dir_of_index(di as int));
        }
        let n = slices_count_exec(grid, d);
        let mut k: u32 = 0;
        while k < n
            invariant
                grid.wf(),
                g == grid@,
                di < 6,
                d == dir_of_index(di as int),
                n as int == slices_count(g, d),
                k <= n,
                quads@ + slices_from(g, d, k as int) + quads_from_dir(g, di as int + 1)
                    =~= quads_of(g),
            decreases n - k,
        {
            let (w32, h32) = plane_dims_exec(grid, d);
            let mask = build_mask(grid, d, k);
            proof {
                assert((w32 as int) * (h32 as int) == mask_seq(g, d, k as int).len());
                assert((w32 as usize as int) * (h32 as usize as int) == (w32 as int) * (h32
                    as int));
            }
            let rects = greedy_rects_exec(&mask, w32 as usize, h32 as usize);
            let ghost pre = quads@;
            let mut j: usize = 0;
            while j < rects.len()
                invariant
                    d == dir_of_index(di as int),
                    j <= rects@.len(),
                    quads@ =~= pre + oriented_quads(rects@.take(j as int), d, k as int),
                decreases rects@.len() - j,
            {
                quads.push(OrientedQuad { dir: d, slice: k, rect: rects[j] });
                proof {
                    assert(oriented_quads(rects@.take(j + 1), d, k as int) =~= oriented_quads(
                        rects@.take(j as int),
                        d,
                        k as int,
                    ).push(OrientedQuad { dir: d, slice: k, rect: rects@[j as int] }));
                }
                j += 1;
            }
            proof {
                assert(rects@.take(rects@.len() as int) =~= rects@);
                assert(quads@ =~= pre + slice_quads(g, d, k as int));
                assert(slices_from(g, d, k as int) == slice_quads(g, d, k as int) + slices_from(
                    g,
                    d,
                    k as int + 1,
                ));
                assert(quads@ + slices_from(g, d, k as int + 1) + quads_from_dir(g, di as int + 1)
                    =~= quads_of(g));
            }
            k += 1;
        }
        di += 1;
    }
    proof {
        assert(quads@ =~= quads_of(g));
    }
    quads
}

/// The in-plane corner offsets of a rectangle, counter-clockwise from its
/// origin corner.
pub open spec fn corner_uv(r: QuadRect, c: int) -> (int, int) {
    if c == 0 {
        (r.u as int, r.v as int)
    } else if c == 1 {
        (r.u + r.w, r.v as int)
    } else if c == 2 {
        (r.u + r.w, r.v + r.h)
    } else {
        (r.u as int, r.v + r.h)
    }
}

/// One corner of a quad in source (Z-up) coordinates: positive orientations
/// lie on the far plane of their slice.
pub open spec fn corner_src(q: OrientedQuad, c: int) -> (int, int, int) {
    let (cu, cv) = corner_uv(q.rect, c);
    let k = q.slice as int;
    match q.dir {
        FaceDir::XNeg => (k, cu, cv),
        FaceDir::XPos => (k + 1, cu, cv),
        FaceDir::YNeg => (cu, k, cv),
        FaceDir::YPos => (cu, k + 1, cv),
        FaceDir::ZNeg => (cu, cv, k),
        FaceDir::ZPos => (cu, cv, k + 1),
    }
}

/// One corner of a quad in target (Y-up) coordinates.
pub open spec fn corner_target(q: OrientedQuad, c: int) -> Vec3i {
    let s = remap_spec(corner_src(q, c));
    Vec3i { x: s.0 as i32, y: s.1 as i32, z: s.2 as i32 }
}

/// The unit normal of a face orientation, in target coordinates.
pub open spec fn quad_normal(d: FaceDir) -> Vec3i {
    match d {
        FaceDir::XNeg => Vec3i { x: -1i32, y: 0i32, z: 0i32 },
        FaceDir::XPos => Vec3i { x: 1i32, y: 0i32, z: 0i32 },
        FaceDir::YNeg => Vec3i { x: 0i32, y: 0i32, z: 1i32 },
        FaceDir::YPos => Vec3i { x: 0i32, y: 0i32, z: -1i32 },
        FaceDir::ZNeg => Vec3i { x: 0i32, y: -1i32, z: 0i32 },
        FaceDir::ZPos => Vec3i { x: 0i32, y: 1i32, z: 0i32 },
    }
}

/// One corner's texture coordinate, in quad-local units, with an optional
/// vertical flip.
pub open spec fn quad_uv(r: QuadRect, v_flip: bool, c: int) -> Vec2u {
    let uu = if c == 1 || c == 2 {
        r.w
    } else {
        0u32
    };
    let vv = if c == 2 || c == 3 {
        r.h
    } else {
        0u32
    };
    Vec2u { u: uu, v: if v_flip { (r.h - vv) as u32 } else { vv } }
}

/// The two triangles of the quad at position `n` in the quad list.
pub open spec fn quad_indices(n: int) -> Seq<u32> {
    seq![
        (4 * n) as u32,
        (4 * n + 1) as u32,
        (4 * n + 2) as u32,
        (4 * n) as u32,
        (4 * n + 2) as u32,
        (4 * n + 3) as u32,
    ]
}

/// The mathematical model of a surface mesh: interleaved per-vertex
/// attributes plus triangle indices.
pub ghost struct MeshView {
    pub positions: Seq<Vec3i>,
    pub normals: Seq<Vec3i>,
    pub uvs: Seq<Vec2u>,
    pub indices: Seq<u32>,
    pub materials: Seq<u8>,
}

/// The empty mesh.
pub open spec fn empty_mesh() -> MeshView {
    MeshView {
        positions: Seq::empty(),
        normals: Seq::empty(),
        uvs: Seq::empty(),
        indices: Seq::empty(),
        materials: Seq::empty(),
    }
}

/// The mesh emitted for a quad list: four vertices and two triangles per
/// quad, with the quad's normal, texture coordinates and zero-based palette
/// element index on every vertex.
pub open spec fn mesh_of_quads(qs: Seq<OrientedQuad>, v_flip: bool) -> MeshView
    decreases qs.len(),
{
    if qs.len() == 0 {
        empty_mesh()
    } else {
        let m = mesh_of_quads(qs.drop_last(), v_flip);
        let q = qs.last();
        let n = qs.len() - 1;
        MeshView {
            positions: m.positions + Seq::new(4, |c: int| corner_target(q, c)),
            normals: m.normals + Seq::new(4, |c: int| quad_normal(q.dir)),
            uvs: m.uvs + Seq::new(4, |c: int| quad_uv(q.rect, v_flip, c)),
            indices: m.indices + quad_indices(n),
            materials: m.materials + Seq::new(4, |c: int| (q.rect.material - 1) as u8),
        }
    }
}

/// The mesh of a grid: the greedy quads of every orientation, emitted as
/// interleaved attributes.
pub open spec fn mesh_spec(g: GridView, v_flip: bool) -> MeshView {
    mesh_of_quads(quads_of(g), v_flip)
}

/// A surface mesh: interleaved per-vertex attributes plus triangle indices.
/// Four vertices and six indices per merged quad; per-vertex material
/// carries the zero-based palette element index.
pub struct MeshData {
    pub positions: Vec<Vec3i>,
    pub normals: Vec<Vec3i>,
    pub uvs: Vec<Vec2u>,
    pub indices: Vec<u32>,
    pub materials: Vec<u8>,
}

impl View for MeshData {
    type V = MeshView;

    open spec fn view(&self) -> MeshView {
        MeshView {
            positions: self.positions@,
            normals: self.normals@,
            uvs: self.uvs@,
            indices: self.indices@,
            materials: self.materials@,
        }
    }
}

/// One corner position of a quad, in target coordinates.
fn corner_exec(q: &OrientedQuad, c: usize) -> (r: Vec3i)
    requires
        c < 4,
        q.rect.u + q.rect.w <= 256,
        q.rect.v + q.rect.h <= 256,
        q.slice < 256,
    ensures
        r == corner_target(*q, c as int),
{
    let (cu, cv): (u32, u32) = if c == 0 {
        (q.rect.u, q.rect.v)
    } else if c == 1 {
        (q.rect.u + q.rect.w, q.rect.v)
    } else if c == 2 {
        (q.rect.u + q.rect.w, q.rect.v + q.rect.h)
    } else {
        (q.rect.u, q.rect.v + q.rect.h)
    };
    let k = q.slice;
    let (sx, sy, sz): (i32, i32, i32) = match q.dir {
        FaceDir::XNeg => (k as i32, cu as i32, cv as i32),
        FaceDir::XPos => (k as i32 + 1, cu as i32, cv as i32),
        FaceDir::YNeg => (cu as i32, k as i32, cv as i32),
        FaceDir::YPos => (cu as i32, k as i32 + 1, cv as i32),
        FaceDir::ZNeg => (cu as i32, cv as i32, k as i32),
        FaceDir::ZPos => (cu as i32, cv as i32, k as i32 + 1),
    };
    remap(sx, sy, sz)
}

/// The unit normal of a face orientation, in target coordinates.
fn quad_normal_exec(d: FaceDir) -> (r: Vec3i)
    ensures
        r == quad_normal(d),
{
    match d {
        FaceDir::XNeg => Vec3i { x: -1, y: 0, z: 0 },
        FaceDir::XPos => Vec3i { x: 1, y: 0, z: 0 },
        FaceDir::YNeg => Vec3i { x: 0, y: 0, z: 1 },
        FaceDir::YPos => Vec3i { x: 0, y: 0, z: -1 },
        FaceDir::ZNeg => Vec3i { x: 0, y: -1, z: 0 },
        FaceDir::ZPos => Vec3i { x: 0, y: 1, z: 0 },
    }
}

/// One corner's texture coordinate.
fn quad_uv_exec(r: &QuadRect, v_flip: bool, c: usize) -> (uv: Vec2u)
    requires
        c < 4,
    ensures
        uv == quad_uv(*r, v_flip, c as int),
{
    let uu: u32 = if c == 1 || c == 2 {
        r.w
    } else {
        0
    };
    let vv: u32 = if c == 2 || c == 3 {
        r.h
    } else {
        0
    };
    Vec2u { u: uu, v: if v_flip { r.h - vv } else { vv } }
}

/// Greedy-meshes a whole grid: emits the merged quads of every visible face
/// as interleaved mesh attributes. The result is a pure function of the
/// grid and the flip setting, so re-meshing an unmodified grid reproduces
/// the identical mesh. A grid with no visible voxel yields the empty mesh.
pub fn mesh_model(grid: &VoxelGrid, v_flip: bool) -> (r: MeshData)
    requires
        grid.wf(),
    ensures
        r@ == mesh_spec(grid@, v_flip),
{
    let ghost g = grid@;
    let quads = collect_quads(grid);
    proof {
        lemma_quads_of_bounds(g);
    }
    let mut positions: Vec<Vec3i> = Vec::new();
    let mut normals: Vec<Vec3i> = Vec::new();
    let mut uvs: Vec<Vec2u> = Vec::new();
    let mut indices: Vec<u32> = Vec::new();
    let mut materials: Vec<u8> = Vec::new();
    let mut i: usize = 0;
    while i < quads.len()
        invariant
            grid.wf(),
            g == grid@,
            quads@ == quads_of(g),
            quads@.len() <= 0x600_0000,
            forall|j: int| 0 <= j < quads@.len() ==> quad_in_bounds(#[trigger] quads@[j], g),
            i <= quads@.len(),
            positions@ == mesh_of_quads(quads@.take(i as int), v_flip).positions,
            normals@ == mesh_of_quads(quads@.take(i as int), v_flip).normals,
            uvs@ == mesh_of_quads(quads@.take(i as int), v_flip).uvs,
            indices@ == mesh_of_quads(quads@.take(i as int), v_flip).indices,
            materials@ == mesh_of_quads(quads@.take(i as int), v_flip).materials,
        decreases quads@.len() - i,
    {
        let q = quads[i];
        proof {
            assert(quad_in_bounds(quads@[i as int], g));
            assert(plane_dims(g, q.dir).0 <= 256 && plane_dims(g, q.dir).1 <= 256);
            assert(slices_count(g, q.dir) <= 256);
            assert(quads@.take(i + 1).drop_last() =~= quads@.take(i as int));
            assert(quads@.take(i + 1).last() == quads@[i as int]);
        }
        let ghost m_pre = mesh_of_quads(quads@.take(i as int), v_flip);
        positions.push(corner_exec(&q, 0));
        positions.push(corner_exec(&q, 1));
        positions.push(corner_exec(&q, 2));
        positions.push(corner_exec(&q, 3));
        let nrm = quad_normal_exec(q.dir);
        normals.push(nrm);
        normals.push(nrm);
        normals.push(nrm);
        normals.push(nrm);
        uvs.push(quad_uv_exec(&q.rect, v_flip, 0));
        uvs.push(quad_uv_exec(&q.rect, v_flip, 1));
        uvs.push(quad_uv_exec(&q.rect, v_flip, 2));
        uvs.push(quad_uv_exec(&q.rect, v_flip, 3));
        let base: u32 = 4 * (i as u32);
        indices.push(base);
        indices.push(base + 1);
        indices.push(base + 2);
        indices.push(base);
        indices.push(base + 2);
        indices.push(base + 3);
        let mat = q.rect.material - 1;
        materials.push(mat);
        materials.push(mat);
        materials.push(mat);
        materials.push(mat);
        proof {
            let m_post = mesh_of_quads(quads@.take(i + 1), v_flip);
            assert(positions@ =~= m_pre.positions + Seq::new(
                4,
                |c: int| corner_target(quads@[i as int], c),
            ));
            assert(normals@ =~= m_pre.normals + Seq::new(
                4,
                |c: int| quad_normal(quads@[i as int].dir),
            ));
            assert(uvs@ =~= m_pre.uvs + Seq::new(
                4,
                |c: int| quad_uv(quads@[i as int].rect, v_flip, c),
            ));
            assert(indices@ =~= m_pre.indices + quad_indices(i as int));
            assert(materials@ =~= m_pre.materials + Seq::new(
                4,
                |c: int| (quads@[i as int].rect.material - 1) as u8,
            ));
        }
        i += 1;
    }
    proof {
        assert(quads@.take(quads@.len() as int) =~= quads@);
    }
    MeshData { positions, normals, uvs, indices, materials }
}

/// A mask with no non-empty cell yields no rectangle.
pub proof fn lemma_zero_mask_greedy_empty(mask: Seq<u8>, wd: int, ht: int, used: Set<int>, p: int)
    requires
        0 <= p,
        forall|q: int| p <= q < wd * ht ==> mask[q] == 0,
    ensures
        greedy_from(mask, wd, ht, used, p) == Seq::<QuadRect>::empty(),
    decreases wd * ht - p,
{
    if p < wd * ht {
        lemma_zero_mask_greedy_empty(mask, wd, ht, used, p + 1);
    }
}

/// A grid in which no face is visible meshes to the empty mesh.
pub proof fn lemma_invisible_empty_mesh(g: GridView, v_flip: bool)
    requires
        g.wf(),
        forall|x: int, y: int, z: int, d: FaceDir| !face_visible(g, x, y, z, d),
    ensures
        mesh_spec(g, v_flip) == empty_mesh(),
{
    assert forall|i: int| 0 <= i <= 6 implies #[trigger] quads_from_dir(g, i)
        == Seq::<OrientedQuad>::empty() by {
        lemma_invisible_no_dir_quads(g, i);
    }
    assert(quads_of(g) == Seq::<OrientedQuad>::empty());
    assert(mesh_of_quads(Seq::<OrientedQuad>::empty(), v_flip) == empty_mesh());
}

/// No orientation yields quads when no face is visible.
proof fn lemma_invisible_no_dir_quads(g: GridView, i: int)
    requires
        g.wf(),
        0 <= i <= 6,
        forall|x: int, y: int, z: int, d: FaceDir| !face_visible(g, x, y, z, d),
    ensures
        quads_from_dir(g, i) == Seq::<OrientedQuad>::empty(),
    decreases 6 - i,
{
    if i < 6 {
        lemma_invisible_no_slice_quads(g, dir_of_index(i), 0);
        lemma_invisible_no_dir_quads(g, i + 1);
        assert(quads_from_dir(g, i) =~= Seq::<OrientedQuad>::empty());
    }
}

/// No slice yields quads when no face is visible.
proof fn lemma_invisible_no_slice_quads(g: GridView, d: FaceDir, k: int)
    requires
        g.wf(),
        0 <= k <= slices_count(g, d),
        forall|x: int, y: int, z: int, dd: FaceDir| !face_visible(g, x, y, z, dd),
    ensures
        slices_from(g, d, k) == Seq::<OrientedQuad>::empty(),
    decreases slices_count(g, d) - k,
{
    if k < slices_count(g, d) {
        let (w, h) = plane_dims(g, d);
        let mask = mask_seq(g, d, k);
        assert forall|q: int| 0 <= q < w * h implies mask[q] == 0 by {
            let (x, y, z) = cell_of(d, k, q % w, q / w);
            assert(!face_visible(g, x, y, z, d));
        }
        lemma_zero_mask_greedy_empty(mask, w, h, Set::empty(), 0);
        assert(slice_quads(g, d, k) =~= Seq::<OrientedQuad>::empty());
        lemma_invisible_no_slice_quads(g, d, k + 1);
        assert(slices_from(g, d, k) =~= Seq::<OrientedQuad>::empty());
    }
}

/// A fully solid model whose outer faces are suppressed has no visible
/// face, so it meshes to the empty mesh.
pub proof fn lemma_solid_closed_model_empty_mesh(g: GridView, v_flip: bool)
    requires
        g.wf(),
        !g.outer,
        forall|x: int, y: int, z: int| g.in_bounds(x, y, z) ==> g.at(x, y, z) != 0,
    ensures
        mesh_spec(g, v_flip) == empty_mesh(),
{
    assert forall|x: int, y: int, z: int, d: FaceDir| !face_visible(g, x, y, z, d) by {
        if g.in_bounds(x, y, z) {
            let (dx, dy, dz) = d.offset();
            if g.in_bounds(x + dx, y + dy, z + dz) {
                assert(g.at(x + dx, y + dy, z + dz) != 0);
            }
        } else {
            assert(g.at(x, y, z) == 0);
        }
    }
    lemma_invisible_empty_mesh(g, v_flip);
}

/// A row whose remaining cells all carry `m` and are unused runs to the
/// mask's edge.
proof fn lemma_run_w_full(mask: Seq<u8>, wd: int, used: Set<int>, u: int, v: int, m: u8)
    requires
        0 <= u <= wd,
        forall|uu: int| u <= uu < wd ==> mask[uu + v * wd] == m && !used.contains(
            #[trigger] (uu + v * wd),
        ),
    ensures
        run_w(mask, wd, used, u, v, m) == wd - u,
    decreases wd - u,
{
    if u < wd {
        lemma_run_w_full(mask, wd, used, u + 1, v, m);
    }
}

/// A span of rows whose cells all carry `m` and are unused runs to the
/// mask's bottom edge.
proof fn lemma_run_h_full(mask: Seq<u8>, wd: int, ht: int, used: Set<int>, w: int, v: int, m: u8)
    requires
        0 <= v <= ht,
        0 <= w <= wd,
        forall|q: int| 0 <= q < wd * ht ==> #[trigger] mask[q] == m && !used.contains(q),
        wd >= 1,
        ht >= 0,
    ensures
        run_h(mask, wd, ht, used, 0, w, v, m) == ht - v,
    decreases ht - v,
{
    if v < ht {
        assert forall|uu: int| 0 <= uu < wd implies #[trigger] mask[uu + v * wd] == m
            && !used.contains(uu + v * wd) by {
            assert(0 <= uu + v * wd < wd * ht) by (nonlinear_arith)
                requires
                    0 <= uu < wd,
                    0 <= v < ht,
            ;
            assert(mask[uu + v * wd] == m && !used.contains(uu + v * wd));
        }
        lemma_run_w_full(mask, wd, used, 0, v, m);
        assert(row_match(mask, wd, used, 0, w, v, m));
        lemma_run_h_full(mask, wd, ht, used, w, v + 1, m);
    }
}

/// On a set that covers every remaining cell, the greedy scan emits
/// nothing.
proof fn lemma_all_used_greedy_empty(mask: Seq<u8>, wd: int, ht: int, used: Set<int>, p: int)
    requires
        0 <= p,
        forall|q: int| p <= q < wd * ht ==> used.contains(#[trigger] (q + 0)),
    ensures
        greedy_from(mask, wd, ht, used, p) == Seq::<QuadRect>::empty(),
    decreases wd * ht - p,
{
    if p < wd * ht {
        assert(used.contains(p + 0));
        lemma_all_used_greedy_empty(mask, wd, ht, used, p + 1);
    }
}

/// A mask whose every cell carries one non-empty material merges into the
/// single full-extent rectangle.
pub proof fn lemma_full_mask_single_rect(mask: Seq<u8>, wd: int, ht: int, m: u8)
    requires
        1 <= wd <= 256,
        1 <= ht <= 256,
        m != 0,
        mask.len() == wd * ht,
        forall|q: int| 0 <= q < wd * ht ==> mask[q] == m,
    ensures
        greedy_rects(mask, wd, ht) =~= seq![
            QuadRect { u: 0, v: 0, w: wd as u32, h: ht as u32, material: m },
        ],
{
    let used = Set::<int>::empty();
    assert(wd * ht >= 1) by (nonlinear_arith)
        requires
            wd >= 1,
            ht >= 1,
    ;
    assert(mask[0] == m);
    assert(0int % wd == 0 && 0int / wd == 0) by {
        vstd::arithmetic::div_mod::lemma_fundamental_div_mod_converse(0, wd, 0, 0);
    }
    assert forall|q: int| 0 <= q < wd * ht implies #[trigger] mask[q] == m && !used.contains(
        q,
    ) by {}
    assert forall|uu: int| 0 <= uu < wd implies #[trigger] mask[uu + 0 * wd] == m
        && !used.contains(uu + 0 * wd) by {
        assert(uu + 0 * wd == uu && 0 <= uu < wd * ht) by (nonlinear_arith)
            requires
                0 <= uu < wd,
                ht >= 1,
        ;
    }
    lemma_run_w_full(mask, wd, used, 0, 0, m);
    let w = run_w(mask, wd, used, 0, 0, m);
    assert(w == wd);
    lemma_run_h_full(mask, wd, ht, used, wd, 1, m);
    let h = 1 + run_h(mask, wd, ht, used, 0, wd, 1, m);
    assert(h == ht);
    let cells = rect_cells(wd, 0, 0, wd, ht);
    assert forall|q: int| 1 <= q < wd * ht implies cells.union(used).contains(
        #[trigger] (q + 0),
    ) by {
        lemma_mod_bound(q, wd);
        lemma_multiply_divide_lt(q, wd, ht);
        vstd::arithmetic::div_mod::lemma_div_pos_is_pos(q, wd);
        assert(cells.contains(q));
    }
    lemma_all_used_greedy_empty(mask, wd, ht, used.union(cells), 1);
    assert(greedy_from(mask, wd, ht, used, 0) =~= seq![
        QuadRect { u: 0, v: 0, w: wd as u32, h: ht as u32, material: m },
    ]);
}

/// One orientation of a uniformly solid open model yields exactly one
/// full-extent quad, on its boundary slice.
proof fn lemma_solid_dir_single_quad(g: GridView, d: FaceDir, m: u8)
    requires
        g.wf(),
        g.outer,
        m != 0,
        g.size_x >= 1 && g.size_y >= 1 && g.size_z >= 1,
        forall|x: int, y: int, z: int| g.in_bounds(x, y, z) ==> g.at(x, y, z) == m,
    ensures
        ({
            let (w, h) = plane_dims(g, d);
            let kd = boundary_slice(g, d);
            slices_from(g, d, 0) =~= seq![
                OrientedQuad {
                    dir: d,
                    slice: kd as u32,
                    rect: QuadRect { u: 0, v: 0, w: w as u32, h: h as u32, material: m },
                },
            ]
        }),
{
    let (w, h) = plane_dims(g, d);
    let kd = boundary_slice(g, d);
    let n = slices_count(g, d);
    assert forall|k: int| 0 <= k < n && k != kd implies slice_quads(g, d, k)
        =~= Seq::<OrientedQuad>::empty() by {
        let mask = mask_seq(g, d, k);
        assert forall|q: int| 0 <= q < w * h implies mask[q] == 0 by {
            lemma_mod_bound(q, w);
            lemma_multiply_divide_lt(q, w, h);
            vstd::arithmetic::div_mod::lemma_div_pos_is_pos(q, w);
            let (x, y, z) = cell_of(d, k, q % w, q / w);
            let (dx, dy, dz) = d.offset();
            assert(g.in_bounds(x + dx, y + dy, z + dz));
            assert(g.at(x + dx, y + dy, z + dz) == m);
            assert(!face_visible(g, x, y, z, d));
        }
        lemma_zero_mask_greedy_empty(mask, w, h, Set::empty(), 0);
    }
    let mask = mask_seq(g, d, kd);
    assert forall|q: int| 0 <= q < w * h implies mask[q] == m by {
        lemma_mod_bound(q, w);
        lemma_multiply_divide_lt(q, w, h);
        vstd::arithmetic::div_mod::lemma_div_pos_is_pos(q, w);
        let (x, y, z) = cell_of(d, kd, q % w, q / w);
        let (dx, dy, dz) = d.offset();
        assert(g.in_bounds(x, y, z));
        assert(!g.in_bounds(x + dx, y + dy, z + dz));
        assert(face_visible(g, x, y, z, d));
    }
    lemma_full_mask_single_rect(mask, w, h, m);
    let quad = OrientedQuad {
        dir: d,
        slice: kd as u32,
        rect: QuadRect { u: 0, v: 0, w: w as u32, h: h as u32, material: m },
    };
    assert(slice_quads(g, d, kd) =~= seq![quad]);
    lemma_slices_from_single(g, d, 0, kd, quad);
}

/// The slice on which a uniformly solid open model shows faces for an
/// orientation: the near boundary for negative orientations, the far one
/// for positive.
pub open spec fn boundary_slice(g: GridView, d: FaceDir) -> int {
    match d {
        FaceDir::XNeg | FaceDir::YNeg | FaceDir::ZNeg => 0,
        FaceDir::XPos => g.size_x - 1,
        FaceDir::YPos => g.size_y - 1,
        FaceDir::ZPos => g.size_z - 1,
    }
}

/// When every slice but one yields nothing, the orientation's quads are
/// exactly that slice's.
proof fn lemma_slices_from_single(g: GridView, d: FaceDir, k: int, kd: int, quad: OrientedQuad)
    requires
        0 <= k <= kd < slices_count(g, d),
        forall|j: int| 0 <= j < slices_count(g, d) && j != kd ==> slice_quads(g, d, j)
            =~= Seq::<OrientedQuad>::empty(),
        slice_quads(g, d, kd) =~= seq![quad],
    ensures
        slices_from(g, d, k) =~= seq![quad],
    decreases slices_count(g, d) - k,
{
    if k == kd {
        lemma_slices_from_empty_tail(g, d, k + 1, kd);
        assert(slices_from(g, d, k) =~= seq![quad]);
    } else {
        lemma_slices_from_single(g, d, k + 1, kd, quad);
        assert(slices_from(g, d, k) =~= seq![quad]);
    }
}

/// Past the boundary slice nothing more is emitted.
proof fn lemma_slices_from_empty_tail(g: GridView, d: FaceDir, k: int, kd: int)
    requires
        0 <= k <= slices_count(g, d),
        forall|j: int| 0 <= j < slices_count(g, d) && j != kd ==> slice_quads(g, d, j)
            =~= Seq::<OrientedQuad>::empty(),
        kd < k,
    ensures
        slices_from(g, d, k) =~= Seq::<OrientedQuad>::empty(),
    decreases slices_count(g, d) - k,
{
    if k < slices_count(g, d) {
        lemma_slices_from_empty_tail(g, d, k + 1, kd);
    }
}

/// The mesh of a quad list has four vertices and six indices per quad.
pub proof fn lemma_mesh_of_quads_len(qs: Seq<OrientedQuad>, v_flip: bool)
    ensures
        mesh_of_quads(qs, v_flip).positions.len() == 4 * qs.len(),
        mesh_of_quads(qs, v_flip).normals.len() == 4 * qs.len(),
        mesh_of_quads(qs, v_flip).uvs.len() == 4 * qs.len(),
        mesh_of_quads(qs, v_flip).indices.len() == 6 * qs.len(),
        mesh_of_quads(qs, v_flip).materials.len() == 4 * qs.len(),
    decreases qs.len(),
{
    if qs.len() > 0 {
        lemma_mesh_of_quads_len(qs.drop_last(), v_flip);
    }
}

/// A fully solid model of one material with outer faces meshed yields
/// exactly six quads, one full-extent face per orientation: twenty-four
/// vertices and thirty-six indices.
pub proof fn lemma_solid_open_model_six_quads(g: GridView, v_flip: bool, m: u8)
    requires
        g.wf(),
        g.outer,
        m != 0,
        g.size_x >= 1 && g.size_y >= 1 && g.size_z >= 1,
        forall|x: int, y: int, z: int| g.in_bounds(x, y, z) ==> g.at(x, y, z) == m,
    ensures
        quads_of(g).len() == 6,
        forall|j: int| 0 <= j < 6 ==> (#[trigger] quads_of(g)[j]) == (OrientedQuad {
            dir: dir_of_index(j),
            slice: boundary_slice(g, dir_of_index(j)) as u32,
            rect: QuadRect {
                u: 0,
                v: 0,
                w: plane_dims(g, dir_of_index(j)).0 as u32,
                h: plane_dims(g, dir_of_index(j)).1 as u32,
                material: m,
            },
        }),
        mesh_spec(g, v_flip).positions.len() == 24,
        mesh_spec(g, v_flip).indices.len() == 36,
{
    lemma_solid_dir_single_quad(g, FaceDir::XNeg, m);
    lemma_solid_dir_single_quad(g, FaceDir::XPos, m);
    lemma_solid_dir_single_quad(g, FaceDir::YNeg, m);
    lemma_solid_dir_single_quad(g, FaceDir::YPos, m);
    lemma_solid_dir_single_quad(g, FaceDir::ZNeg, m);
    lemma_solid_dir_single_quad(g, FaceDir::ZPos, m);
    assert(quads_from_dir(g, 6) =~= Seq::<OrientedQuad>::empty());
    assert(quads_from_dir(g, 5) =~= slices_from(g, FaceDir::ZPos, 0));
    assert(quads_from_dir(g, 4) =~= slices_from(g, FaceDir::ZNeg, 0) + quads_from_dir(g, 5));
    assert(quads_from_dir(g, 3) =~= slices_from(g, FaceDir::YPos, 0) + quads_from_dir(g, 4));
    assert(quads_from_dir(g, 2) =~= slices_from(g, FaceDir::YNeg, 0) + quads_from_dir(g, 3));
    assert(quads_from_dir(g, 1) =~= slices_from(g, FaceDir::XPos, 0) + quads_from_dir(g, 2));
    assert(quads_from_dir(g, 0) =~= slices_from(g, FaceDir::XNeg, 0) + quads_from_dir(g, 1));
    assert(quads_of(g).len() == 6);
    lemma_mesh_of_quads_len(quads_of(g), v_flip);
}

/// The slice and in-plane coordinates under which an orientation's masks
/// address a grid cell.
pub open spec fn slice_coords(d: FaceDir, x: int, y: int, z: int) -> (int, int, int) {
    match d {
        FaceDir::XNeg | FaceDir::XPos => (x, y, z),
        FaceDir::YNeg | FaceDir::YPos => (y, x, z),
        FaceDir::ZNeg | FaceDir::ZPos => (z, x, y),
    }
}

/// The mesher's masks and the visibility rules agree exactly: a cell's
/// face is visible under an orientation precisely when the mask of its
/// slice is non-empty there, and then the mask carries the cell's value.
/// The visible-voxel list used for material assignment is built from the
/// same visibility rules, so material properties are assigned exactly to
/// the voxels the mesher emits geometry for.
pub proof fn lemma_mask_agrees_with_visibility(g: GridView, x: int, y: int, z: int, d: FaceDir)
    ensures
        ({
            let (k, u, v) = slice_coords(d, x, y, z);
            &&& (mask_at(g, d, k, u, v) != 0 <==> face_visible(g, x, y, z, d))
            &&& (face_visible(g, x, y, z, d) ==> mask_at(g, d, k, u, v) == g.at(x, y, z)
                && crate::voxel::voxel_visible(g, x, y, z))
        }),
{
    let (k, u, v) = slice_coords(d, x, y, z);
    assert(cell_of(d, k, u, v) == (x, y, z));
}
} // verus!
