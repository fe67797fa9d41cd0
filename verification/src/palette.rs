//! Palette compiler: turns the raw material table into a dense 256-entry
//! `VoxelPalette` of semantic per-material properties, and packs those
//! properties into texture-like pixel buffers for a PBR material descriptor,
//! folding a channel into a scalar factor when it does not vary.

use vstd::prelude::*;
use std::collections::HashMap;

verus! {

broadcast use vstd::std_specs::hash::group_hash_axioms;

/// Fixed-point scale: 1000 stands for the real value 1.0.
pub const UNIT: u32 = 1000;

/// Variation threshold (0.001 in fixed-point thousandths): a channel whose
/// spread across the palette is at most this is treated as uniform.
pub const CHANNEL_EPSILON: u32 = 1;

/// A palette always holds exactly this many material slots.
pub const PALETTE_SIZE: usize = 256;

/// A display-encoded RGBA color, one byte per channel.
#[derive(Clone, Copy, PartialEq, Eq, Structural, Debug)]
pub struct Rgba {
    pub r: u8,
    pub g: u8,
    pub b: u8,
    pub a: u8,
}

/// One material slot of the palette: a voxel material with physically-based
/// properties. All scalar channels are fixed-point thousandths.
#[derive(Clone, Copy, PartialEq, Eq, Structural, Debug)]
pub struct VoxelElement {
    /// Base color of the voxel.
    pub color: Rgba,
    /// Emissive strength; multiplied with the base color for emission.
    pub emission: u32,
    /// Perceptual roughness, 0..=1000.
    pub roughness: u32,
    /// Metalness, 0..=1000.
    pub metalness: u32,
    /// Translucency; 0 is fully opaque.
    pub translucency: u32,
    /// Index of refraction; only meaningful when `translucency > 0`.
    pub refraction_index: u32,
}

impl VoxelElement {
    /// The "unassigned" element: an opaque pink diffuse material.
    pub open spec fn default_spec() -> VoxelElement {
        VoxelElement {
            color: Rgba { r: 255, g: 20, b: 148, a: 255 },
            emission: 0,
            roughness: 500,
            metalness: 0,
            translucency: 0,
            refraction_index: 1500,
        }
    }
}

impl Default for VoxelElement {
    fn default() -> (r: Self)
        ensures
            r == Self::default_spec(),
    {
        VoxelElement {
            color: Rgba { r: 255, g: 20, b: 148, a: 255 },
            emission: 0,
            roughness: 500,
            metalness: 0,
            translucency: 0,
            refraction_index: 1500,
        }
    }
}

/// The editor-level type tag of a raw material row.
#[derive(Clone, Copy, PartialEq, Eq, Structural, Debug)]
pub enum MaterialTag {
    /// The editor's default block type.
    Diffuse,
    /// A refractive glass block type.
    Glass,
    /// Any other block type.
    Other,
}

/// One row of the external decoder's material table, with every scalar
/// already carried as a fixed-point thousandth value.
#[derive(Clone, Copy, Debug)]
pub struct RawMaterial {
    pub tag: MaterialTag,
    pub emission: Option<u32>,
    pub radiant_flux: Option<u32>,
    pub roughness: Option<u32>,
    pub metalness: Option<u32>,
    pub opacity: Option<u32>,
    pub refractive_index: Option<u32>,
}

/// A value of an optional channel, defaulting to zero.
pub open spec fn opt_or_zero(v: Option<u32>) -> u32 {
    match v {
        Some(x) => x,
        None => 0,
    }
}

/// Derived emissive strength: emission times (radiant flux + 1) times the
/// emission-strength setting, in thousandths, saturating at `u32::MAX`.
pub open spec fn emission_value(emission: u32, radiant_flux: u32, strength: u32) -> u32 {
    let p = (emission as int) * ((radiant_flux as int) + 1000) * (strength as int) / 1000000;
    if p > u32::MAX { u32::MAX } else { p as u32 }
}

/// Refraction index of a glass material: 1 + declared refractive index,
/// in thousandths, saturating at `u32::MAX`.
pub open spec fn glass_ior(refractive_index: u32) -> u32 {
    if refractive_index > u32::MAX - 1000 { u32::MAX } else { (refractive_index + 1000) as u32 }
}

/// The palette element derived from one color and one material-table row.
pub open spec fn element_from_material(
    color: Rgba,
    m: RawMaterial,
    diffuse_roughness: u32,
    emission_strength: u32,
) -> VoxelElement {
    VoxelElement {
        color,
        emission: emission_value(
            opt_or_zero(m.emission),
            opt_or_zero(m.radiant_flux),
            emission_strength,
        ),
        roughness: if m.tag == MaterialTag::Diffuse {
            diffuse_roughness
        } else {
            opt_or_zero(m.roughness)
        },
        metalness: opt_or_zero(m.metalness),
        translucency: opt_or_zero(m.opacity),
        refraction_index: if m.tag == MaterialTag::Glass {
            glass_ior(opt_or_zero(m.refractive_index))
        } else {
            0
        },
    }
}

/// The palette element carrying a color and default values otherwise.
pub open spec fn element_from_color(color: Rgba) -> VoxelElement {
    VoxelElement { color, ..VoxelElement::default_spec() }
}

/// Container for all of the [`VoxelElement`]s usable by the models of one
/// file; the single source of truth for material derivation.
///
/// Invariant ([`VoxelPalette::wf`]): always exactly 256 elements, so a
/// palette index is always a valid dense lookup.
pub struct VoxelPalette {
    pub elements: Vec<VoxelElement>,
}

/// The input element sequence padded with default elements (and truncated)
/// to exactly 256 entries.
pub open spec fn padded_elements(input: Seq<VoxelElement>) -> Seq<VoxelElement> {
    Seq::new(256, |i: int| if i < input.len() { input[i] } else { VoxelElement::default_spec() })
}

impl VoxelPalette {
    /// The palette invariant: exactly 256 elements.
    pub open spec fn wf(self) -> bool {
        self.elements@.len() == 256
    }

    /// Create a new [`VoxelPalette`] from the supplied [`VoxelElement`]s,
    /// padded or truncated to exactly 256 entries.
    pub fn new(elements: Vec<VoxelElement>) -> (r: Self)
        ensures
            r.wf(),
            r.elements@ == padded_elements(elements@),
    {
        let mut out: Vec<VoxelElement> = Vec::new();
        let mut i: usize = 0;
        while i < 256
            invariant
                i <= 256,
                out@.len() == i,
                forall|j: int| 0 <= j < i ==> out@[j] == padded_elements(elements@)[j],
            decreases 256 - i,
        {
            if i < elements.len() {
                out.push(elements[i]);
            } else {
                out.push(VoxelElement::default());
            }
            i += 1;
        }
        proof {
            assert(out@ =~= padded_elements(elements@));
        }
        VoxelPalette { elements: out }
    }

    /// Create a new [`VoxelPalette`] from the supplied colors, with default
    /// values for every other channel.
    pub fn new_from_colors(colors: Vec<Rgba>) -> (r: Self)
        ensures
            r.wf(),
            r.elements@ == padded_elements(colors@.map_values(|c: Rgba| element_from_color(c))),
    {
        let mut elements: Vec<VoxelElement> = Vec::new();
        let mut i: usize = 0;
        while i < colors.len()
            invariant
                i <= colors@.len(),
                elements@.len() == i,
                forall|j: int| 0 <= j < i ==> elements@[j] == element_from_color(colors@[j]),
            decreases colors@.len() - i,
        {
            elements.push(VoxelElement { color: colors[i], ..VoxelElement::default() });
            i += 1;
        }
        proof {
            assert(elements@ =~= colors@.map_values(|c: Rgba| element_from_color(c)));
        }
        VoxelPalette::new(elements)
    }

    /// Create a new [`VoxelPalette`] from the decoder's color table and
    /// material table, zipped row by row; `diffuse_roughness` overrides the
    /// roughness of the editor's default block type, and `emission_strength`
    /// scales every emissive value. Both settings are thousandths.
    pub fn new_from_data(
        colors: &Vec<Rgba>,
        materials: &Vec<RawMaterial>,
        diffuse_roughness: u32,
        emission_strength: u32,
    ) -> (r: Self)
        ensures
            r.wf(),
            r.elements@ == padded_elements(
                Seq::new(
                    vstd::math::min(colors@.len() as int, materials@.len() as int) as nat,
                    |i: int| element_from_material(
                        colors@[i],
                        materials@[i],
                        diffuse_roughness,
                        emission_strength,
                    ),
                ),
            ),
    {
        let n = if colors.len() < materials.len() { colors.len() } else { materials.len() };
        let mut elements: Vec<VoxelElement> = Vec::new();
        let mut i: usize = 0;
        while i < n
            invariant
                i <= n,
                n == vstd::math::min(colors@.len() as int, materials@.len() as int),
                elements@.len() == i,
                forall|j: int| 0 <= j < i ==> elements@[j] == element_from_material(
                    colors@[j],
                    materials@[j],
                    diffuse_roughness,
                    emission_strength,
                ),
            decreases n - i,
        {
            let m = materials[i];
            let emission_raw = opt_u32_or_zero(&m.emission);
            let flux = opt_u32_or_zero(&m.radiant_flux);
            proof {
                assert((emission_raw as u128) * ((flux as u128) + 1000) <= 0x1_0000_0000u128
                    * 0x1_0000_03E8u128) by (nonlinear_arith)
                    requires
                        emission_raw <= u32::MAX,
                        flux <= u32::MAX,
                ;
                assert((emission_raw as u128) * ((flux as u128) + 1000) * (emission_strength
                    as u128) <= 0x1_0000_0000u128 * 0x1_0000_03E8u128 * 0x1_0000_0000u128)
                    by (nonlinear_arith)
                    requires
                        emission_raw <= u32::MAX,
                        flux <= u32::MAX,
                        emission_strength <= u32::MAX,
                ;
            }
            let p: u128 = (emission_raw as u128) * ((flux as u128) + 1000) * (emission_strength
                as u128) / 1000000;
            let emission: u32 = if p > u32::MAX as u128 { u32::MAX } else { p as u32 };
            let roughness = if m.tag == MaterialTag::Diffuse {
                diffuse_roughness
            } else {
                opt_u32_or_zero(&m.roughness)
            };
            let ri = opt_u32_or_zero(&m.refractive_index);
            let refraction_index = if m.tag == MaterialTag::Glass {
                if ri > u32::MAX - 1000 { u32::MAX } else { ri + 1000 }
            } else {
                0
            };
            let element = VoxelElement {
                color: colors[i],
                emission,
                roughness,
                metalness: opt_u32_or_zero(&m.metalness),
                translucency: opt_u32_or_zero(&m.opacity),
                refraction_index,
            };
            assert(element == element_from_material(
                colors@[i as int],
                materials@[i as int],
                diffuse_roughness,
                emission_strength,
            ));
            elements.push(element);
            i += 1;
        }
        proof {
            assert(elements@ =~= Seq::new(
                vstd::math::min(colors@.len() as int, materials@.len() as int) as nat,
                |j: int| element_from_material(
                    colors@[j],
                    materials@[j],
                    diffuse_roughness,
                    emission_strength,
                ),
            ));
        }
        VoxelPalette::new(elements)
    }

    /// The lookup from palette index to refraction index, populated exactly
    /// for the indices whose element is translucent.
    pub fn ior_for_voxel(&self) -> (r: HashMap<u8, u32>)
        requires
            self.wf(),
        ensures
            forall|i: int| 0 <= i < 256 ==> (r@.contains_key(i as u8) <==> self.elements@[i].translucency
                > 0),
            forall|i: int| 0 <= i < 256 && self.elements@[i].translucency > 0 ==> r@[i as u8]
                == self.elements@[i].refraction_index,
    {
        let mut r: HashMap<u8, u32> = HashMap::new();
        let mut i: usize = 0;
        while i < 256
            invariant
                self.wf(),
                i <= 256,
                forall|j: int| 0 <= j < i ==> (r@.contains_key(j as u8) <==> self.elements@[j].translucency
                    > 0),
                forall|j: int| 0 <= j < i && self.elements@[j].translucency > 0 ==> r@[j as u8]
                    == self.elements@[j].refraction_index,
                forall|k: u8| r@.contains_key(k) ==> (k as int) < i,
            decreases 256 - i,
        {
            let e = self.elements[i];
            if e.translucency > 0 {
                r.insert(i as u8, e.refraction_index);
            }
            i += 1;
        }
        r
    }
}

/// A copy of an optional channel value, defaulting to zero.
fn opt_u32_or_zero(v: &Option<u32>) -> (r: u32)
    ensures
        r == opt_or_zero(*v),
{
    match v {
        Some(x) => *x,
        None => 0,
    }
}

} // verus!
