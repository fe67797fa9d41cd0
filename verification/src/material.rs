//! Material-channel packing: derives a PBR material descriptor from a
//! [`VoxelPalette`]. A channel is packed into a texture-like pixel buffer
//! only when its values vary across the palette beyond a small threshold;
//! otherwise the descriptor carries the uniform value as a scalar factor.

use vstd::prelude::*;
use crate::palette::{Rgba, VoxelElement, VoxelPalette, CHANNEL_EPSILON};

verus! {

/// The largest entry of a non-empty sequence.
pub open spec fn seq_max(s: Seq<u32>) -> u32
    recommends
        s.len() > 0,
    decreases s.len(),
{
    if s.len() <= 1 {
        s[0]
    } else {
        let m = seq_max(s.drop_last());
        if s.last() > m {
            s.last()
        } else {
            m
        }
    }
}

/// The smallest entry of a non-empty sequence.
pub open spec fn seq_min(s: Seq<u32>) -> u32
    recommends
        s.len() > 0,
    decreases s.len(),
{
    if s.len() <= 1 {
        s[0]
    } else {
        let m = seq_min(s.drop_last());
        if s.last() < m {
            s.last()
        } else {
            m
        }
    }
}

/// The largest entry of a non-empty vector.
pub fn max_element(s: &Vec<u32>) -> (r: u32)
    requires
        s@.len() > 0,
    ensures
        r == seq_max(s@),
        forall|i: int| 0 <= i < s@.len() ==> s@[i] <= r,
{
    let mut r = s[0];
    let mut i: usize = 1;
    while i < s.len()
        invariant
            1 <= i <= s@.len(),
            r == seq_max(s@.take(i as int)),
            forall|j: int| 0 <= j < i ==> s@[j] <= r,
        decreases s@.len() - i,
    {
        proof {
            assert(s@.take(i + 1).drop_last() =~= s@.take(i as int));
        }
        if s[i] > r {
            r = s[i];
        }
        i += 1;
    }
    proof {
        assert(s@.take(s@.len() as int) =~= s@);
    }
    r
}

/// The smallest entry of a non-empty vector.
pub fn min_element(s: &Vec<u32>) -> (r: u32)
    requires
        s@.len() > 0,
    ensures
        r == seq_min(s@),
        forall|i: int| 0 <= i < s@.len() ==> r <= s@[i],
{
    let mut r = s[0];
    let mut i: usize = 1;
    while i < s.len()
        invariant
            1 <= i <= s@.len(),
            r == seq_min(s@.take(i as int)),
            forall|j: int| 0 <= j < i ==> r <= s@[j],
        decreases s@.len() - i,
    {
        proof {
            assert(s@.take(i + 1).drop_last() =~= s@.take(i as int));
        }
        if s[i] < r {
            r = s[i];
        }
        i += 1;
    }
    proof {
        assert(s@.take(s@.len() as int) =~= s@);
    }
    r
}

/// One channel of a color: 0 red, 1 green, 2 blue, otherwise alpha.
pub open spec fn channel_of(c: Rgba, k: int) -> u8 {
    if k == 0 {
        c.r
    } else if k == 1 {
        c.g
    } else if k == 2 {
        c.b
    } else {
        c.a
    }
}

/// The base-color pixel buffer: four bytes per element, row by row.
pub open spec fn color_bytes(elems: Seq<VoxelElement>) -> Seq<u8> {
    Seq::new(elems.len() * 4, |i: int| channel_of(elems[i / 4].color, i % 4))
}

/// One channel of an emissive pixel: the color channel scaled by the
/// element's emissive strength (alpha carried through unscaled), in
/// thousandths, saturating at `u32::MAX`.
pub open spec fn emissive_channel(e: VoxelElement, k: int) -> u32 {
    if k == 3 {
        ((e.color.a as int) * 1000 / 255) as u32
    } else {
        let v = (channel_of(e.color, k) as int) * (e.emission as int) / 255;
        if v > u32::MAX {
            u32::MAX
        } else {
            v as u32
        }
    }
}

/// The emissive pixel buffer: four channels per element.
pub open spec fn emissive_pixels(elems: Seq<VoxelElement>) -> Seq<u32> {
    Seq::new(elems.len() * 4, |i: int| emissive_channel(elems[i / 4], i % 4))
}

/// A thousandths value rescaled to a 16-bit normalized channel.
pub open spec fn unorm16(v: u32) -> u16 {
    let x = (v as int) * 65535 / 1000;
    if x > 65535 {
        65535u16
    } else {
        x as u16
    }
}

/// One channel of a combined roughness/metalness pixel: green carries
/// roughness, blue carries metalness.
pub open spec fn rough_metal_channel(e: VoxelElement, k: int) -> u16 {
    if k == 1 {
        unorm16(e.roughness)
    } else if k == 2 {
        unorm16(e.metalness)
    } else {
        0u16
    }
}

/// The combined roughness/metalness pixel buffer: four channels per element.
pub open spec fn rough_metal_pixels(elems: Seq<VoxelElement>) -> Seq<u16> {
    Seq::new(elems.len() * 4, |i: int| rough_metal_channel(elems[i / 4], i % 4))
}

/// The specular-transmission pixel buffer: one channel per element.
pub open spec fn transmission_pixels(elems: Seq<VoxelElement>) -> Seq<u16> {
    Seq::new(elems.len(), |i: int| unorm16(elems[i].translucency))
}

/// The emissive strengths of the elements.
pub open spec fn emissions_of(elems: Seq<VoxelElement>) -> Seq<u32> {
    elems.map_values(|e: VoxelElement| e.emission)
}

/// The roughness values of the elements.
pub open spec fn roughness_of(elems: Seq<VoxelElement>) -> Seq<u32> {
    elems.map_values(|e: VoxelElement| e.roughness)
}

/// The metalness values of the elements.
pub open spec fn metalness_of(elems: Seq<VoxelElement>) -> Seq<u32> {
    elems.map_values(|e: VoxelElement| e.metalness)
}

/// The translucency values of the elements.
pub open spec fn translucency_of(elems: Seq<VoxelElement>) -> Seq<u32> {
    elems.map_values(|e: VoxelElement| e.translucency)
}

/// Whether any element emits light.
pub open spec fn has_emission(elems: Seq<VoxelElement>) -> bool {
    seq_max(emissions_of(elems)) > 0
}

/// Whether roughness or metalness varies across the palette beyond the
/// channel threshold.
pub open spec fn has_rough_metal(elems: Seq<VoxelElement>) -> bool {
    ||| seq_max(roughness_of(elems)) - seq_min(roughness_of(elems)) > CHANNEL_EPSILON
    ||| seq_max(metalness_of(elems)) - seq_min(metalness_of(elems)) > CHANNEL_EPSILON
}

/// Whether translucency varies across the palette beyond the channel
/// threshold.
pub open spec fn has_translucency(elems: Seq<VoxelElement>) -> bool {
    seq_max(translucency_of(elems)) - seq_min(translucency_of(elems)) > CHANNEL_EPSILON
}

/// A PBR material descriptor derived from a palette: a base-color buffer,
/// conditional per-channel pixel buffers, and scalar factors for the
/// channels that are uniform. Scalars are fixed-point thousandths.
pub struct MaterialDescriptor {
    /// Whether the base-color buffer is display-encoded (sRGB).
    pub srgb: bool,
    /// Base-color pixels, four bytes per palette slot; always present.
    pub base_color_texture: Vec<u8>,
    /// Emissive pixels, four thousandth-channels per slot; present exactly
    /// when some element emits.
    pub emissive_texture: Option<Vec<u32>>,
    /// Whether the emissive factor is full white (texture present) rather
    /// than black.
    pub emissive_white: bool,
    /// Combined roughness/metalness pixels, four 16-bit channels per slot;
    /// present exactly when either channel varies.
    pub metallic_roughness_texture: Option<Vec<u16>>,
    /// Specular-transmission pixels, one 16-bit channel per slot; present
    /// exactly when translucency varies.
    pub specular_transmission_texture: Option<Vec<u16>>,
    /// Scalar roughness factor.
    pub perceptual_roughness: u32,
    /// Scalar metalness factor.
    pub metallic: u32,
    /// Scalar specular-transmission factor.
    pub specular_transmission: u32,
    /// Index of refraction of the material volume, in thousandths.
    pub ior: u32,
    /// Volume thickness used for refraction, in voxels.
    pub thickness: u32,
}

impl MaterialDescriptor {
    /// The opaque variant of this descriptor: identical, with specular
    /// transmission forced to zero.
    pub fn into_opaque(self) -> (r: Self)
        ensures
            r.srgb == self.srgb,
            r.base_color_texture == self.base_color_texture,
            r.emissive_texture == self.emissive_texture,
            r.emissive_white == self.emissive_white,
            r.metallic_roughness_texture == self.metallic_roughness_texture,
            r.specular_transmission_texture is None,
            r.perceptual_roughness == self.perceptual_roughness,
            r.metallic == self.metallic,
            r.specular_transmission == 0,
            r.ior == self.ior,
            r.thickness == self.thickness,
    {
        MaterialDescriptor { specular_transmission_texture: None, specular_transmission: 0, ..self }
    }

    /// This descriptor with a per-model index of refraction (in
    /// thousandths) and volume thickness (in voxels).
    pub fn with_ior_thickness(self, ior: u32, thickness: u32) -> (r: Self)
        ensures
            r.srgb == self.srgb,
            r.base_color_texture == self.base_color_texture,
            r.emissive_texture == self.emissive_texture,
            r.emissive_white == self.emissive_white,
            r.metallic_roughness_texture == self.metallic_roughness_texture,
            r.specular_transmission_texture == self.specular_transmission_texture,
            r.perceptual_roughness == self.perceptual_roughness,
            r.metallic == self.metallic,
            r.specular_transmission == self.specular_transmission,
            r.ior == ior,
            r.thickness == thickness,
    {
        MaterialDescriptor { ior, thickness, ..self }
    }
}

impl VoxelPalette {
    /// Packs this palette's channels into a [`MaterialDescriptor`]: the
    /// base-color buffer is always built; the emissive, roughness/metalness
    /// and specular-transmission buffers are built only when their values
    /// vary across the palette, and otherwise fold into scalar factors.
    pub fn create_material(&self, uses_srgb: bool) -> (r: MaterialDescriptor)
        requires
            self.wf(),
        ensures
            r.srgb == uses_srgb,
            r.base_color_texture@ == color_bytes(self.elements@),
            r.emissive_white == has_emission(self.elements@),
            (r.emissive_texture is Some) == has_emission(self.elements@),
            (r.emissive_texture matches Some(t) ==> t@ == emissive_pixels(self.elements@)),
            (r.metallic_roughness_texture is Some) == has_rough_metal(self.elements@),
            (r.metallic_roughness_texture matches Some(t) ==> t@ == rough_metal_pixels(
                self.elements@,
            )),
            (r.specular_transmission_texture is Some) == has_translucency(self.elements@),
            (r.specular_transmission_texture matches Some(t) ==> t@ == transmission_pixels(
                self.elements@,
            )),
            r.perceptual_roughness == if has_rough_metal(self.elements@) {
                1000u32
            } else {
                seq_max(roughness_of(self.elements@))
            },
            r.metallic == if has_rough_metal(self.elements@) {
                1000u32
            } else {
                seq_max(metalness_of(self.elements@))
            },
            r.specular_transmission == if has_translucency(self.elements@) {
                1000u32
            } else {
                seq_max(translucency_of(self.elements@))
            },
            r.ior == 1500,
            r.thickness == 0,
    {
        let ghost elems = self.elements@;
        let emission_data = collect_emissions(&self.elements);
        let roughness_data = collect_roughness(&self.elements);
        let metalness_data = collect_metalness(&self.elements);
        let translucency_data = collect_translucency(&self.elements);

        let max_roughness = max_element(&roughness_data);
        let min_roughness = min_element(&roughness_data);
        let max_metalness = max_element(&metalness_data);
        let min_metalness = min_element(&metalness_data);
        let max_translucency = max_element(&translucency_data);
        let min_translucency = min_element(&translucency_data);

        let has_emission = max_element(&emission_data) > 0;
        let has_roughness = max_roughness - min_roughness > CHANNEL_EPSILON;
        let has_metalness = max_metalness - min_metalness > CHANNEL_EPSILON;
        let has_roughness_metalness = has_roughness || has_metalness;
        let has_translucency_v = max_translucency - min_translucency > CHANNEL_EPSILON;

        let base_color_texture = build_color_bytes(&self.elements);
        let emissive_texture = if has_emission {
            Some(build_emissive_pixels(&self.elements))
        } else {
            None
        };
        let metallic_roughness_texture = if has_roughness_metalness {
            Some(build_rough_metal_pixels(&self.elements))
        } else {
            None
        };
        let specular_transmission_texture = if has_translucency_v {
            Some(build_transmission_pixels(&self.elements))
        } else {
            None
        };

        MaterialDescriptor {
            srgb: uses_srgb,
            base_color_texture,
            emissive_texture,
            emissive_white: has_emission,
            metallic_roughness_texture,
            specular_transmission_texture,
            perceptual_roughness: if has_roughness_metalness { 1000 } else { max_roughness },
            metallic: if has_roughness_metalness { 1000 } else { max_metalness },
            specular_transmission: if has_translucency_v { 1000 } else { max_translucency },
            ior: 1500,
            thickness: 0,
        }
    }
}

/// The emissive strengths of the elements, as a vector.
fn collect_emissions(elems: &Vec<VoxelElement>) -> (r: Vec<u32>)
    ensures
        r@ == emissions_of(elems@),
{
    let mut r: Vec<u32> = Vec::new();
    let mut i: usize = 0;
    while i < elems.len()
        invariant
            i <= elems@.len(),
            r@.len() == i,
            forall|j: int| 0 <= j < i ==> r@[j] == elems@[j].emission,
        decreases elems@.len() - i,
    {
        r.push(elems[i].emission);
        i += 1;
    }
    proof {
        assert(r@ =~= emissions_of(elems@));
    }
    r
}

/// The roughness values of the elements, as a vector.
fn collect_roughness(elems: &Vec<VoxelElement>) -> (r: Vec<u32>)
    ensures
        r@ == roughness_of(elems@),
{
    let mut r: Vec<u32> = Vec::new();
    let mut i: usize = 0;
    while i < elems.len()
        invariant
            i <= elems@.len(),
            r@.len() == i,
            forall|j: int| 0 <= j < i ==> r@[j] == elems@[j].roughness,
        decreases elems@.len() - i,
    {
        r.push(elems[i].roughness);
        i += 1;
    }
    proof {
        assert(r@ =~= roughness_of(elems@));
    }
    r
}

/// The metalness values of the elements, as a vector.
fn collect_metalness(elems: &Vec<VoxelElement>) -> (r: Vec<u32>)
    ensures
        r@ == metalness_of(elems@),
{
    let mut r: Vec<u32> = Vec::new();
    let mut i: usize = 0;
    while i < elems.len()
        invariant
            i <= elems@.len(),
            r@.len() == i,
            forall|j: int| 0 <= j < i ==> r@[j] == elems@[j].metalness,
        decreases elems@.len() - i,
    {
        r.push(elems[i].metalness);
        i += 1;
    }
    proof {
        assert(r@ =~= metalness_of(elems@));
    }
    r
}

/// The translucency values of the elements, as a vector.
fn collect_translucency(elems: &Vec<VoxelElement>) -> (r: Vec<u32>)
    ensures
        r@ == translucency_of(elems@),
{
    let mut r: Vec<u32> = Vec::new();
    let mut i: usize = 0;
    while i < elems.len()
        invariant
            i <= elems@.len(),
            r@.len() == i,
            forall|j: int| 0 <= j < i ==> r@[j] == elems@[j].translucency,
        decreases elems@.len() - i,
    {
        r.push(elems[i].translucency);
        i += 1;
    }
    proof {
        assert(r@ =~= translucency_of(elems@));
    }
    r
}

/// Builds the base-color pixel buffer.
fn build_color_bytes(elems: &Vec<VoxelElement>) -> (r: Vec<u8>)
    requires
        elems@.len() <= 256,
    ensures
        r@ == color_bytes(elems@),
{
    let mut r: Vec<u8> = Vec::new();
    let mut i: usize = 0;
    while i < elems.len()
        invariant
            i <= elems@.len(),
            elems@.len() <= 256,
            r@.len() == i * 4,
            forall|j: int| 0 <= j < i * 4 ==> r@[j] == color_bytes(elems@)[j],
        decreases elems@.len() - i,
    {
        let c = elems[i].color;
        r.push(c.r);
        r.push(c.g);
        r.push(c.b);
        r.push(c.a);
        proof {
            let base = (i * 4) as int;
            assert(base / 4 == i && base % 4 == 0);
            assert((base + 1) / 4 == i && (base + 1) % 4 == 1);
            assert((base + 2) / 4 == i && (base + 2) % 4 == 2);
            assert((base + 3) / 4 == i && (base + 3) % 4 == 3);
        }
        i += 1;
    }
    proof {
        assert(r@ =~= color_bytes(elems@));
    }
    r
}

/// Builds the emissive pixel buffer.
fn build_emissive_pixels(elems: &Vec<VoxelElement>) -> (r: Vec<u32>)
    requires
        elems@.len() <= 256,
    ensures
        r@ == emissive_pixels(elems@),
{
    let mut r: Vec<u32> = Vec::new();
    let mut i: usize = 0;
    while i < elems.len()
        invariant
            i <= elems@.len(),
            elems@.len() <= 256,
            r@.len() == i * 4,
            forall|j: int| 0 <= j < i * 4 ==> r@[j] == emissive_pixels(elems@)[j],
        decreases elems@.len() - i,
    {
        let e = elems[i];
        r.push(emissive_channel_exec(&e, 0));
        r.push(emissive_channel_exec(&e, 1));
        r.push(emissive_channel_exec(&e, 2));
        r.push(emissive_channel_exec(&e, 3));
        proof {
            let base = (i * 4) as int;
            assert(base / 4 == i && base % 4 == 0);
            assert((base + 1) / 4 == i && (base + 1) % 4 == 1);
            assert((base + 2) / 4 == i && (base + 2) % 4 == 2);
            assert((base + 3) / 4 == i && (base + 3) % 4 == 3);
        }
        i += 1;
    }
    proof {
        assert(r@ =~= emissive_pixels(elems@));
    }
    r
}

/// One emissive channel, computed in wide integers and saturated.
fn emissive_channel_exec(e: &VoxelElement, k: u32) -> (r: u32)
    requires
        k < 4,
    ensures
        r == emissive_channel(*e, k as int),
{
    if k == 3 {
        (e.color.a as u32) * 1000 / 255
    } else {
        let c: u64 = if k == 0 {
            e.color.r as u64
        } else if k == 1 {
            e.color.g as u64
        } else {
            e.color.b as u64
        };
        proof {
            assert(c * (e.emission as u64) <= 255u64 * (u32::MAX as u64)) by (nonlinear_arith)
                requires
                    c <= 255u64,
                    e.emission <= u32::MAX,
            ;
        }
        let v: u64 = c * (e.emission as u64) / 255;
        if v > u32::MAX as u64 {
            u32::MAX
        } else {
            v as u32
        }
    }
}

/// Builds the combined roughness/metalness pixel buffer.
fn build_rough_metal_pixels(elems: &Vec<VoxelElement>) -> (r: Vec<u16>)
    requires
        elems@.len() <= 256,
    ensures
        r@ == rough_metal_pixels(elems@),
{
    let mut r: Vec<u16> = Vec::new();
    let mut i: usize = 0;
    while i < elems.len()
        invariant
            i <= elems@.len(),
            elems@.len() <= 256,
            r@.len() == i * 4,
            forall|j: int| 0 <= j < i * 4 ==> r@[j] == rough_metal_pixels(elems@)[j],
        decreases elems@.len() - i,
    {
        let e = elems[i];
        r.push(0);
        r.push(unorm16_exec(e.roughness));
        r.push(unorm16_exec(e.metalness));
        r.push(0);
        proof {
            let base = (i * 4) as int;
            assert(base / 4 == i && base % 4 == 0);
            assert((base + 1) / 4 == i && (base + 1) % 4 == 1);
            assert((base + 2) / 4 == i && (base + 2) % 4 == 2);
            assert((base + 3) / 4 == i && (base + 3) % 4 == 3);
        }
        i += 1;
    }
    proof {
        assert(r@ =~= rough_metal_pixels(elems@));
    }
    r
}

/// Builds the specular-transmission pixel buffer.
fn build_transmission_pixels(elems: &Vec<VoxelElement>) -> (r: Vec<u16>)
    ensures
        r@ == transmission_pixels(elems@),
{
    let mut r: Vec<u16> = Vec::new();
    let mut i: usize = 0;
    while i < elems.len()
        invariant
            i <= elems@.len(),
            r@.len() == i,
            forall|j: int| 0 <= j < i ==> r@[j] == transmission_pixels(elems@)[j],
        decreases elems@.len() - i,
    {
        r.push(unorm16_exec(elems[i].translucency));
        i += 1;
    }
    proof {
        assert(r@ =~= transmission_pixels(elems@));
    }
    r
}

/// A thousandths value rescaled to a 16-bit normalized channel.
fn unorm16_exec(v: u32) -> (r: u16)
    ensures
        r == unorm16(v),
{
    let x: u64 = (v as u64) * 65535 / 1000;
    if x > 65535 {
        65535
    } else {
        x as u16
    }
}

} // verus!
