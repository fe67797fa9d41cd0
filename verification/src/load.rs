//! Load pipeline: turns one fully-parsed voxel file (colors, material
//! table, models, scene nodes, layers) into renderable scene data: a
//! compiled palette with its refraction lookup, a translucent and an opaque
//! material descriptor, one greedy-meshed model per input model with its
//! resolved name and translucency classification, and a resolved scene
//! arena with named sub-scene entries.

use vstd::prelude::*;
use vstd::string::StringExecFns;
use std::collections::HashMap;
use crate::palette::{
    element_from_material, padded_elements, RawMaterial, Rgba, VoxelElement, VoxelPalette,
};
use crate::material::{
    color_bytes, emissive_pixels, has_emission, has_rough_metal, has_translucency, metalness_of,
    rough_metal_pixels, roughness_of, seq_max, translucency_of, transmission_pixels,
    MaterialDescriptor,
};
use crate::voxel::{
    lemma_translucent_iors_exist, model_ior, rows_value, visible_list, RawVoxel, VisibleVoxel,
    VoxelGrid,
};
use crate::mesh::mesh_spec;
use crate::scene::{
    arena_closed, arena_resolves, clone_name, model_display_name, name_view, scene_models_spec,
    subasset_pairs, NamedSubasset, RawSceneNode, VoxelNode,
};
use crate::edit::VoxelModel;

verus! {

broadcast use vstd::std_specs::hash::group_hash_axioms;

/// Settings recognized by the load pipeline. Scalar settings are
/// fixed-point thousandths.
#[derive(Clone, Copy, PartialEq, Eq, Structural, Debug)]
pub struct VoxLoaderSettings {
    /// Whether the outer-most faces of a model are meshed. Set this to
    /// false when the outer faces can never be visible, for instance when
    /// the model is part of a three-dimensional tileset.
    pub mesh_outer_faces: bool,
    /// Multiplier for emissive strength, in thousandths.
    pub emission_strength: u32,
    /// Whether the base-color buffer is display-encoded (sRGB).
    pub uses_srgb: bool,
    /// Roughness override for the editor's default diffuse block type, in
    /// thousandths.
    pub diffuse_roughness: u32,
}

impl Default for VoxLoaderSettings {
    /// Outer faces meshed, emission strength 2, sRGB colors, diffuse
    /// roughness 0.8.
    fn default() -> (r: Self)
        ensures
            r.mesh_outer_faces == true,
            r.emission_strength == 2000,
            r.uses_srgb == true,
            r.diffuse_roughness == 800,
    {
        VoxLoaderSettings {
            mesh_outer_faces: true,
            emission_strength: 2000,
            uses_srgb: true,
            diffuse_roughness: 800,
        }
    }
}

/// A load failure. No partial scene data is produced on failure: the load
/// returns the error and nothing else.
#[derive(Debug)]
pub enum VoxLoaderError {
    /// The input was not a valid asset: either its bytes did not decode
    /// (mapped to this variant at the decode boundary), or the decoded
    /// document is structurally out of the format's bounds (a model extent
    /// above 256 cells, or a table too large to index); carries a
    /// description.
    InvalidAsset(String),
    /// The file holds no models at all.
    NoModelsFound,
}

impl VoxLoaderError {
    /// The failure's description.
    pub fn message(&self) -> (r: String)
        ensures
            (self matches VoxLoaderError::InvalidAsset(s) ==> r@ == s@),
            (self is NoModelsFound ==> r@ == "no models found in vox file"@),
    {
        match self {
            VoxLoaderError::InvalidAsset(s) => s.clone(),
            VoxLoaderError::NoModelsFound => String::from_str("no models found in vox file"),
        }
    }
}

/// The loader: its one configuration is whether texture coordinates are
/// flipped vertically at meshing time, to match the rendering backend's
/// convention.
pub struct VoxLoader {
    pub v_flip_face: bool,
}

impl VoxLoader {
    /// The file extension this loader handles.
    pub fn extensions(&self) -> (r: Vec<String>)
        ensures
            r@.len() == 1,
            r@[0]@ == "vox"@,
    {
        let mut r: Vec<String> = Vec::new();
        r.push(String::from_str("vox"));
        r
    }
}

/// One model of the parsed file: its declared extent and its flat voxel
/// array.
#[derive(Clone, Debug)]
pub struct RawModel {
    pub size_x: u32,
    pub size_y: u32,
    pub size_z: u32,
    pub voxels: Vec<RawVoxel>,
}

/// One layer row of the parsed file.
#[derive(Clone, Debug)]
pub struct RawLayer {
    pub name: Option<String>,
    pub hidden: bool,
}

/// Layer metadata carried into the produced scene.
#[derive(Clone, Debug)]
pub struct LayerInfo {
    pub name: Option<String>,
    pub is_hidden: bool,
}

/// The external decoder's fully-parsed document: color table, material
/// table, models, scene node array (rooted at index 0), and layer table.
pub struct VoxDocument {
    pub colors: Vec<Rgba>,
    pub materials: Vec<RawMaterial>,
    pub models: Vec<RawModel>,
    pub scene_nodes: Vec<RawSceneNode>,
    pub layers: Vec<RawLayer>,
}

/// A resolved scene: a node arena rooted at `root`, plus the file's layer
/// metadata. Sub-scenes share the arena and the model list.
pub struct VoxelScene {
    pub nodes: Vec<VoxelNode>,
    pub root: usize,
    pub layers: Vec<LayerInfo>,
}

/// Everything one load produces.
pub struct LoadedVox {
    pub palette: VoxelPalette,
    pub ior_for_voxel: HashMap<u8, u32>,
    pub translucent_material: MaterialDescriptor,
    pub opaque_material: MaterialDescriptor,
    pub models: Vec<VoxelModel>,
    pub scene: VoxelScene,
    pub subassets: Vec<NamedSubasset>,
}

/// The palette elements a document compiles to.
pub open spec fn doc_elements(
    colors: Seq<Rgba>,
    materials: Seq<RawMaterial>,
    diffuse_roughness: u32,
    emission_strength: u32,
) -> Seq<VoxelElement> {
    padded_elements(
        Seq::new(
            vstd::math::min(colors.len() as int, materials.len() as int) as nat,
            |i: int| element_from_material(colors[i], materials[i], diffuse_roughness,
                emission_strength,
            ),
        ),
    )
}

/// Whether a document is structurally loadable: every model extent fits
/// the format's 256-cell bound and the table lengths fit in 32 bits.
pub open spec fn doc_loadable(doc: VoxDocument) -> bool {
    &&& forall|i: int| 0 <= i < doc.models@.len() ==> {
        let m = #[trigger] doc.models@[i];
        m.size_x <= 256 && m.size_y <= 256 && m.size_z <= 256
    }
    &&& doc.models@.len() <= u32::MAX
    &&& doc.scene_nodes@.len() <= u32::MAX
}

/// A model selects the translucent material variant exactly when one of
/// its visible voxels uses a translucent palette element.
pub proof fn lemma_opacity_classification(
    list: Seq<VisibleVoxel>,
    elems: Seq<VoxelElement>,
    m: Map<u8, u32>,
)
    requires
        elems.len() == 256,
        forall|k: u8| m.contains_key(k) <==> elems[k as int].translucency > 0,
    ensures
        (model_ior(list, m) is Some) <==> exists|j: int|
            0 <= j < list.len() && elems[#[trigger] list[j].index as int].translucency > 0,
{
    lemma_translucent_iors_exist(list, m);
    if exists|j: int| 0 <= j < list.len() && m.contains_key(#[trigger] list[j].index) {
        let j = choose|j: int| 0 <= j < list.len() && m.contains_key(#[trigger] list[j].index);
        assert(elems[list[j].index as int].translucency > 0);
    }
    if exists|j: int| 0 <= j < list.len() && elems[#[trigger] list[j].index as int].translucency
        > 0 {
        let j = choose|j: int|
            0 <= j < list.len() && elems[#[trigger] list[j].index as int].translucency > 0;
        assert(m.contains_key(list[j].index));
    }
}

/// Compiles one fully-parsed document into scene data: the palette and its
/// refraction lookup, the two material variants, every model loaded,
/// meshed, named and classified, and the resolved scene with its named
/// sub-scene entries. Fails with `NoModelsFound` exactly on a document
/// with no models, and with `InvalidAsset` exactly on one whose structure
/// is out of the format's bounds.
pub fn load_scene(doc: VoxDocument, settings: &VoxLoaderSettings, v_flip_face: bool) -> (r: Result<
    LoadedVox,
    VoxLoaderError,
>)
    ensures
        (r matches Err(VoxLoaderError::InvalidAsset(_))) == !doc_loadable(doc),
        (r matches Err(VoxLoaderError::NoModelsFound)) == (doc_loadable(doc) && doc.models@.len()
            == 0),
        (r is Ok) == (doc_loadable(doc) && doc.models@.len() > 0),
        r matches Ok(out) ==> {
            let elems = doc_elements(
                doc.colors@,
                doc.materials@,
                settings.diffuse_roughness,
                settings.emission_strength,
            );
            let pairs = scene_models_spec(
                doc.scene_nodes@,
                0,
                None,
                doc.scene_nodes@.len() as nat,
            );
            &&& out.palette.wf()
            &&& out.palette.elements@ == elems
            &&& forall|i: int| 0 <= i < 256 ==> (out.ior_for_voxel@.contains_key(i as u8) <==> elems[i].translucency > 0)
            &&& forall|i: int| 0 <= i < 256 && elems[i].translucency > 0 ==> out.ior_for_voxel@[i as u8] == elems[i].refraction_index
            &&& out.translucent_material.srgb == settings.uses_srgb
            &&& out.translucent_material.base_color_texture@ == color_bytes(elems)
            &&& (out.translucent_material.emissive_texture is Some) == has_emission(elems)
            &&& (out.translucent_material.emissive_texture matches Some(t) ==> t@
                == emissive_pixels(elems))
            &&& (out.translucent_material.metallic_roughness_texture is Some) == has_rough_metal(
                elems,
            )
            &&& (out.translucent_material.metallic_roughness_texture matches Some(t) ==> t@
                == rough_metal_pixels(elems))
            &&& (out.translucent_material.specular_transmission_texture is Some)
                == has_translucency(elems)
            &&& (out.translucent_material.specular_transmission_texture matches Some(t) ==> t@
                == transmission_pixels(elems))
            &&& out.translucent_material.perceptual_roughness == if has_rough_metal(elems) {
                1000u32
            } else {
                seq_max(roughness_of(elems))
            }
            &&& out.translucent_material.metallic == if has_rough_metal(elems) {
                1000u32
            } else {
                seq_max(metalness_of(elems))
            }
            &&& out.translucent_material.specular_transmission == if has_translucency(elems) {
                1000u32
            } else {
                seq_max(translucency_of(elems))
            }
            &&& out.opaque_material.srgb == settings.uses_srgb
            &&& out.opaque_material.base_color_texture@ == color_bytes(elems)
            &&& (out.opaque_material.emissive_texture is Some) == has_emission(elems)
            &&& (out.opaque_material.emissive_texture matches Some(t) ==> t@ == emissive_pixels(
                elems,
            ))
            &&& out.opaque_material.emissive_white == has_emission(elems)
            &&& (out.opaque_material.metallic_roughness_texture is Some) == has_rough_metal(elems)
            &&& (out.opaque_material.metallic_roughness_texture matches Some(t) ==> t@
                == rough_metal_pixels(elems))
            &&& out.opaque_material.specular_transmission_texture is None
            &&& out.opaque_material.specular_transmission == 0
            &&& out.opaque_material.perceptual_roughness == if has_rough_metal(elems) {
                1000u32
            } else {
                seq_max(roughness_of(elems))
            }
            &&& out.opaque_material.metallic == if has_rough_metal(elems) {
                1000u32
            } else {
                seq_max(metalness_of(elems))
            }
            &&& out.models@.len() == doc.models@.len()
            &&& forall|i: int| 0 <= i < doc.models@.len() ==> {
                let m = #[trigger] out.models@[i];
                let raw = doc.models@[i];
                &&& m.wf()
                &&& m.data@.size_x == raw.size_x
                &&& m.data@.size_y == raw.size_y
                &&& m.data@.size_z == raw.size_z
                &&& m.data@.outer == settings.mesh_outer_faces
                &&& (forall|x: int, y: int, z: int| m.data@.in_bounds(x, y, z) ==> m.data@.at(
                    x,
                    y,
                    z,
                ) == rows_value(raw.voxels@, x, y, z))
                &&& m.v_flip == v_flip_face
                &&& m.mesh@ == mesh_spec(m.data@, v_flip_face)
                &&& m.ior == model_ior(visible_list(m.data@), out.ior_for_voxel@)
                &&& m.name@ == model_display_name(pairs, i)
            }
            &&& out.scene.root == 0
            &&& out.scene.nodes@.len() > 0
            &&& arena_closed(out.scene.nodes@)
            &&& arena_resolves(
                doc.scene_nodes@,
                0,
                None,
                doc.scene_nodes@.len() as nat,
                out.scene.nodes@,
                out.scene.root as int,
            )
            &&& out.scene.layers@.len() == doc.layers@.len()
            &&& forall|i: int| 0 <= i < doc.layers@.len() ==> {
                let l = #[trigger] out.scene.layers@[i];
                name_view(l.name) == name_view(doc.layers@[i].name) && l.is_hidden == doc.layers@[i].hidden
            }
            &&& out.subassets@.map_values(|e: NamedSubasset| (e.name@, e.node as int))
                == subasset_pairs(out.scene.nodes@)
        },
{
    // Structural validation: the format caps each model extent at 256.
    let mut i: usize = 0;
    while i < doc.models.len()
        invariant
            i <= doc.models@.len(),
            forall|j: int| 0 <= j < i ==> {
                let m = #[trigger] doc.models@[j];
                m.size_x <= 256 && m.size_y <= 256 && m.size_z <= 256
            },
        decreases doc.models@.len() - i,
    {
        let m = &doc.models[i];
        if m.size_x > 256 || m.size_y > 256 || m.size_z > 256 {
            return Err(VoxLoaderError::InvalidAsset(String::from_str(
                "model extent exceeds the format bound",
            )));
        }
        i += 1;
    }
    if doc.models.len() > u32::MAX as usize || doc.scene_nodes.len() > u32::MAX as usize {
        return Err(VoxLoaderError::InvalidAsset(String::from_str("table too large")));
    }
    if doc.models.len() == 0 {
        return Err(VoxLoaderError::NoModelsFound);
    }
    // Palette and materials.
    let palette = VoxelPalette::new_from_data(
        &doc.colors,
        &doc.materials,
        settings.diffuse_roughness,
        settings.emission_strength,
    );
    let ior_for_voxel = palette.ior_for_voxel();
    let translucent_material = palette.create_material(settings.uses_srgb);
    let opaque_material = palette.create_material(settings.uses_srgb).into_opaque();
    // Model names from the scene graph traversal.
    let name_pairs = crate::scene::parse_scene_graph(
        &doc.scene_nodes,
        0,
        &None,
        doc.scene_nodes.len() as u32,
    );
    let names = crate::scene::assemble_model_names(&name_pairs, doc.models.len());
    let ghost pairs = scene_models_spec(doc.scene_nodes@, 0, None, doc.scene_nodes@.len() as nat);
    // Load, mesh, name and classify every model.
    let mut models: Vec<VoxelModel> = Vec::new();
    let mut mi: usize = 0;
    while mi < doc.models.len()
        invariant
            mi <= doc.models@.len(),
            models@.len() == mi,
            names@.len() == doc.models@.len(),
            forall|t: int| 0 <= t < doc.models@.len() ==> (#[trigger] names@[t])@
                == model_display_name(pairs, t),
            forall|j: int| 0 <= j < doc.models@.len() ==> {
                let m = #[trigger] doc.models@[j];
                m.size_x <= 256 && m.size_y <= 256 && m.size_z <= 256
            },
            forall|j: int| 0 <= j < mi ==> {
                let m = #[trigger] models@[j];
                let raw = doc.models@[j];
                &&& m.wf()
                &&& m.data@.size_x == raw.size_x
                &&& m.data@.size_y == raw.size_y
                &&& m.data@.size_z == raw.size_z
                &&& m.data@.outer == settings.mesh_outer_faces
                &&& (forall|x: int, y: int, z: int| m.data@.in_bounds(x, y, z) ==> m.data@.at(
                    x,
                    y,
                    z,
                ) == rows_value(raw.voxels@, x, y, z))
                &&& m.v_flip == v_flip_face
                &&& m.mesh@ == mesh_spec(m.data@, v_flip_face)
                &&& m.ior == model_ior(visible_list(m.data@), ior_for_voxel@)
                &&& m.name@ == model_display_name(pairs, j)
            },
        decreases doc.models@.len() - mi,
    {
        let raw = &doc.models[mi];
        let grid = VoxelGrid::load_from_model(
            raw.size_x,
            raw.size_y,
            raw.size_z,
            &raw.voxels,
            settings.mesh_outer_faces,
        );
        let mesh = crate::mesh::mesh_model(&grid, v_flip_face);
        let (_visible, ior) = grid.visible_voxels(&ior_for_voxel);
        let name = names[mi].clone();
        models.push(VoxelModel { name, data: grid, mesh, v_flip: v_flip_face, ior });
        mi += 1;
    }
    // Scene arena, layers and sub-scene entries.
    let mut nodes: Vec<VoxelNode> = Vec::new();
    let root = crate::scene::resolve_node_into(
        &doc.scene_nodes,
        0,
        &None,
        doc.scene_nodes.len() as u32,
        &mut nodes,
    );
    let mut layers: Vec<LayerInfo> = Vec::new();
    let mut li: usize = 0;
    while li < doc.layers.len()
        invariant
            li <= doc.layers@.len(),
            layers@.len() == li,
            forall|j: int| 0 <= j < li ==> {
                let l = #[trigger] layers@[j];
                name_view(l.name) == name_view(doc.layers@[j].name) && l.is_hidden == doc.layers@[j].hidden
            },
        decreases doc.layers@.len() - li,
    {
        let l = &doc.layers[li];
        layers.push(LayerInfo { name: clone_name(&l.name), is_hidden: l.hidden });
        li += 1;
    }
    let subassets = crate::scene::collect_subassets(&nodes);
    Ok(
        LoadedVox {
            palette,
            ior_for_voxel,
            translucent_material,
            opaque_material,
            models,
            scene: VoxelScene { nodes, root, layers },
            subassets,
        },
    )
}


/// The material descriptor for one loaded model: the translucent variant
/// with the model's refraction index and a volume thickness of its
/// smallest extent when the model has a translucent visible voxel, and the
/// opaque variant otherwise.
pub fn model_material(
    palette: &VoxelPalette,
    uses_srgb: bool,
    model: &VoxelModel,
) -> (r: MaterialDescriptor)
    requires
        palette.wf(),
    ensures
        r.srgb == uses_srgb,
        r.base_color_texture@ == color_bytes(palette.elements@),
        (r.emissive_texture is Some) == has_emission(palette.elements@),
        (r.emissive_texture matches Some(t) ==> t@ == emissive_pixels(palette.elements@)),
        r.emissive_white == has_emission(palette.elements@),
        (r.metallic_roughness_texture is Some) == has_rough_metal(palette.elements@),
        (r.metallic_roughness_texture matches Some(t) ==> t@ == rough_metal_pixels(
            palette.elements@,
        )),
        r.perceptual_roughness == if has_rough_metal(palette.elements@) {
            1000u32
        } else {
            seq_max(roughness_of(palette.elements@))
        },
        r.metallic == if has_rough_metal(palette.elements@) {
            1000u32
        } else {
            seq_max(metalness_of(palette.elements@))
        },
        (r.specular_transmission_texture is Some) == (has_translucency(palette.elements@)
            && model.ior is Some),
        (r.specular_transmission_texture matches Some(t) ==> t@ == transmission_pixels(
            palette.elements@,
        )),
        model.ior matches Some(i) ==> r.ior == i && r.thickness == vstd::math::min(
            model.data.size_x as int,
            vstd::math::min(model.data.size_y as int, model.data.size_z as int),
        ) && r.specular_transmission == if has_translucency(palette.elements@) {
            1000u32
        } else {
            seq_max(translucency_of(palette.elements@))
        },
        model.ior is None ==> r.specular_transmission == 0,
{
    let base = palette.create_material(uses_srgb);
    match model.ior {
        Some(i) => base.with_ior_thickness(i, model.data.min_extent()),
        None => base.into_opaque(),
    }
}
} // verus!
