use vox_scene::load::{load_scene, VoxDocument, VoxLoaderError, VoxLoaderSettings};
use vox_scene::palette::{MaterialTag, RawMaterial, Rgba};
use vox_scene::scene::{NodeTransform, RawSceneNode};
use vox_scene::voxel::RawVoxel;
use vox_scene::load::{RawLayer, RawModel};
use vox_scene::edit::{edit_region, VoxelRegion};
use vox_scene::voxel::Voxel;

fn plain_material() -> RawMaterial {
    RawMaterial {
        tag: MaterialTag::Other,
        emission: None,
        radiant_flux: None,
        roughness: None,
        metalness: None,
        opacity: None,
        refractive_index: None,
    }
}

/// A document with one 2x2x2 solid model; palette element 200 is marked
/// translucent (opacity 0.5, refraction 1.3) and the model's voxels use it.
fn translucent_document(use_translucent_index: bool) -> VoxDocument {
    let mut colors = Vec::new();
    let mut materials = Vec::new();
    for i in 0..256 {
        colors.push(Rgba { r: 9, g: 9, b: 9, a: 255 });
        let mut m = plain_material();
        if i == 200 {
            m.tag = MaterialTag::Glass;
            m.opacity = Some(500);
            m.refractive_index = Some(300);
        }
        materials.push(m);
    }
    let index = if use_translucent_index { 200 } else { 3 };
    let mut rows = Vec::new();
    for x in 0..2u8 {
        for y in 0..2u8 {
            for z in 0..2u8 {
                rows.push(RawVoxel { x, y, z, i: index });
            }
        }
    }
    VoxDocument {
        colors,
        materials,
        models: vec![RawModel { size_x: 2, size_y: 2, size_z: 2, voxels: rows }],
        scene_nodes: vec![
            RawSceneNode::Transform {
                name: Some("cube".to_string()),
                transform: NodeTransform { tx: 0, ty: 0, tz: 0, rotation: 0 },
                layer_id: 0,
                child: 1,
            },
            RawSceneNode::Shape { models: vec![0] },
        ],
        layers: vec![RawLayer { name: Some("base".to_string()), hidden: false }],
    }
}

#[test]
fn end_to_end_translucent_model_is_classified_and_looked_up() {
    let doc = translucent_document(true);
    let settings = VoxLoaderSettings::default();
    let loaded = load_scene(doc, &settings, true).expect("loadable document");
    // The refraction lookup holds exactly the translucent index.
    assert_eq!(loaded.ior_for_voxel.get(&200u8), Some(&1300u32));
    assert_eq!(loaded.ior_for_voxel.get(&3u8), None);
    assert_eq!(loaded.ior_for_voxel.len(), 1);
    // The model uses index 200, so it selects the translucent variant and
    // its per-model refraction index is the (uniform) 1.3.
    assert_eq!(loaded.models.len(), 1);
    assert!(loaded.models[0].is_translucent());
    assert_eq!(loaded.models[0].ior, Some(1300));
    assert_eq!(loaded.models[0].name, "cube");
    // Scene data came through.
    assert_eq!(loaded.scene.root, 0);
    assert_eq!(loaded.scene.layers.len(), 1);
    assert_eq!(loaded.scene.layers[0].name, Some("base".to_string()));
    assert!(!loaded.scene.layers[0].is_hidden);
    assert_eq!(loaded.subassets.len(), 1);
    assert_eq!(loaded.subassets[0].name, "cube");
    // The translucent material carries a transmission texture; the opaque
    // variant clears it.
    assert!(loaded.translucent_material.specular_transmission_texture.is_some());
    assert!(loaded.opaque_material.specular_transmission_texture.is_none());
    assert_eq!(loaded.opaque_material.specular_transmission, 0);
}

#[test]
fn opaque_model_selects_the_opaque_variant() {
    let doc = translucent_document(false);
    let settings = VoxLoaderSettings::default();
    let loaded = load_scene(doc, &settings, true).expect("loadable document");
    assert!(!loaded.models[0].is_translucent());
    assert_eq!(loaded.models[0].ior, None);
}

#[test]
fn empty_document_fails_with_no_models_found() {
    let doc = VoxDocument {
        colors: Vec::new(),
        materials: Vec::new(),
        models: Vec::new(),
        scene_nodes: Vec::new(),
        layers: Vec::new(),
    };
    let settings = VoxLoaderSettings::default();
    match load_scene(doc, &settings, true) {
        Err(VoxLoaderError::NoModelsFound) => {},
        _ => panic!("expected the no-models failure"),
    }
}

#[test]
fn oversized_model_fails_as_invalid_asset() {
    let doc = VoxDocument {
        colors: Vec::new(),
        materials: Vec::new(),
        models: vec![RawModel { size_x: 300, size_y: 1, size_z: 1, voxels: Vec::new() }],
        scene_nodes: Vec::new(),
        layers: Vec::new(),
    };
    let settings = VoxLoaderSettings::default();
    match load_scene(doc, &settings, true) {
        Err(VoxLoaderError::InvalidAsset(_)) => {},
        _ => panic!("expected the invalid-asset failure"),
    }
}

#[test]
fn default_settings_match_the_documented_values() {
    let s = VoxLoaderSettings::default();
    assert!(s.mesh_outer_faces);
    assert_eq!(s.emission_strength, 2000);
    assert!(s.uses_srgb);
    assert_eq!(s.diffuse_roughness, 800);
}

#[test]
fn region_edit_applies_buffered_writes_and_remeshes() {
    let doc = translucent_document(false);
    let settings = VoxLoaderSettings::default();
    let mut loaded = load_scene(doc, &settings, true).expect("loadable document");
    let model = &mut loaded.models[0];
    let before_mesh_len = model.mesh.positions.len();
    // Clear one corner voxel.
    let region = VoxelRegion {
        origin_x: 0,
        origin_y: 0,
        origin_z: 0,
        size_x: 1,
        size_y: 1,
        size_z: 1,
    };
    edit_region(
        model,
        &region,
        &|_x: u32, _y: u32, _z: u32, _v: Voxel, _grid: &vox_scene::voxel::VoxelGrid| Voxel(0),
        &loaded.ior_for_voxel,
    );
    assert_eq!(model.data.get(0, 0, 0), 0);
    assert_eq!(model.data.get(1, 1, 1), 4);
    // The mesh was regenerated for the new surface.
    assert!(model.mesh.positions.len() != before_mesh_len);
}

#[test]
fn degenerate_region_edit_is_a_silent_no_op() {
    let doc = translucent_document(false);
    let settings = VoxLoaderSettings::default();
    let mut loaded = load_scene(doc, &settings, true).expect("loadable document");
    let model = &mut loaded.models[0];
    let before = model.mesh.positions.clone();
    let region = VoxelRegion {
        origin_x: 0,
        origin_y: 0,
        origin_z: 0,
        size_x: 0,
        size_y: 2,
        size_z: 2,
    };
    edit_region(
        model,
        &region,
        &|_x: u32, _y: u32, _z: u32, _v: Voxel, _g: &vox_scene::voxel::VoxelGrid| Voxel(0),
        &loaded.ior_for_voxel,
    );
    assert_eq!(model.data.get(0, 0, 0), 4);
    assert_eq!(model.mesh.positions, before);
}

#[test]
fn idempotent_edit_applied_twice_leaves_the_model_unchanged() {
    let doc = translucent_document(false);
    let settings = VoxLoaderSettings::default();
    let mut loaded = load_scene(doc, &settings, true).expect("loadable document");
    let model = &mut loaded.models[0];
    let region = vox_scene::edit::VoxelRegion {
        origin_x: 0,
        origin_y: 0,
        origin_z: 0,
        size_x: 2,
        size_y: 2,
        size_z: 2,
    };
    // Set every non-empty cell to palette element 5 (an idempotent edit).
    let set_five = |_x: u32, _y: u32, _z: u32, v: Voxel, _g: &vox_scene::voxel::VoxelGrid| {
        if v.0 != 0 { Voxel(5) } else { v }
    };
    edit_region(model, &region, &set_five, &loaded.ior_for_voxel);
    let after_once_cells: Vec<u8> = model.data.voxels.clone();
    let after_once_positions = model.mesh.positions.clone();
    edit_region(model, &region, &set_five, &loaded.ior_for_voxel);
    assert_eq!(model.data.voxels, after_once_cells);
    assert_eq!(model.mesh.positions, after_once_positions);
}

#[test]
fn full_model_region_covers_every_cell() {
    let doc = translucent_document(false);
    let settings = VoxLoaderSettings::default();
    let mut loaded = load_scene(doc, &settings, true).expect("loadable document");
    let model = &mut loaded.models[0];
    let region = VoxelRegion::full(&model.data);
    edit_region(
        model,
        &region,
        &|_x: u32, _y: u32, _z: u32, _v: Voxel, _g: &vox_scene::voxel::VoxelGrid| Voxel(0),
        &loaded.ior_for_voxel,
    );
    // Everything cleared: the mesh is empty.
    assert_eq!(model.mesh.positions.len(), 0);
}

#[test]
fn loader_reports_its_file_extension() {
    let loader = vox_scene::load::VoxLoader { v_flip_face: true };
    let exts = loader.extensions();
    assert_eq!(exts, vec!["vox".to_string()]);
}

#[test]
fn error_messages_carry_their_description() {
    let e = VoxLoaderError::InvalidAsset("bad header".to_string());
    assert_eq!(e.message(), "bad header");
    let n = VoxLoaderError::NoModelsFound;
    assert_eq!(n.message(), "no models found in vox file");
}

#[test]
fn per_model_material_carries_ior_and_min_extent_thickness() {
    let doc = translucent_document(true);
    let settings = VoxLoaderSettings::default();
    let loaded = load_scene(doc, &settings, true).expect("loadable document");
    let material =
        vox_scene::load::model_material(&loaded.palette, settings.uses_srgb, &loaded.models[0]);
    assert_eq!(material.ior, 1300);
    // The 2x2x2 model's smallest extent sizes the refraction volume.
    assert_eq!(material.thickness, 2);
    assert!(material.specular_transmission_texture.is_some());

    let opaque_doc = translucent_document(false);
    let opaque_loaded = load_scene(opaque_doc, &settings, true).expect("loadable document");
    let opaque = vox_scene::load::model_material(
        &opaque_loaded.palette,
        settings.uses_srgb,
        &opaque_loaded.models[0],
    );
    assert_eq!(opaque.specular_transmission, 0);
    assert!(opaque.specular_transmission_texture.is_none());
}
