use vox_scene::palette::{MaterialTag, RawMaterial, Rgba, VoxelElement, VoxelPalette};

fn color(r: u8, g: u8, b: u8) -> Rgba {
    Rgba { r, g, b, a: 255 }
}

fn plain_material() -> RawMaterial {
    RawMaterial {
        tag: MaterialTag::Other,
        emission: None,
        radiant_flux: None,
        roughness: None,
        metalness: None,
        opacity: None,
        refractive_index: None,
    }
}

fn uniform_palette() -> VoxelPalette {
    // Padding with defaults makes the channels vary (default roughness 500
    // against explicit 0), so fill all 256 slots with one material row.
    let mut colors = Vec::new();
    let mut materials = Vec::new();
    for _ in 0..256 {
        colors.push(color(7, 8, 9));
        materials.push(plain_material());
    }
    VoxelPalette::new_from_data(&colors, &materials, 800, 2000)
}

#[test]
fn uniform_channels_fold_into_scalar_factors() {
    let palette = uniform_palette();
    let m = palette.create_material(true);
    assert!(m.srgb);
    assert_eq!(m.base_color_texture.len(), 256 * 4);
    assert!(m.emissive_texture.is_none());
    assert!(!m.emissive_white);
    assert!(m.metallic_roughness_texture.is_none());
    assert!(m.specular_transmission_texture.is_none());
    // Uniform values become the scalar factors directly.
    assert_eq!(m.perceptual_roughness, 0);
    assert_eq!(m.metallic, 0);
    assert_eq!(m.specular_transmission, 0);
}

#[test]
fn varying_roughness_builds_a_texture_and_saturates_factors() {
    let mut colors = Vec::new();
    let mut materials = Vec::new();
    for i in 0..256 {
        colors.push(color(0, 0, 0));
        let mut m = plain_material();
        // Spread beyond the 0.001 threshold.
        m.roughness = Some(if i == 0 { 0 } else { 1000 });
        materials.push(m);
    }
    let palette = VoxelPalette::new_from_data(&colors, &materials, 800, 2000);
    let m = palette.create_material(false);
    assert!(!m.srgb);
    let texture = m.metallic_roughness_texture.expect("roughness varies");
    assert_eq!(texture.len(), 256 * 4);
    // Channel layout per slot: [0, roughness, metalness, 0], 16-bit scaled.
    assert_eq!(texture[0], 0);
    assert_eq!(texture[1], 0);
    assert_eq!(texture[4 + 1], 65535);
    assert_eq!(texture[4 + 2], 0);
    assert_eq!(m.perceptual_roughness, 1000);
    assert_eq!(m.metallic, 1000);
}

#[test]
fn tiny_variation_below_threshold_builds_no_texture() {
    let mut colors = Vec::new();
    let mut materials = Vec::new();
    for i in 0..256 {
        colors.push(color(0, 0, 0));
        let mut m = plain_material();
        // A spread of exactly 0.001 stays within the threshold.
        m.roughness = Some(if i == 0 { 500 } else { 501 });
        materials.push(m);
    }
    let palette = VoxelPalette::new_from_data(&colors, &materials, 800, 2000);
    let m = palette.create_material(true);
    assert!(m.metallic_roughness_texture.is_none());
    assert_eq!(m.perceptual_roughness, 501);
}

#[test]
fn emission_builds_color_scaled_pixels() {
    let mut colors = Vec::new();
    let mut materials = Vec::new();
    for i in 0..256 {
        colors.push(color(255, 0, 0));
        let mut m = plain_material();
        if i == 3 {
            // emission 1.0 with no flux and strength 1.0 stays 1.0
            m.emission = Some(1000);
        }
        materials.push(m);
    }
    let palette = VoxelPalette::new_from_data(&colors, &materials, 800, 1000);
    let m = palette.create_material(true);
    assert!(m.emissive_white);
    let texture = m.emissive_texture.expect("one slot emits");
    assert_eq!(texture.len(), 256 * 4);
    // Slot 3: red channel 255/255 * 1.0 = 1.0 in thousandths.
    assert_eq!(texture[3 * 4], 1000);
    assert_eq!(texture[3 * 4 + 1], 0);
    // A non-emitting slot is black.
    assert_eq!(texture[0], 0);
}

#[test]
fn translucency_builds_transmission_texture_and_opaque_variant_clears_it() {
    let mut colors = Vec::new();
    let mut materials = Vec::new();
    for i in 0..256 {
        colors.push(color(0, 0, 0));
        let mut m = plain_material();
        if i == 5 {
            m.tag = MaterialTag::Glass;
            m.opacity = Some(1000);
            m.refractive_index = Some(450);
        }
        materials.push(m);
    }
    let palette = VoxelPalette::new_from_data(&colors, &materials, 800, 2000);
    let translucent = palette.create_material(true);
    let texture = translucent
        .specular_transmission_texture
        .as_ref()
        .expect("translucency varies");
    assert_eq!(texture.len(), 256);
    assert_eq!(texture[5], 65535);
    assert_eq!(texture[4], 0);
    assert_eq!(translucent.specular_transmission, 1000);

    let opaque = palette.create_material(true).into_opaque();
    assert!(opaque.specular_transmission_texture.is_none());
    assert_eq!(opaque.specular_transmission, 0);
    assert_eq!(opaque.base_color_texture, translucent.base_color_texture);
}

#[test]
fn per_model_material_takes_ior_and_thickness() {
    let palette = uniform_palette();
    let m = palette.create_material(true).with_ior_thickness(1300, 4);
    assert_eq!(m.ior, 1300);
    assert_eq!(m.thickness, 4);
}
