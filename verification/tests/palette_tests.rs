use vox_scene::palette::{MaterialTag, RawMaterial, Rgba, VoxelElement, VoxelPalette};
use vox_scene::material::{max_element, min_element};

fn color(r: u8, g: u8, b: u8) -> Rgba {
    Rgba { r, g, b, a: 255 }
}

fn plain_material() -> RawMaterial {
    RawMaterial {
        tag: MaterialTag::Other,
        emission: None,
        radiant_flux: None,
        roughness: None,
        metalness: None,
        opacity: None,
        refractive_index: None,
    }
}

#[test]
fn empty_palette_still_has_256_elements() {
    let palette = VoxelPalette::new(Vec::new());
    assert_eq!(palette.elements.len(), 256);
}

#[test]
fn full_palette_has_256_elements() {
    let mut elements = Vec::new();
    for _ in 0..256 {
        elements.push(VoxelElement::default());
    }
    let palette = VoxelPalette::new(elements);
    assert_eq!(palette.elements.len(), 256);
}

#[test]
fn oversized_palette_is_truncated_to_256_elements() {
    let mut elements = Vec::new();
    for _ in 0..300 {
        elements.push(VoxelElement::default());
    }
    let palette = VoxelPalette::new(elements);
    assert_eq!(palette.elements.len(), 256);
}

#[test]
fn short_palette_is_padded_with_defaults() {
    let mut elements = Vec::new();
    let mut custom = VoxelElement::default();
    custom.roughness = 900;
    elements.push(custom);
    let palette = VoxelPalette::new(elements);
    assert_eq!(palette.elements.len(), 256);
    assert_eq!(palette.elements[0].roughness, 900);
    assert_eq!(palette.elements[1], VoxelElement::default());
    assert_eq!(palette.elements[255], VoxelElement::default());
}

#[test]
fn palette_from_colors_keeps_colors_and_defaults() {
    let palette = VoxelPalette::new_from_colors(vec![color(10, 20, 30)]);
    assert_eq!(palette.elements.len(), 256);
    assert_eq!(palette.elements[0].color, color(10, 20, 30));
    assert_eq!(palette.elements[0].roughness, VoxelElement::default().roughness);
}

#[test]
fn emission_combines_radiant_flux_and_strength() {
    // emission 1.0, radiant flux 1.0, strength 2.0: 1.0 * (1.0 + 1.0) * 2.0 = 4.0
    let mut m = plain_material();
    m.emission = Some(1000);
    m.radiant_flux = Some(1000);
    let palette = VoxelPalette::new_from_data(&vec![color(1, 2, 3)], &vec![m], 800, 2000);
    assert_eq!(palette.elements[0].emission, 4000);
}

#[test]
fn diffuse_tag_takes_roughness_override() {
    let mut m = plain_material();
    m.tag = MaterialTag::Diffuse;
    m.roughness = Some(100);
    let palette = VoxelPalette::new_from_data(&vec![color(0, 0, 0)], &vec![m], 800, 2000);
    assert_eq!(palette.elements[0].roughness, 800);
}

#[test]
fn glass_tag_gets_refraction_index_plus_one() {
    let mut m = plain_material();
    m.tag = MaterialTag::Glass;
    m.opacity = Some(500);
    m.refractive_index = Some(300);
    let palette = VoxelPalette::new_from_data(&vec![color(0, 0, 0)], &vec![m], 800, 2000);
    assert_eq!(palette.elements[0].refraction_index, 1300);
    assert_eq!(palette.elements[0].translucency, 500);
}

#[test]
fn ior_lookup_has_exactly_the_translucent_indices() {
    // Index 200 translucent with refraction 1.3; every other index opaque.
    let mut colors = Vec::new();
    let mut materials = Vec::new();
    for i in 0..256 {
        colors.push(color(0, 0, 0));
        let mut m = plain_material();
        if i == 200 {
            m.tag = MaterialTag::Glass;
            m.opacity = Some(500);
            m.refractive_index = Some(300);
        }
        materials.push(m);
    }
    let palette = VoxelPalette::new_from_data(&colors, &materials, 800, 2000);
    let ior = palette.ior_for_voxel();
    assert_eq!(ior.get(&200u8), Some(&1300u32));
    assert_eq!(ior.len(), 1);
    assert_eq!(ior.get(&0u8), None);
    assert_eq!(ior.get(&17u8), None);
}

#[test]
fn max_and_min_element_are_exact() {
    let values = vec![5u32, 900, 7, 900, 0, 3];
    assert_eq!(max_element(&values), 900);
    assert_eq!(min_element(&values), 0);
}
