use bevy_voronoi::material::{
    extract_voronoi_materials, prepare_mask_material_bind_groups, MaskMaterialBindGroups,
    MaterialInstance, RenderCommandResult, RenderVoronoiMaterials, SetMaskMaterialBindGroup,
};
use bevy_voronoi::view::VoronoiMaterial;

fn instance(entity: u64, visible: bool, image: u64) -> MaterialInstance {
    MaterialInstance { entity, visible, material: VoronoiMaterial::new(image) }
}

fn sorted(mut entries: Vec<(u64, u64)>) -> Vec<(u64, u64)> {
    entries.sort();
    entries
}

#[test]
fn only_visible_meshes_are_extracted() {
    let mut materials = RenderVoronoiMaterials::new();
    assert!(materials.is_empty());
    extract_voronoi_materials(
        &mut materials,
        &vec![instance(1, true, 10), instance(2, false, 20), instance(3, true, 30)],
    );
    assert!(!materials.is_empty());
    assert_eq!(materials.get(1), Some(10));
    assert_eq!(materials.get(2), None);
    assert_eq!(materials.get(3), Some(30));
}

#[test]
fn extraction_forgets_the_frame_before() {
    let mut materials = RenderVoronoiMaterials::new();
    extract_voronoi_materials(&mut materials, &vec![instance(1, true, 10), instance(2, true, 20)]);
    extract_voronoi_materials(&mut materials, &vec![instance(2, true, 21)]);
    assert_eq!(materials.get(1), None);
    assert_eq!(materials.get(2), Some(21));
    extract_voronoi_materials(&mut materials, &vec![instance(2, false, 21)]);
    assert!(materials.is_empty());
}

#[test]
fn last_visible_listing_of_a_mesh_counts() {
    let mut materials = RenderVoronoiMaterials::new();
    extract_voronoi_materials(
        &mut materials,
        &vec![instance(1, true, 10), instance(1, true, 11), instance(1, false, 12)],
    );
    assert_eq!(materials.get(1), Some(11));
}

#[test]
fn bind_groups_follow_the_materials() {
    let mut materials = RenderVoronoiMaterials::new();
    let mut bind_groups = MaskMaterialBindGroups::new();
    extract_voronoi_materials(
        &mut materials,
        &vec![instance(1, true, 10), instance(2, true, 20), instance(3, true, 30)],
    );
    prepare_mask_material_bind_groups(&vec![10, 30], 999, &materials, &mut bind_groups);
    assert_eq!(sorted(bind_groups.entries()), vec![(1, 10), (2, 999), (3, 30)]);

    extract_voronoi_materials(&mut materials, &vec![instance(2, true, 20), instance(4, true, 40)]);
    prepare_mask_material_bind_groups(&vec![20], 999, &materials, &mut bind_groups);
    assert_eq!(sorted(bind_groups.entries()), vec![(2, 20), (4, 999)]);
    assert_eq!(bind_groups.get(1), None);
    assert_eq!(bind_groups.get(2), Some(20));
    assert_eq!(bind_groups.get(4), Some(999));
}

#[test]
fn no_material_no_bind_group() {
    let materials = RenderVoronoiMaterials::new();
    let mut bind_groups = MaskMaterialBindGroups::new();
    prepare_mask_material_bind_groups(&vec![1, 2], 0, &materials, &mut bind_groups);
    assert!(bind_groups.entries().is_empty());
}

#[test]
fn render_sets_the_bind_group_or_skips_the_mesh() {
    let mut materials = RenderVoronoiMaterials::new();
    let mut bind_groups = MaskMaterialBindGroups::new();
    extract_voronoi_materials(&mut materials, &vec![instance(7, true, 70)]);
    prepare_mask_material_bind_groups(&vec![70], 999, &materials, &mut bind_groups);
    assert_eq!(
        SetMaskMaterialBindGroup::<2>::render(7, &bind_groups),
        RenderCommandResult::Success { index: 2, image: 70 }
    );
    assert_eq!(
        SetMaskMaterialBindGroup::<0>::render(7, &bind_groups),
        RenderCommandResult::Success { index: 0, image: 70 }
    );
    assert_eq!(
        SetMaskMaterialBindGroup::<2>::render(8, &bind_groups),
        RenderCommandResult::Skip
    );
}
