//! The meshes that take part in the effect and the images that mask them.
//!
//! Every frame collects anew which visible meshes carry a mask, and keeps
//! one bind group per such mesh. A mesh whose mask image is not on the GPU
//! yet is bound to the fallback image.

use crate::collections::{
    id_map, id_map_clear, id_map_entries, id_map_get, id_map_insert, id_map_is_empty, id_map_new,
    id_map_retain, id_set, id_set_contains, id_set_from,
};
use crate::view::VoronoiMaterial;
use bevy::platform::collections::HashMap;
use vstd::prelude::*;

verus! {

/// The mask image of every visible mesh that takes part in the effect.
pub struct RenderVoronoiMaterials {
    materials: HashMap<u64, u64>,
}

impl View for RenderVoronoiMaterials {
    type V = Map<u64, u64>;

    closed spec fn view(&self) -> Map<u64, u64> {
        id_map(self.materials)
    }
}

/// The image that the bind group of every mesh binds.
pub struct MaskMaterialBindGroups {
    bind_groups: HashMap<u64, u64>,
}

impl View for MaskMaterialBindGroups {
    type V = Map<u64, u64>;

    closed spec fn view(&self) -> Map<u64, u64> {
        id_map(self.bind_groups)
    }
}

/// A mesh of the scene that carries a mask.
#[derive(Clone, Copy, Debug, PartialEq, Eq, Structural)]
pub struct MaterialInstance {
    /// The mesh.
    pub entity: u64,
    /// Whether any view sees the mesh.
    pub visible: bool,
    /// The mask of the mesh.
    pub material: VoronoiMaterial,
}

/// The mask images of the meshes among `instances` that are visible. Where a
/// mesh is listed more than once, its last visible listing counts.
pub open spec fn visible_materials(instances: Seq<MaterialInstance>) -> Map<u64, u64>
    decreases instances.len(),
{
    if instances.len() == 0 {
        Map::empty()
    } else {
        let rest = visible_materials(instances.drop_last());
        if instances.last().visible {
            rest.insert(instances.last().entity, instances.last().material.alpha_mask)
        } else {
            rest
        }
    }
}

/// Only visible meshes are extracted, each with the mask of a visible
/// listing; where no mesh is listed twice, exactly the visible meshes are
/// extracted, each with its own mask.
pub proof fn lemma_visible_materials(instances: Seq<MaterialInstance>)
    ensures
        forall|entity: u64| #[trigger]
            visible_materials(instances).contains_key(entity) ==> exists|i: int|
                0 <= i < instances.len() && (#[trigger] instances[i]).entity == entity
                    && instances[i].visible && visible_materials(instances)[entity]
                    == instances[i].material.alpha_mask,
        (forall|i: int, j: int|
            0 <= i < j < instances.len() ==> (#[trigger] instances[i]).entity != (
            #[trigger] instances[j]).entity) ==> forall|i: int|
            0 <= i < instances.len() ==> (visible_materials(instances).contains_key(
                (#[trigger] instances[i]).entity,
            ) == instances[i].visible) && (instances[i].visible ==> visible_materials(
                instances,
            )[instances[i].entity] == instances[i].material.alpha_mask),
    decreases instances.len(),
{
    if instances.len() > 0 {
        let rest = instances.drop_last();
        let last = instances.last();
        lemma_visible_materials(rest);
        assert forall|entity: u64| #[trigger]
            visible_materials(instances).contains_key(entity) implies exists|i: int|
            0 <= i < instances.len() && (#[trigger] instances[i]).entity == entity
                && instances[i].visible && visible_materials(instances)[entity]
                == instances[i].material.alpha_mask by {
            if last.visible && entity == last.entity {
                assert(instances[instances.len() - 1] == last);
            } else {
                assert(visible_materials(rest).contains_key(entity));
                let i = choose|i: int|
                    0 <= i < rest.len() && (#[trigger] rest[i]).entity == entity && rest[i].visible
                        && visible_materials(rest)[entity] == rest[i].material.alpha_mask;
                assert(instances[i] == rest[i]);
            }
        }
        if forall|i: int, j: int|
            0 <= i < j < instances.len() ==> (#[trigger] instances[i]).entity != (
            #[trigger] instances[j]).entity {
            assert forall|i: int, j: int| 0 <= i < j < rest.len() implies (
            #[trigger] rest[i]).entity != (#[trigger] rest[j]).entity by {
                assert(rest[i] == instances[i] && rest[j] == instances[j]);
            }
            assert forall|i: int| 0 <= i < instances.len() implies (visible_materials(
                instances,
            ).contains_key((#[trigger] instances[i]).entity) == instances[i].visible) && (
            instances[i].visible ==> visible_materials(instances)[instances[i].entity]
                == instances[i].material.alpha_mask) by {
                if i < rest.len() {
                    assert(rest[i] == instances[i]);
                    assert(instances[i].entity != instances[instances.len() - 1].entity);
                    if visible_materials(rest).contains_key(last.entity) {
                        let k = choose|k: int|
                            0 <= k < rest.len() && (#[trigger] rest[k]).entity == last.entity;
                        assert(instances[k].entity != instances[instances.len() - 1].entity);
                    }
                } else {
                    if !last.visible && visible_materials(rest).contains_key(last.entity) {
                        let k = choose|k: int|
                            0 <= k < rest.len() && (#[trigger] rest[k]).entity == last.entity;
                        assert(rest[k] == instances[k]);
                        assert(instances[k].entity != instances[instances.len() - 1].entity);
                    }
                }
            }
        }
    }
}

/// The image that the bind group of a mesh binds: its mask image if that is
/// loaded, the fallback image otherwise.
pub open spec fn bound_image(alpha_mask: u64, loaded_images: Set<u64>, fallback_image: u64) -> u64 {
    if loaded_images.contains(alpha_mask) {
        alpha_mask
    } else {
        fallback_image
    }
}

/// The image that the bind group of every mesh with a mask binds.
pub open spec fn bound_images(
    materials: Map<u64, u64>,
    loaded_images: Set<u64>,
    fallback_image: u64,
) -> Map<u64, u64> {
    Map::new(
        |entity: u64| materials.contains_key(entity),
        |entity: u64| bound_image(materials[entity], loaded_images, fallback_image),
    )
}

impl RenderVoronoiMaterials {
    /// No mesh carries a mask.
    pub fn new() -> (materials: Self)
        ensures
            materials@ == Map::<u64, u64>::empty(),
    {
        RenderVoronoiMaterials { materials: id_map_new() }
    }

    /// Whether no mesh carries a mask.
    pub fn is_empty(&self) -> (empty: bool)
        ensures
            empty == (self@ == Map::<u64, u64>::empty()),
    {
        id_map_is_empty(&self.materials)
    }

    /// The mask image of `entity`, if it carries a mask.
    pub fn get(&self, entity: u64) -> (image: Option<u64>)
        ensures
            image == if self@.contains_key(entity) {
                Some(self@[entity])
            } else {
                None
            },
    {
        match id_map_get(&self.materials, entity) {
            Some(image) => Some(*image),
            None => None,
        }
    }
}

impl MaskMaterialBindGroups {
    /// No mesh has a bind group.
    pub fn new() -> (bind_groups: Self)
        ensures
            bind_groups@ == Map::<u64, u64>::empty(),
    {
        MaskMaterialBindGroups { bind_groups: id_map_new() }
    }

    /// The image that the bind group of `entity` binds, if the mesh has a
    /// bind group.
    pub fn get(&self, entity: u64) -> (image: Option<u64>)
        ensures
            image == if self@.contains_key(entity) {
                Some(self@[entity])
            } else {
                None
            },
    {
        match id_map_get(&self.bind_groups, entity) {
            Some(image) => Some(*image),
            None => None,
        }
    }

    /// Every mesh that has a bind group, with the image that it binds, each
    /// mesh once and in no particular order.
    pub fn entries(&self) -> (entries: Vec<(u64, u64)>)
        ensures
            forall|i: int, j: int|
                0 <= i < j < entries@.len() ==> (#[trigger] entries@[i]).0 != (
                #[trigger] entries@[j]).0,
            forall|i: int|
                0 <= i < entries@.len() ==> self@.contains_key((#[trigger] entries@[i]).0)
                    && self@[entries@[i].0] == entries@[i].1,
            forall|entity: u64| #[trigger]
                self@.contains_key(entity) ==> exists|i: int|
                    0 <= i < entries@.len() && (#[trigger] entries@[i]).0 == entity,
    {
        id_map_entries(&self.bind_groups)
    }
}

/// Collects the masks of the visible meshes of this frame. What an earlier
/// frame collected is forgotten.
pub fn extract_voronoi_materials(
    render_voronoi_instances: &mut RenderVoronoiMaterials,
    query: &Vec<MaterialInstance>,
)
    ensures
        final(render_voronoi_instances)@ == visible_materials(query@),
{
    id_map_clear(&mut render_voronoi_instances.materials);
    let mut index: usize = 0;
    assert(query@.take(0) =~= Seq::<MaterialInstance>::empty());
    while index < query.len()
        invariant
            index <= query.len(),
            render_voronoi_instances@ == visible_materials(query@.take(index as int)),
        decreases query.len() - index,
    {
        assert(query@.take(index as int + 1).drop_last() =~= query@.take(index as int));
        let instance = &query[index];
        if instance.visible {
            id_map_insert(
                &mut render_voronoi_instances.materials,
                instance.entity,
                instance.material.image(),
            );
        }
        index = index + 1;
    }
    assert(query@.take(query.len() as int) =~= query@);
}

/// Brings the bind groups up to date with the masks of this frame.
///
/// `loaded_images` lists the images that are on the GPU. Afterwards exactly
/// the meshes with a mask have a bind group; it binds the mask image of the
/// mesh if that is loaded and `fallback_image` otherwise.
pub fn prepare_mask_material_bind_groups(
    loaded_images: &Vec<u64>,
    fallback_image: u64,
    voronoi_materials: &RenderVoronoiMaterials,
    bind_groups: &mut MaskMaterialBindGroups,
)
    ensures
        final(bind_groups)@ == bound_images(
            voronoi_materials@,
            loaded_images@.to_set(),
            fallback_image,
        ),
{
    let images = id_set_from(loaded_images);
    id_map_retain(&mut bind_groups.bind_groups, &voronoi_materials.materials);
    let entries = id_map_entries(&voronoi_materials.materials);
    let mut index: usize = 0;
    while index < entries.len()
        invariant
            index <= entries.len(),
            id_set(images) == loaded_images@.to_set(),
            forall|i: int|
                0 <= i < entries@.len() ==> voronoi_materials@.contains_key(
                    (#[trigger] entries@[i]).0,
                ) && voronoi_materials@[entries@[i].0] == entries@[i].1,
            forall|entity: u64| #[trigger]
                bind_groups@.contains_key(entity) ==> voronoi_materials@.contains_key(entity),
            forall|i: int|
                0 <= i < index ==> bind_groups@.contains_key((#[trigger] entries@[i]).0)
                    && bind_groups@[entries@[i].0] == bound_image(
                    entries@[i].1,
                    loaded_images@.to_set(),
                    fallback_image,
                ),
        decreases entries.len() - index,
    {
        let (entity, alpha_mask) = entries[index];
        let ghost before = bind_groups@;
        assert(voronoi_materials@.contains_key(entries@[index as int].0));
        let image = if id_set_contains(&images, alpha_mask) {
            alpha_mask
        } else {
            fallback_image
        };
        id_map_insert(&mut bind_groups.bind_groups, entity, image);
        assert forall|other: u64| #[trigger]
            bind_groups@.contains_key(other) implies voronoi_materials@.contains_key(other) by {
            if other != entity {
                assert(before.contains_key(other));
            }
        }
        index = index + 1;
    }
    proof {
        let wanted = bound_images(voronoi_materials@, loaded_images@.to_set(), fallback_image);
        assert forall|entity: u64| wanted.contains_key(entity) implies bind_groups@.contains_key(
            entity,
        ) && bind_groups@[entity] == wanted[entity] by {
            let i = choose|i: int| 0 <= i < entries@.len() && (#[trigger] entries@[i]).0 == entity;
            assert(bind_groups@.contains_key(entries@[i].0));
        }
        assert(bind_groups@ =~= wanted);
    }
}

/// What setting the bind group of a mesh came to.
#[derive(Clone, Copy, Debug, PartialEq, Eq, Structural)]
pub enum RenderCommandResult {
    /// The bind group that binds `image` was set at `index`.
    Success { index: usize, image: u64 },
    /// The mesh has no bind group: its draw is skipped.
    Skip,
}

/// The draw step that sets the bind group of a mesh's mask at index `I`.
#[derive(Clone, Copy, Debug, Default)]
pub struct SetMaskMaterialBindGroup<const I: usize>;

impl<const I: usize> SetMaskMaterialBindGroup<I> {
    /// Sets the bind group of the mesh `main_entity`, or skips the mesh if
    /// it has none.
    pub fn render(main_entity: u64, bind_groups: &MaskMaterialBindGroups) -> (result:
        RenderCommandResult)
        ensures
            result == if bind_groups@.contains_key(main_entity) {
                RenderCommandResult::Success { index: I, image: bind_groups@[main_entity] }
            } else {
                RenderCommandResult::Skip
            },
    {
        match bind_groups.get(main_entity) {
            Some(image) => RenderCommandResult::Success { index: I, image },
            None => RenderCommandResult::Skip,
        }
    }
}

} // verus!
