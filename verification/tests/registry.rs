use bevy_voronoi::draw::{ViewDraw, VoronoiDrawNode};
use bevy_voronoi::error::VoronoiError;
use bevy_voronoi::registry::{prepare_voronoi_textures, PreparedView, VoronoiTextures};
use bevy_voronoi::texture::{Extent, SurfaceHandle, VoronoiTexture};
use bevy_voronoi::view::{aux_texture_extent, ViewScale};

fn surface(id: u64, width: u32, height: u32) -> SurfaceHandle {
    SurfaceHandle { id, extent: Extent { width, height } }
}

fn marked(view: u64, width: u32, height: u32, first: u64) -> PreparedView {
    PreparedView {
        view,
        needs_update: true,
        target: Extent { width, height },
        scale: ViewScale::half(),
        surfaces: Some((
            surface(first, width / 2, height / 2),
            surface(first + 1, width / 2, height / 2),
        )),
    }
}

fn idle(view: u64, width: u32, height: u32) -> PreparedView {
    PreparedView {
        view,
        needs_update: false,
        target: Extent { width, height },
        scale: ViewScale::half(),
        surfaces: None,
    }
}

#[test]
fn empty_registry_has_no_pair() {
    let textures = VoronoiTextures::new();
    assert!(textures.get(1).is_none());
}

#[test]
fn insert_get_and_remove() {
    let mut textures = VoronoiTextures::new();
    let extent = Extent { width: 2, height: 2 };
    let first = VoronoiTexture::new(surface(1, 2, 2), surface(2, 2, 2), extent).unwrap();
    let second = VoronoiTexture::new(surface(3, 2, 2), surface(4, 2, 2), extent).unwrap();
    assert_eq!(textures.insert(5, first), None);
    assert_eq!(textures.get(5), Some(&first));
    assert_eq!(textures.insert(5, second), Some(first));
    assert_eq!(textures.get(5), Some(&second));
    assert_eq!(textures.get(6), None);
    assert_eq!(textures.remove(6), None);
    assert_eq!(textures.remove(5), Some(second));
    assert_eq!(textures.get(5), None);
}

#[test]
fn marked_view_gets_a_fresh_pair_at_half_its_target() {
    let mut textures = VoronoiTextures::new();
    let failed = prepare_voronoi_textures(&mut textures, &vec![marked(1, 512, 256, 10)]);
    assert!(failed.is_empty());
    let texture = textures.get(1).unwrap();
    assert_eq!(*texture.input(), surface(10, 256, 128));
    assert_eq!(*texture.output(), surface(11, 256, 128));
    assert_eq!(texture.extent(), Extent { width: 256, height: 128 });
}

#[test]
fn resized_view_gets_surfaces_of_the_new_extent() {
    let mut textures = VoronoiTextures::new();
    prepare_voronoi_textures(&mut textures, &vec![marked(1, 512, 512, 10)]);
    assert_eq!(textures.get(1).unwrap().extent(), Extent { width: 256, height: 256 });
    prepare_voronoi_textures(&mut textures, &vec![marked(1, 300, 200, 20)]);
    let texture = textures.get(1).unwrap();
    assert_eq!(texture.extent(), Extent { width: 150, height: 100 });
    assert_eq!(texture.input().id, 20);
    assert_eq!(texture.output().id, 21);
}

#[test]
fn stale_surfaces_are_refused_after_a_resize() {
    let mut textures = VoronoiTextures::new();
    prepare_voronoi_textures(&mut textures, &vec![marked(1, 512, 512, 10)]);
    let mut resized = marked(1, 300, 200, 10);
    resized.surfaces = Some((surface(10, 256, 256), surface(11, 256, 256)));
    let failed = prepare_voronoi_textures(&mut textures, &vec![resized]);
    assert_eq!(failed, vec![(1, VoronoiError::AllocationFailure)]);
    assert!(textures.get(1).is_none());
}

#[test]
fn view_that_is_not_marked_keeps_its_pair() {
    let mut textures = VoronoiTextures::new();
    prepare_voronoi_textures(&mut textures, &vec![marked(1, 64, 64, 10), marked(2, 32, 32, 20)]);
    let before = *textures.get(1).unwrap();
    let failed =
        prepare_voronoi_textures(&mut textures, &vec![idle(1, 64, 64), marked(2, 32, 32, 30)]);
    assert!(failed.is_empty());
    assert_eq!(textures.get(1), Some(&before));
    assert_eq!(textures.get(2).unwrap().input().id, 30);
}

#[test]
fn view_that_is_gone_loses_its_pair() {
    let mut textures = VoronoiTextures::new();
    prepare_voronoi_textures(
        &mut textures,
        &vec![marked(1, 64, 64, 10), marked(2, 64, 64, 20), marked(3, 64, 64, 30)],
    );
    prepare_voronoi_textures(&mut textures, &vec![idle(2, 64, 64)]);
    assert!(textures.get(1).is_none());
    assert!(textures.get(2).is_some());
    assert!(textures.get(3).is_none());
    prepare_voronoi_textures(&mut textures, &vec![]);
    assert!(textures.get(2).is_none());
}

#[test]
fn failed_allocation_affects_only_its_view() {
    let mut textures = VoronoiTextures::new();
    prepare_voronoi_textures(&mut textures, &vec![marked(1, 64, 64, 10), marked(2, 64, 64, 20)]);
    let mut missing = marked(1, 64, 64, 40);
    missing.surfaces = None;
    let mut same = marked(3, 64, 64, 50);
    same.surfaces = Some((surface(50, 32, 32), surface(50, 32, 32)));
    let failed = prepare_voronoi_textures(
        &mut textures,
        &vec![missing, marked(2, 64, 64, 60), same, idle(4, 8, 8)],
    );
    assert_eq!(
        failed,
        vec![
            (1, VoronoiError::AllocationFailure),
            (3, VoronoiError::AllocationFailure),
            (4, VoronoiError::AllocationFailure),
        ]
    );
    assert!(textures.get(1).is_none());
    assert_eq!(textures.get(2).unwrap().input().id, 60);
    assert!(textures.get(3).is_none());
    assert!(textures.get(4).is_none());
}

#[test]
fn fresh_pair_is_not_flipped() {
    let mut textures = VoronoiTextures::new();
    prepare_voronoi_textures(&mut textures, &vec![marked(1, 64, 64, 10)]);
    let mut flipped = *textures.get(1).unwrap();
    flipped.flip();
    textures.insert(1, flipped);
    prepare_voronoi_textures(&mut textures, &vec![marked(1, 64, 64, 10)]);
    assert_eq!(textures.get(1).unwrap().input().id, 10);
}

#[test]
fn pipeline_runs_only_on_surfaces_of_the_current_extent() {
    let draw = |textures: &VoronoiTextures, width: u32, height: u32| {
        let target = Extent { width, height };
        VoronoiDrawNode.run(&ViewDraw {
            phase_items: Some(1),
            texture: textures.get(1).copied(),
            target,
            surface_extent: aux_texture_extent(target, &ViewScale::half()),
            viewport: None,
            seed_pipeline_ready: true,
            flood_pipeline_ready: true,
            composite_pipeline_ready: true,
        })
    };
    let mut textures = VoronoiTextures::new();
    prepare_voronoi_textures(&mut textures, &vec![marked(1, 64, 64, 10)]);
    assert!(draw(&textures, 64, 64).is_ok());
    // The target was resized, but the frame has not been prepared yet.
    assert_eq!(draw(&textures, 128, 64), Err(VoronoiError::MissingResource));
    prepare_voronoi_textures(&mut textures, &vec![marked(1, 128, 64, 20)]);
    let plan = draw(&textures, 128, 64).unwrap();
    assert_eq!(plan.len(), 11);
    assert_eq!(draw(&textures, 64, 64), Err(VoronoiError::MissingResource));
}

#[test]
fn unmarked_view_whose_target_changed_gets_new_surfaces() {
    let mut textures = VoronoiTextures::new();
    prepare_voronoi_textures(&mut textures, &vec![marked(1, 64, 64, 10), marked(2, 64, 64, 20)]);
    // Nothing marks view 1, but its target is now 128 x 64.
    let mut resized = idle(1, 128, 64);
    assert!(textures.needs_surfaces(&resized));
    assert!(!textures.needs_surfaces(&idle(2, 64, 64)));
    resized.surfaces = Some((surface(30, 64, 32), surface(31, 64, 32)));
    let failed = prepare_voronoi_textures(&mut textures, &vec![resized, idle(2, 64, 64)]);
    assert!(failed.is_empty());
    let texture = textures.get(1).unwrap();
    assert_eq!(texture.extent(), Extent { width: 64, height: 32 });
    assert_eq!(*texture.input(), surface(30, 64, 32));
    assert_eq!(*texture.output(), surface(31, 64, 32));
    assert_eq!(textures.get(2).unwrap().input().id, 20);
}

#[test]
fn unmarked_view_whose_scale_changed_gets_new_surfaces() {
    let mut textures = VoronoiTextures::new();
    prepare_voronoi_textures(&mut textures, &vec![marked(1, 64, 64, 10)]);
    let mut rescaled = idle(1, 64, 64);
    rescaled.scale = ViewScale::new(1, 4).unwrap();
    rescaled.surfaces = Some((surface(30, 16, 16), surface(31, 16, 16)));
    assert!(textures.needs_surfaces(&rescaled));
    prepare_voronoi_textures(&mut textures, &vec![rescaled]);
    assert_eq!(textures.get(1).unwrap().extent(), Extent { width: 16, height: 16 });
}

#[test]
fn stale_pair_of_an_unmarked_view_is_never_kept() {
    let mut textures = VoronoiTextures::new();
    prepare_voronoi_textures(&mut textures, &vec![marked(1, 64, 64, 10)]);
    // No surfaces were allocated for the resized view.
    let failed = prepare_voronoi_textures(&mut textures, &vec![idle(1, 128, 64)]);
    assert_eq!(failed, vec![(1, VoronoiError::AllocationFailure)]);
    assert!(textures.get(1).is_none());
    // Surfaces of the old extent do not do either.
    prepare_voronoi_textures(&mut textures, &vec![marked(1, 64, 64, 10)]);
    let mut stale = idle(1, 128, 64);
    stale.surfaces = Some((surface(10, 32, 32), surface(11, 32, 32)));
    let failed = prepare_voronoi_textures(&mut textures, &vec![stale]);
    assert_eq!(failed, vec![(1, VoronoiError::AllocationFailure)]);
    assert!(textures.get(1).is_none());
}

#[test]
fn every_pair_has_the_extent_of_its_view_after_a_frame() {
    let mut textures = VoronoiTextures::new();
    prepare_voronoi_textures(
        &mut textures,
        &vec![marked(1, 64, 64, 10), marked(2, 32, 32, 20), marked(3, 16, 16, 30)],
    );
    let mut resized = idle(2, 48, 40);
    resized.surfaces = Some((surface(40, 24, 20), surface(41, 24, 20)));
    let views = vec![idle(1, 64, 64), resized, idle(3, 20, 16), marked(4, 8, 8, 50)];
    prepare_voronoi_textures(&mut textures, &views);
    for view in &views {
        if let Some(texture) = textures.get(view.view) {
            let wanted = aux_texture_extent(view.target, &view.scale);
            assert_eq!(texture.input().extent, wanted);
            assert_eq!(texture.output().extent, wanted);
        }
    }
    assert!(textures.get(1).is_some());
    assert!(textures.get(2).is_some());
    assert!(textures.get(3).is_none());
    assert!(textures.get(4).is_some());
}

#[test]
fn view_gets_its_pair_when_it_first_appears() {
    let mut textures = VoronoiTextures::new();
    let mut fresh = idle(1, 64, 64);
    assert!(textures.needs_surfaces(&fresh));
    assert!(textures.needs_surfaces(&marked(1, 64, 64, 10)));
    fresh.surfaces = Some((surface(10, 32, 32), surface(11, 32, 32)));
    let failed = prepare_voronoi_textures(&mut textures, &vec![fresh]);
    assert!(failed.is_empty());
    assert_eq!(textures.get(1).unwrap().extent(), Extent { width: 32, height: 32 });
    assert!(!textures.needs_surfaces(&idle(1, 64, 64)));
    // Without surfaces the view is reported and has no pair.
    let failed = prepare_voronoi_textures(&mut textures, &vec![idle(1, 64, 64), idle(2, 8, 8)]);
    assert_eq!(failed, vec![(2, VoronoiError::AllocationFailure)]);
    assert!(textures.get(1).is_some());
    assert!(textures.get(2).is_none());
}

#[test]
fn surfaces_in_use_are_those_of_the_pairs_of_the_views() {
    let mut textures = VoronoiTextures::new();
    let views = vec![marked(1, 64, 64, 10), idle(2, 64, 64), marked(3, 32, 32, 30)];
    prepare_voronoi_textures(&mut textures, &views);
    assert_eq!(
        textures.surfaces_in_use(&views),
        vec![surface(10, 32, 32), surface(11, 32, 32), surface(30, 16, 16), surface(31, 16, 16)]
    );
    assert!(textures.surfaces_in_use(&vec![idle(2, 64, 64)]).is_empty());
    // The surfaces that view 1 had before it was resized are no longer in use.
    let mut resized = idle(1, 128, 64);
    resized.surfaces = Some((surface(40, 64, 32), surface(41, 64, 32)));
    let views = vec![resized];
    prepare_voronoi_textures(&mut textures, &views);
    assert_eq!(textures.surfaces_in_use(&views), vec![surface(40, 64, 32), surface(41, 64, 32)]);
}
