use bevy_voronoi::draw::{PassCommand, ViewDraw, VoronoiDrawNode};
use bevy_voronoi::error::VoronoiError;
use bevy_voronoi::flood::{Seed, Texel, SAMPLES};
use bevy_voronoi::pipeline::render_view;
use bevy_voronoi::software::SurfaceStore;
use bevy_voronoi::steps::FloodStep;
use bevy_voronoi::texture::{Extent, SurfaceHandle, VoronoiTexture};

fn pair(width: u32, height: u32) -> VoronoiTexture {
    let extent = Extent { width, height };
    VoronoiTexture::new(
        SurfaceHandle { id: 1, extent },
        SurfaceHandle { id: 2, extent },
        extent,
    )
    .unwrap()
}

fn view(texture: VoronoiTexture, items: usize) -> ViewDraw {
    ViewDraw {
        phase_items: Some(items),
        texture: Some(texture),
        target: texture.extent(),
        surface_extent: texture.extent(),
        viewport: None,
        seed_pipeline_ready: true,
        flood_pipeline_ready: true,
        composite_pipeline_ready: true,
    }
}

fn seed(x: u32, y: u32) -> Seed {
    Seed { x, y }
}

fn at(texels: &Vec<Texel>, width: u32, x: u32, y: u32) -> Texel {
    texels[(y * width + x) as usize]
}

fn distance(x: u32, y: u32, seed: Seed) -> u64 {
    let dx = x as i64 - seed.x as i64;
    let dy = y as i64 - seed.y as i64;
    (dx * dx + dy * dy) as u64
}

fn flood(texture: VoronoiTexture, covered: &Vec<Seed>) -> Vec<Texel> {
    let mut store = SurfaceStore::new(&texture).unwrap();
    let result = render_view(&view(texture, 1), &mut store, covered).unwrap().unwrap();
    store.texels(&result).unwrap().clone()
}

#[test]
fn new_store_is_empty() {
    let texture = pair(3, 2);
    let store = SurfaceStore::new(&texture).unwrap();
    assert_eq!(store.extent(), Extent { width: 3, height: 2 });
    assert_eq!(*store.texels(texture.input()).unwrap(), vec![Texel::Empty; 6]);
    assert_eq!(*store.texels(texture.output()).unwrap(), vec![Texel::Empty; 6]);
    let stranger = SurfaceHandle { id: 3, extent: Extent { width: 3, height: 2 } };
    assert!(store.texels(&stranger).is_none());
    let resized = SurfaceHandle { id: 1, extent: Extent { width: 2, height: 3 } };
    assert!(store.texels(&resized).is_none());
}

#[test]
fn mask_pass_marks_the_covered_pixels_and_clips_the_rest() {
    let texture = pair(3, 2);
    let mut store = SurfaceStore::new(&texture).unwrap();
    let target = *texture.output();
    let covered = vec![seed(1, 0), seed(2, 1), seed(3, 0), seed(0, 2), seed(1, 0)];
    let command = PassCommand::Mask { target, viewport: None };
    assert_eq!(store.execute_pass(&command, &covered), Ok(()));
    let e = Texel::Empty;
    let c = Texel::Covered;
    assert_eq!(*store.texels(&target).unwrap(), vec![e, c, e, e, e, c]);
    assert_eq!(*store.texels(texture.input()).unwrap(), vec![e; 6]);
}

#[test]
fn seed_pass_stores_the_own_coordinate_of_each_covered_pixel() {
    let texture = pair(3, 2);
    let mut store = SurfaceStore::new(&texture).unwrap();
    let (a, b) = texture.surfaces();
    let covered = vec![seed(1, 0), seed(2, 1)];
    store.execute_pass(&PassCommand::Mask { target: b, viewport: None }, &covered).unwrap();
    store
        .execute_pass(&PassCommand::FloodSeed { source: b, target: a, viewport: None }, &covered)
        .unwrap();
    let e = Texel::Empty;
    assert_eq!(
        *store.texels(&a).unwrap(),
        vec![e, Texel::Nearest(seed(1, 0)), e, e, e, Texel::Nearest(seed(2, 1))]
    );
}

#[test]
fn seed_pass_ignores_what_is_not_a_mask() {
    let texture = pair(2, 1);
    let mut store = SurfaceStore::new(&texture).unwrap();
    let (a, b) = texture.surfaces();
    let covered = vec![seed(0, 0)];
    store.execute_pass(&PassCommand::Mask { target: b, viewport: None }, &covered).unwrap();
    store
        .execute_pass(&PassCommand::FloodSeed { source: b, target: a, viewport: None }, &covered)
        .unwrap();
    store
        .execute_pass(&PassCommand::FloodSeed { source: a, target: b, viewport: None }, &covered)
        .unwrap();
    assert_eq!(*store.texels(&b).unwrap(), vec![Texel::Empty, Texel::Empty]);
}

#[test]
fn flood_pass_takes_the_nearest_of_nine_samples() {
    assert_eq!(SAMPLES, 9);
    let texture = pair(5, 1);
    let mut store = SurfaceStore::new(&texture).unwrap();
    let (a, b) = texture.surfaces();
    let covered = vec![seed(0, 0), seed(4, 0)];
    store.execute_pass(&PassCommand::Mask { target: b, viewport: None }, &covered).unwrap();
    store
        .execute_pass(&PassCommand::FloodSeed { source: b, target: a, viewport: None }, &covered)
        .unwrap();
    let step = FloodStep { x: 2, y: 1 };
    store
        .execute_pass(&PassCommand::Flood { source: a, target: b, step, viewport: None }, &covered)
        .unwrap();
    let left = Texel::Nearest(seed(0, 0));
    let right = Texel::Nearest(seed(4, 0));
    // Pixel 2 sees both seeds at the same distance: the one sampled first stays.
    assert_eq!(*store.texels(&b).unwrap(), vec![left, left, left, right, right]);
}

#[test]
fn flood_pass_without_seeds_leaves_the_buffer_empty() {
    let texture = pair(4, 4);
    let mut store = SurfaceStore::new(&texture).unwrap();
    let result = render_view(&view(texture, 2), &mut store, &vec![]).unwrap().unwrap();
    assert_eq!(*store.texels(&result).unwrap(), vec![Texel::Empty; 16]);
}

#[test]
fn pass_on_a_foreign_surface_is_refused() {
    let texture = pair(2, 2);
    let mut store = SurfaceStore::new(&texture).unwrap();
    let (a, b) = texture.surfaces();
    let stranger = SurfaceHandle { id: 9, extent: Extent { width: 2, height: 2 } };
    let step = FloodStep { x: 1, y: 1 };
    let refused = vec![
        PassCommand::Mask { target: stranger, viewport: None },
        PassCommand::FloodSeed { source: a, target: stranger, viewport: None },
        PassCommand::FloodSeed { source: a, target: a, viewport: None },
        PassCommand::Flood { source: stranger, target: b, step, viewport: None },
        PassCommand::Flood { source: b, target: b, step, viewport: None },
        PassCommand::Composite { source: stranger, viewport: None },
    ];
    for command in refused {
        assert_eq!(store.execute_pass(&command, &vec![]), Err(VoronoiError::MissingResource));
    }
    assert_eq!(
        store.execute_pass(&PassCommand::Composite { source: a, viewport: None }, &vec![]),
        Ok(())
    );
}

#[test]
fn execute_stops_at_the_first_refused_pass() {
    let texture = pair(2, 1);
    let mut store = SurfaceStore::new(&texture).unwrap();
    let (a, b) = texture.surfaces();
    let stranger = SurfaceHandle { id: 9, extent: Extent { width: 2, height: 1 } };
    let commands = vec![
        PassCommand::Mask { target: b, viewport: None },
        PassCommand::FloodSeed { source: stranger, target: a, viewport: None },
        PassCommand::FloodSeed { source: b, target: a, viewport: None },
    ];
    assert_eq!(store.execute(&commands, &vec![seed(1, 0)]), Err(VoronoiError::MissingResource));
    assert_eq!(*store.texels(&b).unwrap(), vec![Texel::Empty, Texel::Covered]);
    assert_eq!(*store.texels(&a).unwrap(), vec![Texel::Empty, Texel::Empty]);
}

#[test]
fn single_seed_at_the_center_owns_every_pixel() {
    let texture = pair(512, 512);
    let mut store = SurfaceStore::new(&texture).unwrap();
    let covered = vec![seed(256, 256)];
    let draw = view(texture, 1);

    let plan = VoronoiDrawNode.run(&draw).unwrap();
    assert_eq!(plan.len(), 13);
    store.execute(&plan[..2].to_vec(), &covered).unwrap();
    let seeded = store.texels(texture.input()).unwrap();
    assert_eq!(at(seeded, 512, 256, 256), Texel::Nearest(seed(256, 256)));
    assert_eq!(seeded.iter().filter(|texel| **texel != Texel::Empty).count(), 1);

    let result = render_view(&draw, &mut store, &covered).unwrap().unwrap();
    let texels = store.texels(&result).unwrap();
    assert_eq!(texels.len(), 512 * 512);
    assert!(texels.iter().all(|texel| *texel == Texel::Nearest(seed(256, 256))));
}

#[test]
fn two_seeds_in_opposite_corners_split_the_target_along_their_bisector() {
    let first = seed(0, 0);
    let second = seed(255, 255);
    let texels = flood(pair(256, 256), &vec![first, second]);
    for y in 0..256u32 {
        for x in 0..256u32 {
            let owner = at(&texels, 256, x, y);
            assert!(owner == Texel::Nearest(first) || owner == Texel::Nearest(second));
            // The bisector is the line x + y = 255; a pixel farther than one
            // pixel from it has to belong to the nearer seed.
            let offset = x as i64 + y as i64 - 255;
            if offset * offset > 2 {
                let nearer = if offset < 0 { first } else { second };
                assert_eq!(owner, Texel::Nearest(nearer));
            }
        }
    }
}

#[test]
fn two_seed_shapes_in_opposite_corners_split_the_target_along_their_bisector() {
    let mut covered = vec![];
    for dy in 0..3u32 {
        for dx in 0..3u32 {
            covered.push(seed(dx, dy));
            covered.push(seed(253 + dx, 253 + dy));
        }
    }
    let texels = flood(pair(256, 256), &covered);
    for y in 0..256u32 {
        for x in 0..256u32 {
            let Texel::Nearest(owner) = at(&texels, 256, x, y) else {
                panic!("pixel ({x}, {y}) has no seed");
            };
            assert!(covered.contains(&owner));
            let offset = x as i64 + y as i64 - 255;
            if offset * offset > 2 {
                assert_eq!(owner.x < 3, offset < 0);
            }
        }
    }
}

#[test]
fn every_pixel_gets_a_seed_that_is_close_to_the_nearest() {
    let covered = vec![seed(3, 4), seed(40, 7), seed(20, 30), seed(63, 63), seed(0, 50)];
    let texels = flood(pair(64, 64), &covered);
    for y in 0..64u32 {
        for x in 0..64u32 {
            let Texel::Nearest(owner) = at(&texels, 64, x, y) else {
                panic!("pixel ({x}, {y}) has no seed");
            };
            assert!(covered.contains(&owner));
            if covered.contains(&seed(x, y)) {
                assert_eq!(owner, seed(x, y));
            }
            let best = covered.iter().map(|s| distance(x, y, *s)).min().unwrap();
            let got = distance(x, y, owner);
            let slack = (got as f64).sqrt() - (best as f64).sqrt();
            assert!(slack <= 1.0, "pixel ({x}, {y}) is off by {slack}");
        }
    }
}

#[test]
fn rerun_on_an_unchanged_scene_gives_identical_buffers() {
    let texture = pair(48, 32);
    let covered = vec![seed(3, 4), seed(40, 7), seed(20, 30)];
    let draw = view(texture, 3);
    let mut store = SurfaceStore::new(&texture).unwrap();
    let first_surface = render_view(&draw, &mut store, &covered).unwrap().unwrap();
    let first = store.texels(&first_surface).unwrap().clone();
    let second_surface = render_view(&draw, &mut store, &covered).unwrap().unwrap();
    let second = store.texels(&second_surface).unwrap().clone();
    assert_eq!(first_surface, second_surface);
    assert_eq!(first, second);
    let fresh = flood(texture, &covered);
    assert_eq!(first, fresh);
}

#[test]
fn view_without_participants_leaves_the_surfaces_untouched() {
    let texture = pair(4, 4);
    let mut store = SurfaceStore::new(&texture).unwrap();
    let covered = vec![seed(1, 1)];
    let result = render_view(&view(texture, 0), &mut store, &covered);
    assert_eq!(result, Ok(None));
    assert_eq!(*store.texels(texture.input()).unwrap(), vec![Texel::Empty; 16]);
    assert_eq!(*store.texels(texture.output()).unwrap(), vec![Texel::Empty; 16]);
}

#[test]
fn view_on_a_foreign_store_is_refused() {
    let texture = pair(4, 4);
    let extent = Extent { width: 4, height: 4 };
    let other = VoronoiTexture::new(
        SurfaceHandle { id: 5, extent },
        SurfaceHandle { id: 6, extent },
        extent,
    )
    .unwrap();
    let mut store = SurfaceStore::new(&other).unwrap();
    assert_eq!(
        render_view(&view(texture, 1), &mut store, &vec![seed(1, 1)]),
        Err(VoronoiError::MissingResource)
    );
    let mut missing = view(texture, 1);
    missing.phase_items = None;
    assert_eq!(
        render_view(&missing, &mut store, &vec![seed(1, 1)]),
        Err(VoronoiError::MissingResource)
    );
}

#[test]
fn samples_are_clamped_to_the_edge() {
    let texture = pair(3, 3);
    let mut store = SurfaceStore::new(&texture).unwrap();
    let (a, b) = texture.surfaces();
    let covered = vec![seed(2, 2)];
    store.execute_pass(&PassCommand::Mask { target: b, viewport: None }, &covered).unwrap();
    store
        .execute_pass(&PassCommand::FloodSeed { source: b, target: a, viewport: None }, &covered)
        .unwrap();
    let step = FloodStep { x: 5, y: 5 };
    store
        .execute_pass(&PassCommand::Flood { source: a, target: b, step, viewport: None }, &covered)
        .unwrap();
    // A step beyond the buffer lands on its edge, so every pixel reaches the
    // corner.
    assert_eq!(*store.texels(&b).unwrap(), vec![Texel::Nearest(seed(2, 2)); 9]);
}

#[test]
fn narrow_target_is_flooded_as_far_as_its_strides_reach() {
    // Seven texels in a row are flooded at strides of 3, 1 and 1.
    let texels = flood(pair(7, 1), &vec![seed(0, 0)]);
    let own = Texel::Nearest(seed(0, 0));
    assert_eq!(texels, vec![own, own, own, own, own, own, Texel::Empty]);
}

#[test]
fn nearer_seed_replaces_the_one_that_came_first() {
    let texture = pair(4, 1);
    let mut store = SurfaceStore::new(&texture).unwrap();
    let (a, b) = texture.surfaces();
    let covered = vec![seed(0, 0), seed(3, 0)];
    store.execute_pass(&PassCommand::Mask { target: b, viewport: None }, &covered).unwrap();
    store
        .execute_pass(&PassCommand::FloodSeed { source: b, target: a, viewport: None }, &covered)
        .unwrap();
    let wide = FloodStep { x: 2, y: 1 };
    store
        .execute_pass(
            &PassCommand::Flood { source: a, target: b, step: wide, viewport: None },
            &covered,
        )
        .unwrap();
    let left = Texel::Nearest(seed(0, 0));
    let right = Texel::Nearest(seed(3, 0));
    // Pixel 1 reaches the left seed through the clamped sample and the right
    // seed through the sample two texels on; the left one is nearer.
    assert_eq!(*store.texels(&b).unwrap(), vec![left, left, right, right]);
}
