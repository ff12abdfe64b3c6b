use bevy_voronoi::accuracy::check_bisector_split;
use bevy_voronoi::draw::ViewDraw;
use bevy_voronoi::flood::{Seed, Texel};
use bevy_voronoi::pipeline::render_view;
use bevy_voronoi::software::SurfaceStore;
use bevy_voronoi::texture::{Extent, SurfaceHandle, VoronoiTexture};

fn seed(x: u32, y: u32) -> Seed {
    Seed { x, y }
}

fn block(left: u32, top: u32) -> Vec<Seed> {
    let mut shape = vec![];
    for dy in 0..3 {
        for dx in 0..3 {
            shape.push(seed(left + dx, top + dy));
        }
    }
    shape
}

fn flooded(width: u32, height: u32, covered: &Vec<Seed>) -> Vec<Texel> {
    let extent = Extent { width, height };
    let texture = VoronoiTexture::new(
        SurfaceHandle { id: 1, extent },
        SurfaceHandle { id: 2, extent },
        extent,
    )
    .unwrap();
    let view = ViewDraw {
        phase_items: Some(covered.len()),
        texture: Some(texture),
        target: extent,
        surface_extent: extent,
        viewport: None,
        seed_pipeline_ready: true,
        flood_pipeline_ready: true,
        composite_pipeline_ready: true,
    };
    let mut store = SurfaceStore::new(&texture).unwrap();
    let result = render_view(&view, &mut store, covered).unwrap().unwrap();
    store.texels(&result).unwrap().clone()
}

#[test]
fn two_shapes_in_opposite_corners_split_a_256_target_within_one_pixel_of_the_bisector() {
    let first = block(0, 0);
    let second = block(253, 253);
    let mut covered = first.clone();
    covered.extend(second.iter().copied());
    let buffer = flooded(256, 256, &covered);
    let extent = Extent { width: 256, height: 256 };
    assert!(check_bisector_split(&buffer, extent, &first, &second, seed(1, 1), seed(254, 254)));
}

#[test]
fn two_seeds_split_targets_of_several_shapes_within_one_pixel_of_the_bisector() {
    for (width, height, a, b) in [
        (256u32, 256u32, seed(0, 0), seed(255, 255)),
        (256, 256, seed(255, 0), seed(0, 255)),
        (64, 64, seed(10, 50), seed(40, 3)),
        (128, 32, seed(5, 5), seed(120, 30)),
        (16, 16, seed(3, 3), seed(4, 3)),
    ] {
        let buffer = flooded(width, height, &vec![a, b]);
        let extent = Extent { width, height };
        assert!(
            check_bisector_split(&buffer, extent, &vec![a], &vec![b], a, b),
            "{width} x {height} with seeds {a:?} and {b:?}"
        );
    }
}

#[test]
fn split_away_from_the_bisector_is_refused() {
    let a = seed(0, 0);
    let b = seed(7, 0);
    let extent = Extent { width: 8, height: 1 };
    let left = Texel::Nearest(a);
    let right = Texel::Nearest(b);
    let exact = vec![left, left, left, left, right, right, right, right];
    assert!(check_bisector_split(&exact, extent, &vec![a], &vec![b], a, b));
    // Pixels 3 and 4 are half a pixel from the bisector: either seed passes.
    let shifted = vec![left, left, left, right, right, right, right, right];
    assert!(check_bisector_split(&shifted, extent, &vec![a], &vec![b], a, b));
    let other = vec![left, left, left, left, left, right, right, right];
    assert!(check_bisector_split(&other, extent, &vec![a], &vec![b], a, b));
    // Pixel 2 is a pixel and a half from it.
    let far = vec![left, left, right, right, right, right, right, right];
    assert!(!check_bisector_split(&far, extent, &vec![a], &vec![b], a, b));
    let far = vec![left, left, left, left, left, left, right, right];
    assert!(!check_bisector_split(&far, extent, &vec![a], &vec![b], a, b));
}

#[test]
fn buffer_with_a_hole_or_a_stranger_is_refused() {
    let a = seed(0, 0);
    let b = seed(3, 0);
    let extent = Extent { width: 4, height: 1 };
    let left = Texel::Nearest(a);
    let right = Texel::Nearest(b);
    let whole = vec![left, left, right, right];
    assert!(check_bisector_split(&whole, extent, &vec![a], &vec![b], a, b));
    let hole = vec![left, Texel::Empty, right, right];
    assert!(!check_bisector_split(&hole, extent, &vec![a], &vec![b], a, b));
    let raw = vec![left, Texel::Covered, right, right];
    assert!(!check_bisector_split(&raw, extent, &vec![a], &vec![b], a, b));
    let stranger = vec![left, Texel::Nearest(seed(1, 0)), right, right];
    assert!(!check_bisector_split(&stranger, extent, &vec![a], &vec![b], a, b));
    let short = vec![left, left, right];
    assert!(!check_bisector_split(&short, extent, &vec![a], &vec![b], a, b));
    assert!(!check_bisector_split(&vec![], extent, &vec![a], &vec![b], a, b));
}

#[test]
fn narrow_target_with_a_hole_does_not_pass() {
    // Seven texels in a row: the last one is out of reach of the strides.
    let a = seed(0, 0);
    let buffer = flooded(7, 1, &vec![a]);
    let extent = Extent { width: 7, height: 1 };
    assert!(!check_bisector_split(&buffer, extent, &vec![a], &vec![], a, a));
}
