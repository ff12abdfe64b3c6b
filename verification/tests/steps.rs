use bevy_voronoi::steps::{flood_steps, FloodStep};

fn step(x: u32, y: u32) -> FloodStep {
    FloodStep { x, y }
}

#[test]
fn square_target_halves_down_to_one_and_repeats_one() {
    let steps = flood_steps(512, 512);
    let strides: Vec<u32> = vec![256, 128, 64, 32, 16, 8, 4, 2, 1, 1];
    let expected: Vec<FloodStep> = strides.iter().map(|s| step(*s, *s)).collect();
    assert_eq!(steps, expected);
}

#[test]
fn wide_target_scales_the_short_axis_and_floors_it_at_one() {
    let steps = flood_steps(8, 2);
    assert_eq!(steps, vec![step(4, 1), step(2, 1), step(1, 1), step(1, 1)]);
}

#[test]
fn tall_target_scales_the_short_axis() {
    let steps = flood_steps(100, 300);
    assert_eq!(
        steps,
        vec![
            step(50, 150),
            step(25, 75),
            step(12, 37),
            step(6, 18),
            step(3, 9),
            step(1, 4),
            step(1, 2),
            step(1, 1),
            step(1, 1),
        ]
    );
}

#[test]
fn empty_and_single_texel_targets_get_only_the_closing_pass() {
    assert_eq!(flood_steps(0, 0), vec![step(1, 1)]);
    assert_eq!(flood_steps(1, 1), vec![step(1, 1)]);
    assert_eq!(flood_steps(1, 0), vec![step(1, 1)]);
}

#[test]
fn largest_target_does_not_overflow() {
    let steps = flood_steps(u32::MAX, u32::MAX);
    assert_eq!(steps.len(), 32);
    assert_eq!(steps[0], step(u32::MAX / 2, u32::MAX / 2));
    assert_eq!(steps[30], step(1, 1));
    assert_eq!(steps[31], step(1, 1));
}

#[test]
fn pass_count_is_logarithmic_plus_one() {
    for exponent in 1..16u32 {
        let size = 1u32 << exponent;
        assert_eq!(flood_steps(size, size).len() as u32, exponent + 1);
        assert_eq!(flood_steps(size + 1, 3).len() as u32, exponent + 1);
    }
}
