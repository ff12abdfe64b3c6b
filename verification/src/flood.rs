//! The three kinds of pass that fill a flood buffer, texel by texel.
//!
//! A buffer holds one texel per pixel, row by row. The mask pass marks the
//! pixels that a mesh covers. The seed pass turns every covered pixel into a
//! seed that names its own coordinate. A flood pass gives every pixel the
//! nearest of the seeds that it finds in nine samples of the buffer before
//! it: the pixel itself and its eight neighbours at the distance of the step,
//! with coordinates clamped to the edge of the buffer.

use crate::steps::FloodStep;
use crate::texture::Extent;
use vstd::arithmetic::div_mod::lemma_fundamental_div_mod_converse;
use vstd::prelude::*;

verus! {

/// The coordinate of a pixel that a mesh covers.
#[derive(Clone, Copy, Debug, PartialEq, Eq, Structural)]
pub struct Seed {
    pub x: u32,
    pub y: u32,
}

/// What one texel of a buffer holds.
#[derive(Clone, Copy, Debug, PartialEq, Eq, Structural)]
pub enum Texel {
    /// No mesh covers the pixel and no seed has reached it.
    Empty,
    /// A mesh covers the pixel.
    Covered,
    /// The nearest seed that has reached the pixel so far.
    Nearest(Seed),
}

/// Number of samples that a flood pass takes for one pixel.
pub const SAMPLES: u32 = 9;

/// Number of texels of a buffer of the given extent.
pub open spec fn texel_count(extent: Extent) -> nat {
    (extent.width * extent.height) as nat
}

/// Where the texel of pixel `(x, y)` stands in a buffer.
pub open spec fn texel_index(extent: Extent, x: int, y: int) -> int {
    y * extent.width + x
}

/// The column of the texel at `index`.
pub open spec fn column_of(extent: Extent, index: int) -> int {
    index % (extent.width as int)
}

/// The row of the texel at `index`.
pub open spec fn row_of(extent: Extent, index: int) -> int {
    index / (extent.width as int)
}

/// The pixel of the texel at `index`.
pub open spec fn pixel_of(extent: Extent, index: int) -> Seed {
    Seed { x: column_of(extent, index) as u32, y: row_of(extent, index) as u32 }
}

/// The square of the distance between pixel `(x, y)` and a seed.
pub open spec fn distance_squared(x: int, y: int, seed: Seed) -> int {
    (x - seed.x) * (x - seed.x) + (y - seed.y) * (y - seed.y)
}

/// `value`, moved to the nearest coordinate within `0..size`.
pub open spec fn clamp_coordinate(value: int, size: int) -> int {
    if value < 0 {
        0
    } else if value >= size {
        size - 1
    } else {
        value
    }
}

/// The offset of a sample along one axis: `-step`, 0 or `step` for a
/// `choice` of 0, 1 or 2.
pub open spec fn sample_offset(choice: int, step: int) -> int {
    if choice == 0 {
        -step
    } else if choice == 1 {
        0
    } else {
        step
    }
}

/// The column of sample `k` for a pixel in column `x`. The samples of a
/// pixel are numbered row by row, from the upper left neighbour (0) over the
/// pixel itself (4) to the lower right neighbour (8).
pub open spec fn sample_column(extent: Extent, x: int, step: FloodStep, k: int) -> int {
    clamp_coordinate(x + sample_offset(k % 3, step.x as int), extent.width as int)
}

/// The row of sample `k` for a pixel in row `y`.
pub open spec fn sample_row(extent: Extent, y: int, step: FloodStep, k: int) -> int {
    clamp_coordinate(y + sample_offset(k / 3, step.y as int), extent.height as int)
}

/// The texel that sample `k` of pixel `(x, y)` reads.
pub open spec fn sample(input: Seq<Texel>, extent: Extent, x: int, y: int, step: FloodStep, k: int)
    -> Texel {
    input[texel_index(
        extent,
        sample_column(extent, x, step, k),
        sample_row(extent, y, step, k),
    )]
}

/// Whether `candidate` replaces `best` for pixel `(x, y)`: it carries a seed,
/// and `best` carries none or one that is strictly farther away. A seed at
/// the same distance does not replace the one found first.
pub open spec fn replaces(candidate: Texel, best: Texel, x: int, y: int) -> bool {
    candidate matches Texel::Nearest(seed) && (best matches Texel::Nearest(held)
        ==> distance_squared(x, y, seed) < distance_squared(x, y, held))
}

/// The nearest seed among the first `count` samples of pixel `(x, y)`.
pub open spec fn nearest_among(
    input: Seq<Texel>,
    extent: Extent,
    x: int,
    y: int,
    step: FloodStep,
    count: nat,
) -> Texel
    decreases count,
{
    if count == 0 {
        Texel::Empty
    } else {
        let best = nearest_among(input, extent, x, y, step, (count - 1) as nat);
        let candidate = sample(input, extent, x, y, step, count - 1);
        if replaces(candidate, best, x, y) {
            candidate
        } else {
            best
        }
    }
}

/// What a flood pass writes for pixel `(x, y)`.
pub open spec fn flood_texel(input: Seq<Texel>, extent: Extent, x: int, y: int, step: FloodStep)
    -> Texel {
    nearest_among(input, extent, x, y, step, SAMPLES as nat)
}

/// What a flood pass at `step` writes when it reads `input`.
pub open spec fn flood_pass(input: Seq<Texel>, extent: Extent, step: FloodStep) -> Seq<Texel> {
    Seq::new(
        texel_count(extent),
        |i: int| flood_texel(input, extent, column_of(extent, i), row_of(extent, i), step),
    )
}

/// What the seed pass writes for a pixel: its own coordinate if the mask
/// covers it, nothing otherwise.
pub open spec fn seed_texel(texel: Texel, pixel: Seed) -> Texel {
    if texel is Covered {
        Texel::Nearest(pixel)
    } else {
        Texel::Empty
    }
}

/// What the seed pass writes when it reads `input`.
pub open spec fn seed_pass(input: Seq<Texel>, extent: Extent) -> Seq<Texel> {
    Seq::new(texel_count(extent), |i: int| seed_texel(input[i], pixel_of(extent, i)))
}

/// What the mask pass writes for the covered pixels `covered`. A covered
/// pixel outside the buffer is clipped.
pub open spec fn mask_pass(covered: Seq<Seed>, extent: Extent) -> Seq<Texel> {
    Seq::new(
        texel_count(extent),
        |i: int|
            if covered.contains(pixel_of(extent, i)) {
                Texel::Covered
            } else {
                Texel::Empty
            },
    )
}

/// The buffer after flood passes at the given steps, each reading what the
/// one before it wrote.
pub open spec fn flood_through(input: Seq<Texel>, extent: Extent, steps: Seq<FloodStep>) -> Seq<
    Texel,
>
    decreases steps.len(),
{
    if steps.len() == 0 {
        input
    } else {
        flood_pass(flood_through(input, extent, steps.drop_last()), extent, steps.last())
    }
}

/// The result of the whole pipeline for the covered pixels `covered`: mask,
/// seeds, then the flood passes at `steps`.
pub open spec fn jump_flood(covered: Seq<Seed>, extent: Extent, steps: Seq<FloodStep>) -> Seq<
    Texel,
> {
    flood_through(seed_pass(mask_pass(covered, extent), extent), extent, steps)
}

/// A pixel inside the buffer has its texel inside the buffer, and the texel
/// leads back to the pixel.
pub proof fn lemma_texel_index(extent: Extent, x: int, y: int)
    requires
        0 <= x < extent.width,
        0 <= y < extent.height,
    ensures
        0 <= texel_index(extent, x, y) < texel_count(extent),
        column_of(extent, texel_index(extent, x, y)) == x,
        row_of(extent, texel_index(extent, x, y)) == y,
{
    let width = extent.width as int;
    let height = extent.height as int;
    assert(0 <= y * width && y * width + width <= height * width) by (nonlinear_arith)
        requires
            0 <= y < height,
            0 < width,
    ;
    lemma_fundamental_div_mod_converse(y * width + x, width, y, x);
}

/// A texel inside the buffer belongs to a pixel inside the buffer, and the
/// pixel leads back to the texel.
pub proof fn lemma_pixel_of(extent: Extent, index: int)
    requires
        0 <= index < texel_count(extent),
    ensures
        0 <= column_of(extent, index) < extent.width,
        0 <= row_of(extent, index) < extent.height,
        texel_index(extent, column_of(extent, index), row_of(extent, index)) == index,
{
    let width = extent.width as int;
    let height = extent.height as int;
    assert(width > 0) by (nonlinear_arith)
        requires
            0 <= index < width * height,
            0 <= width,
            0 <= height,
    ;
    vstd::arithmetic::div_mod::lemma_fundamental_div_mod(index, width);
    vstd::arithmetic::div_mod::lemma_mod_bound(index, width);
    let row = index / width;
    assert(0 <= row < height) by (nonlinear_arith)
        requires
            index == width * row + (index % width),
            0 <= index % width < width,
            0 <= index < width * height,
            0 < width,
    ;
    assert(row * width == width * row) by (nonlinear_arith);
}

/// Every texel of `buffer` is empty or names one of the covered pixels
/// inside the buffer.
pub open spec fn holds_only_seeds_of(buffer: Seq<Texel>, covered: Seq<Seed>, extent: Extent)
    -> bool {
    &&& buffer.len() == texel_count(extent)
    &&& forall|i: int|
        0 <= i < buffer.len() ==> match #[trigger] buffer[i] {
            Texel::Empty => true,
            Texel::Covered => false,
            Texel::Nearest(seed) => covered.contains(seed) && seed.x < extent.width && seed.y
                < extent.height,
        }
}

/// Every covered pixel inside the buffer names itself in `buffer`.
pub open spec fn covered_own_themselves(buffer: Seq<Texel>, covered: Seq<Seed>, extent: Extent)
    -> bool {
    &&& buffer.len() == texel_count(extent)
    &&& forall|i: int|
        0 <= i < buffer.len() && covered.contains(pixel_of(extent, i)) ==> #[trigger] buffer[i]
            == Texel::Nearest(pixel_of(extent, i))
}

/// A distance is never negative, and it is zero only between a pixel and
/// itself.
pub proof fn lemma_distance(x: int, y: int, seed: Seed)
    ensures
        distance_squared(x, y, seed) >= 0,
        distance_squared(x, y, seed) == 0 <==> (seed.x == x && seed.y == y),
{
    let dx = x - seed.x;
    let dy = y - seed.y;
    assert(dx * dx >= 0 && (dx * dx == 0 <==> dx == 0)) by (nonlinear_arith);
    assert(dy * dy >= 0 && (dy * dy == 0 <==> dy == 0)) by (nonlinear_arith);
}

/// Every sample of a pixel inside the buffer reads a texel inside the buffer.
pub proof fn lemma_sample_in_buffer(extent: Extent, x: int, y: int, step: FloodStep, k: int)
    requires
        0 <= x < extent.width,
        0 <= y < extent.height,
    ensures
        0 <= texel_index(
            extent,
            sample_column(extent, x, step, k),
            sample_row(extent, y, step, k),
        ) < texel_count(extent),
{
    lemma_texel_index(extent, sample_column(extent, x, step, k), sample_row(extent, y, step, k));
}

/// The nearest seed among the samples of a pixel is one that the buffer
/// before it held: a flood pass takes seeds over and makes none.
proof fn lemma_nearest_among_keeps_seeds(
    input: Seq<Texel>,
    covered: Seq<Seed>,
    extent: Extent,
    x: int,
    y: int,
    step: FloodStep,
    count: nat,
)
    requires
        holds_only_seeds_of(input, covered, extent),
        0 <= x < extent.width,
        0 <= y < extent.height,
    ensures
        match nearest_among(input, extent, x, y, step, count) {
            Texel::Empty => true,
            Texel::Covered => false,
            Texel::Nearest(seed) => covered.contains(seed) && seed.x < extent.width && seed.y
                < extent.height,
        },
    decreases count,
{
    if count > 0 {
        lemma_nearest_among_keeps_seeds(input, covered, extent, x, y, step, (count - 1) as nat);
        lemma_sample_in_buffer(extent, x, y, step, count - 1);
        let index = texel_index(
            extent,
            sample_column(extent, x, step, count - 1),
            sample_row(extent, y, step, count - 1),
        );
        assert(sample(input, extent, x, y, step, count - 1) == input[index]);
    }
}

/// Once a pixel has sampled itself and found its own seed, no later sample
/// takes the pixel away from it.
proof fn lemma_nearest_among_keeps_self(
    input: Seq<Texel>,
    extent: Extent,
    x: int,
    y: int,
    step: FloodStep,
    count: nat,
)
    requires
        0 <= x < extent.width,
        0 <= y < extent.height,
        input[texel_index(extent, x, y)] == Texel::Nearest(Seed { x: x as u32, y: y as u32 }),
        5 <= count,
    ensures
        nearest_among(input, extent, x, y, step, count) == Texel::Nearest(
            Seed { x: x as u32, y: y as u32 },
        ),
    decreases count,
{
    let own = Seed { x: x as u32, y: y as u32 };
    lemma_distance(x, y, own);
    let best = nearest_among(input, extent, x, y, step, (count - 1) as nat);
    let candidate = sample(input, extent, x, y, step, count - 1);
    if count == 5 {
        assert(sample_column(extent, x, step, 4) == x);
        assert(sample_row(extent, y, step, 4) == y);
        assert(candidate == Texel::Nearest(own));
        if let Texel::Nearest(held) = best {
            lemma_distance(x, y, held);
        }
    } else {
        lemma_nearest_among_keeps_self(input, extent, x, y, step, (count - 1) as nat);
        if let Texel::Nearest(seed) = candidate {
            lemma_distance(x, y, seed);
        }
    }
}

/// Whether sample `k` of pixel `(x, y)` carries a seed.
pub open spec fn sample_has_seed(
    input: Seq<Texel>,
    extent: Extent,
    x: int,
    y: int,
    step: FloodStep,
    k: int,
) -> bool {
    sample(input, extent, x, y, step, k) is Nearest
}

/// The distance between pixel `(x, y)` and the seed that sample `k` carries.
pub open spec fn sample_distance(
    input: Seq<Texel>,
    extent: Extent,
    x: int,
    y: int,
    step: FloodStep,
    k: int,
) -> int {
    distance_squared(x, y, sample(input, extent, x, y, step, k)->0)
}

/// Sample `k` is the first among the first `count` samples that carries a
/// seed at the least distance: no sample carries a nearer seed, and no
/// sample before `k` carries one that is as near.
pub open spec fn is_first_minimum(
    input: Seq<Texel>,
    extent: Extent,
    x: int,
    y: int,
    step: FloodStep,
    count: nat,
    k: int,
) -> bool {
    &&& 0 <= k < count
    &&& sample_has_seed(input, extent, x, y, step, k)
    &&& forall|j: int|
        0 <= j < count && #[trigger] sample_has_seed(input, extent, x, y, step, j)
            ==> sample_distance(input, extent, x, y, step, k) <= sample_distance(
            input,
            extent,
            x,
            y,
            step,
            j,
        )
    &&& forall|j: int|
        0 <= j < k && #[trigger] sample_has_seed(input, extent, x, y, step, j) ==> sample_distance(
            input,
            extent,
            x,
            y,
            step,
            k,
        ) < sample_distance(input, extent, x, y, step, j)
}

/// What a pixel gets from its first `count` samples is the seed of the
/// first sample at the least distance, and nothing if no sample carries a
/// seed.
pub proof fn lemma_nearest_among_is_first_minimum(
    input: Seq<Texel>,
    extent: Extent,
    x: int,
    y: int,
    step: FloodStep,
    count: nat,
)
    ensures
        (forall|j: int| 0 <= j < count ==> !sample_has_seed(input, extent, x, y, step, j))
            ==> nearest_among(input, extent, x, y, step, count) == Texel::Empty,
        (exists|j: int| 0 <= j < count && sample_has_seed(input, extent, x, y, step, j))
            ==> exists|k: int|
            #[trigger] is_first_minimum(input, extent, x, y, step, count, k) && nearest_among(
                input,
                extent,
                x,
                y,
                step,
                count,
            ) == sample(input, extent, x, y, step, k),
    decreases count,
{
    if count > 0 {
        let before = (count - 1) as nat;
        lemma_nearest_among_is_first_minimum(input, extent, x, y, step, before);
        let best = nearest_among(input, extent, x, y, step, before);
        let last = count - 1;
        if exists|j: int| 0 <= j < before && sample_has_seed(input, extent, x, y, step, j) {
            let k = choose|k: int|
                #[trigger] is_first_minimum(input, extent, x, y, step, before, k) && best
                    == sample(input, extent, x, y, step, k);
            if replaces(sample(input, extent, x, y, step, last), best, x, y) {
                assert(is_first_minimum(input, extent, x, y, step, count, last)) by {
                    assert(sample_has_seed(input, extent, x, y, step, k));
                }
            } else {
                assert(is_first_minimum(input, extent, x, y, step, count, k));
            }
        } else if sample_has_seed(input, extent, x, y, step, last) {
            assert(best == Texel::Empty);
            assert(is_first_minimum(input, extent, x, y, step, count, last));
        } else {
            assert forall|j: int| 0 <= j < count implies !sample_has_seed(
                input,
                extent,
                x,
                y,
                step,
                j,
            ) by {
                if j < before {
                    assert(!sample_has_seed(input, extent, x, y, step, j));
                }
            }
        }
    }
}

/// A flood pass never moves a pixel away from its seed: a pixel that held a
/// seed before the pass holds one afterwards that is at most as far away.
pub proof fn lemma_flood_pass_never_moves_away(
    input: Seq<Texel>,
    extent: Extent,
    x: int,
    y: int,
    step: FloodStep,
)
    requires
        0 <= x < extent.width,
        0 <= y < extent.height,
        input[texel_index(extent, x, y)] is Nearest,
    ensures
        flood_texel(input, extent, x, y, step) is Nearest,
        distance_squared(x, y, flood_texel(input, extent, x, y, step)->0) <= distance_squared(
            x,
            y,
            input[texel_index(extent, x, y)]->0,
        ),
{
    assert(sample_column(extent, x, step, 4) == x);
    assert(sample_row(extent, y, step, 4) == y);
    assert(sample_has_seed(input, extent, x, y, step, 4));
    lemma_nearest_among_is_first_minimum(input, extent, x, y, step, SAMPLES as nat);
    let k = choose|k: int|
        #[trigger] is_first_minimum(input, extent, x, y, step, SAMPLES as nat, k) && nearest_among(
            input,
            extent,
            x,
            y,
            step,
            SAMPLES as nat,
        ) == sample(input, extent, x, y, step, k);
    assert(sample_distance(input, extent, x, y, step, k) <= sample_distance(
        input,
        extent,
        x,
        y,
        step,
        4,
    ));
}

/// The flood never invents a seed: after the whole pipeline every texel is
/// empty or names one of the covered pixels inside the buffer. In
/// particular, a buffer without covered pixels stays empty.
pub proof fn lemma_jump_flood_holds_only_seeds(
    covered: Seq<Seed>,
    extent: Extent,
    steps: Seq<FloodStep>,
)
    ensures
        holds_only_seeds_of(jump_flood(covered, extent, steps), covered, extent),
    decreases steps.len(),
{
    if steps.len() == 0 {
        let seeded = seed_pass(mask_pass(covered, extent), extent);
        assert forall|i: int| 0 <= i < seeded.len() implies match #[trigger] seeded[i] {
            Texel::Empty => true,
            Texel::Covered => false,
            Texel::Nearest(seed) => covered.contains(seed) && seed.x < extent.width && seed.y
                < extent.height,
        } by {
            lemma_pixel_of(extent, i);
        }
    } else {
        lemma_jump_flood_holds_only_seeds(covered, extent, steps.drop_last());
        let input = jump_flood(covered, extent, steps.drop_last());
        let output = jump_flood(covered, extent, steps);
        assert(output == flood_pass(input, extent, steps.last()));
        assert forall|i: int| 0 <= i < output.len() implies match #[trigger] output[i] {
            Texel::Empty => true,
            Texel::Covered => false,
            Texel::Nearest(seed) => covered.contains(seed) && seed.x < extent.width && seed.y
                < extent.height,
        } by {
            lemma_pixel_of(extent, i);
            lemma_nearest_among_keeps_seeds(
                input,
                covered,
                extent,
                column_of(extent, i),
                row_of(extent, i),
                steps.last(),
                SAMPLES as nat,
            );
        }
    }
}

/// A covered pixel stays its own seed: after the whole pipeline every
/// covered pixel inside the buffer names itself.
pub proof fn lemma_jump_flood_keeps_covered(
    covered: Seq<Seed>,
    extent: Extent,
    steps: Seq<FloodStep>,
)
    ensures
        covered_own_themselves(jump_flood(covered, extent, steps), covered, extent),
    decreases steps.len(),
{
    if steps.len() == 0 {
    } else {
        lemma_jump_flood_keeps_covered(covered, extent, steps.drop_last());
        let input = jump_flood(covered, extent, steps.drop_last());
        let output = jump_flood(covered, extent, steps);
        assert(output == flood_pass(input, extent, steps.last()));
        assert forall|i: int|
            0 <= i < output.len() && covered.contains(
                pixel_of(extent, i),
            ) implies #[trigger] output[i] == Texel::Nearest(pixel_of(extent, i)) by {
            lemma_pixel_of(extent, i);
            lemma_nearest_among_keeps_self(
                input,
                extent,
                column_of(extent, i),
                row_of(extent, i),
                steps.last(),
                SAMPLES as nat,
            );
        }
    }
}

/// Where the texel of pixel `(x, y)` stands in a buffer of `count` texels.
fn buffer_index(extent: Extent, x: u32, y: u32, count: usize) -> (index: usize)
    requires
        x < extent.width,
        y < extent.height,
        count == texel_count(extent),
    ensures
        index == texel_index(extent, x as int, y as int),
        index < count,
        column_of(extent, index as int) == x,
        row_of(extent, index as int) == y,
{
    proof {
        lemma_texel_index(extent, x as int, y as int);
    }
    assert(0 <= y * extent.width) by (nonlinear_arith);
    (y as usize) * (extent.width as usize) + (x as usize)
}

/// The square of the distance between pixel `(x, y)` and `seed`.
pub(crate) fn distance(x: u32, y: u32, seed: Seed) -> (squared: u128)
    ensures
        squared == distance_squared(x as int, y as int, seed),
{
    let dx: u64 = if x >= seed.x {
        (x - seed.x) as u64
    } else {
        (seed.x - x) as u64
    };
    let dy: u64 = if y >= seed.y {
        (y - seed.y) as u64
    } else {
        (seed.y - y) as u64
    };
    assert(dx * dx == (x - seed.x) * (x - seed.x) && 0 <= dx * dx <= 0xffff_ffff * 0xffff_ffff)
        by (nonlinear_arith)
        requires
            dx == x - seed.x || dx == seed.x - x,
            0 <= dx <= 0xffff_ffff,
    ;
    assert(dy * dy == (y - seed.y) * (y - seed.y) && 0 <= dy * dy <= 0xffff_ffff * 0xffff_ffff)
        by (nonlinear_arith)
        requires
            dy == y - seed.y || dy == seed.y - y,
            0 <= dy <= 0xffff_ffff,
    ;
    (dx as u128) * (dx as u128) + (dy as u128) * (dy as u128)
}

/// One coordinate of a sample: `value` moved by `-step`, 0 or `step` for a
/// `choice` of 0, 1 or 2, and clamped to `0..size`.
fn sample_coordinate(value: u32, choice: u32, step: u32, size: u32) -> (moved: u32)
    requires
        value < size,
        choice < 3,
    ensures
        moved == clamp_coordinate(value + sample_offset(choice as int, step as int), size as int),
        moved < size,
{
    if choice == 0 {
        if value >= step {
            value - step
        } else {
            0
        }
    } else if choice == 1 {
        value
    } else {
        let sum: u64 = value as u64 + step as u64;
        if sum >= size as u64 {
            size - 1
        } else {
            sum as u32
        }
    }
}

/// Whether `candidate` replaces `best` for pixel `(x, y)`.
fn is_closer(candidate: Texel, best: Texel, x: u32, y: u32) -> (better: bool)
    ensures
        better == replaces(candidate, best, x as int, y as int),
{
    match candidate {
        Texel::Nearest(seed) => match best {
            Texel::Nearest(held) => distance(x, y, seed) < distance(x, y, held),
            _ => true,
        },
        _ => false,
    }
}

/// What a flood pass writes for pixel `(x, y)`.
fn nearest_seed(input: &Vec<Texel>, extent: Extent, x: u32, y: u32, step: FloodStep) -> (best:
    Texel)
    requires
        input@.len() == texel_count(extent),
        x < extent.width,
        y < extent.height,
    ensures
        best == flood_texel(input@, extent, x as int, y as int, step),
{
    let mut best = Texel::Empty;
    let mut k: u32 = 0;
    while k < SAMPLES
        invariant
            k <= SAMPLES,
            input@.len() == texel_count(extent),
            x < extent.width,
            y < extent.height,
            best == nearest_among(input@, extent, x as int, y as int, step, k as nat),
        decreases SAMPLES - k,
    {
        let column = sample_coordinate(x, k % 3, step.x, extent.width);
        let row = sample_coordinate(y, k / 3, step.y, extent.height);
        let index = buffer_index(extent, column, row, input.len());
        let candidate = input[index];
        if is_closer(candidate, best, x, y) {
            best = candidate;
        }
        k = k + 1;
    }
    best
}

/// Runs a flood pass at `step` over `input`.
pub(crate) fn flood_texels(input: &Vec<Texel>, extent: Extent, step: FloodStep) -> (output: Vec<
    Texel,
>)
    requires
        input@.len() == texel_count(extent),
    ensures
        output@ == flood_pass(input@, extent, step),
{
    let mut output: Vec<Texel> = Vec::new();
    let mut y: u32 = 0;
    while y < extent.height
        invariant
            y <= extent.height,
            input@.len() == texel_count(extent),
            output@.len() == y * extent.width,
            forall|i: int|
                0 <= i < output@.len() ==> #[trigger] output@[i] == flood_texel(
                    input@,
                    extent,
                    column_of(extent, i),
                    row_of(extent, i),
                    step,
                ),
        decreases extent.height - y,
    {
        let mut x: u32 = 0;
        while x < extent.width
            invariant
                x <= extent.width,
                y < extent.height,
                input@.len() == texel_count(extent),
                output@.len() == y * extent.width + x,
                forall|i: int|
                    0 <= i < output@.len() ==> #[trigger] output@[i] == flood_texel(
                        input@,
                        extent,
                        column_of(extent, i),
                        row_of(extent, i),
                        step,
                    ),
            decreases extent.width - x,
        {
            proof {
                lemma_texel_index(extent, x as int, y as int);
            }
            let texel = nearest_seed(input, extent, x, y, step);
            output.push(texel);
            x = x + 1;
        }
        assert((y + 1) * extent.width == y * extent.width + extent.width) by (nonlinear_arith);
        y = y + 1;
    }
    assert(output@.len() == texel_count(extent)) by (nonlinear_arith)
        requires
            output@.len() == y * extent.width,
            y == extent.height,
    ;
    assert(output@ =~= flood_pass(input@, extent, step));
    output
}

/// Runs the seed pass over `input`.
pub(crate) fn seed_texels(input: &Vec<Texel>, extent: Extent) -> (output: Vec<Texel>)
    requires
        input@.len() == texel_count(extent),
    ensures
        output@ == seed_pass(input@, extent),
{
    let mut output: Vec<Texel> = Vec::new();
    let mut y: u32 = 0;
    while y < extent.height
        invariant
            y <= extent.height,
            input@.len() == texel_count(extent),
            output@.len() == y * extent.width,
            forall|i: int|
                0 <= i < output@.len() ==> #[trigger] output@[i] == seed_texel(
                    input@[i],
                    pixel_of(extent, i),
                ),
        decreases extent.height - y,
    {
        let mut x: u32 = 0;
        while x < extent.width
            invariant
                x <= extent.width,
                y < extent.height,
                input@.len() == texel_count(extent),
                output@.len() == y * extent.width + x,
                forall|i: int|
                    0 <= i < output@.len() ==> #[trigger] output@[i] == seed_texel(
                        input@[i],
                        pixel_of(extent, i),
                    ),
            decreases extent.width - x,
        {
            proof {
                lemma_texel_index(extent, x as int, y as int);
            }
            let texel = match input[output.len()] {
                Texel::Covered => Texel::Nearest(Seed { x, y }),
                _ => Texel::Empty,
            };
            output.push(texel);
            x = x + 1;
        }
        assert((y + 1) * extent.width == y * extent.width + extent.width) by (nonlinear_arith);
        y = y + 1;
    }
    assert(output@.len() == texel_count(extent)) by (nonlinear_arith)
        requires
            output@.len() == y * extent.width,
            y == extent.height,
    ;
    assert(output@ =~= seed_pass(input@, extent));
    output
}

/// Runs the mask pass for the covered pixels `covered` into a buffer of
/// `count` texels.
pub(crate) fn mask_texels(covered: &Vec<Seed>, extent: Extent, count: usize) -> (output: Vec<Texel>)
    requires
        count == texel_count(extent),
    ensures
        output@ == mask_pass(covered@, extent),
{
    let mut output: Vec<Texel> = Vec::new();
    let mut filled: usize = 0;
    while filled < count
        invariant
            filled <= count,
            output@.len() == filled,
            forall|i: int| 0 <= i < filled ==> #[trigger] output@[i] == Texel::Empty,
        decreases count - filled,
    {
        output.push(Texel::Empty);
        filled = filled + 1;
    }
    let mut done: usize = 0;
    assert(covered@.take(0) =~= Seq::<Seed>::empty());
    while done < covered.len()
        invariant
            done <= covered.len(),
            count == texel_count(extent),
            output@.len() == count,
            forall|i: int|
                0 <= i < count ==> #[trigger] output@[i] == if covered@.take(done as int).contains(
                    pixel_of(extent, i),
                ) {
                    Texel::Covered
                } else {
                    Texel::Empty
                },
        decreases covered.len() - done,
    {
        let seed = covered[done];
        let ghost before = output@;
        let ghost seen = covered@.take(done as int);
        let ghost next = covered@.take(done as int + 1);
        proof {
            assert(next =~= seen.push(seed));
            assert forall|pixel: Seed| next.contains(pixel) <==> (seen.contains(pixel) || pixel
                == seed) by {
                if next.contains(pixel) {
                    let j = choose|j: int| 0 <= j < next.len() && next[j] == pixel;
                    if j < done {
                        assert(seen[j] == pixel);
                    }
                }
                if seen.contains(pixel) {
                    let j = choose|j: int| 0 <= j < seen.len() && seen[j] == pixel;
                    assert(next[j] == pixel);
                }
                if pixel == seed {
                    assert(next[done as int] == pixel);
                }
            }
        }
        if seed.x < extent.width && seed.y < extent.height {
            let index = buffer_index(extent, seed.x, seed.y, count);
            output.set(index, Texel::Covered);
            proof {
                assert forall|i: int| 0 <= i < count implies #[trigger] output@[i]
                    == if next.contains(pixel_of(extent, i)) {
                    Texel::Covered
                } else {
                    Texel::Empty
                } by {
                    lemma_pixel_of(extent, i);
                    if i != index {
                        assert(output@[i] == before[i]);
                        assert(pixel_of(extent, i) != seed);
                    }
                }
            }
        } else {
            proof {
                assert forall|i: int| 0 <= i < count implies #[trigger] output@[i]
                    == if next.contains(pixel_of(extent, i)) {
                    Texel::Covered
                } else {
                    Texel::Empty
                } by {
                    lemma_pixel_of(extent, i);
                    assert(pixel_of(extent, i) != seed);
                }
            }
        }
        done = done + 1;
    }
    assert(covered@.take(covered.len() as int) =~= covered@);
    assert(output@ =~= mask_pass(covered@, extent));
    output
}

} // verus!
