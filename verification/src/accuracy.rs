//! How far the flood may be off where two shapes meet.
//!
//! A jump flood gives most pixels their nearest seed, but not all. Between
//! two shapes the pixels that it gets wrong must stay close to the line that
//! is equally far from the centres of the shapes. This module states that
//! bound and decides it for a buffer.

use crate::flood::{
    column_of, distance, distance_squared, lemma_distance, lemma_texel_index, row_of, texel_count,
    Seed, Texel,
};
use crate::texture::Extent;
use vstd::prelude::*;

verus! {

/// Whether pixel `(x, y)` lies within one pixel of the line of the points
/// that are equally far from `a` and `b`.
///
/// The distance of the pixel from that line is the difference of its squared
/// distances to `a` and `b`, divided by twice the distance between `a` and
/// `b`.
pub open spec fn near_bisector(x: int, y: int, a: Seed, b: Seed) -> bool {
    let gap = distance_squared(x, y, a) - distance_squared(x, y, b);
    gap * gap <= 4 * distance_squared(a.x as int, a.y as int, b)
}

/// Whether some pixel of `shape` is strictly nearer to pixel `(x, y)` than
/// every pixel of `other`.
pub open spec fn is_nearer(shape: Seq<Seed>, other: Seq<Seed>, x: int, y: int) -> bool {
    exists|i: int|
        0 <= i < shape.len() && forall|j: int|
            0 <= j < other.len() ==> distance_squared(x, y, #[trigger] shape[i])
                < distance_squared(x, y, #[trigger] other[j])
}

/// Whether `owner` names a pixel of the shape that is not the nearer one.
pub open spec fn owner_is_wrong(
    owner: Seed,
    x: int,
    y: int,
    first: Seq<Seed>,
    second: Seq<Seed>,
) -> bool {
    ||| second.contains(owner) && is_nearer(first, second, x, y)
    ||| first.contains(owner) && is_nearer(second, first, x, y)
}

/// What the texel of pixel `(x, y)` has to hold: a pixel of one of the two
/// shapes, and one of the nearer shape unless the pixel lies within one
/// pixel of the line that is equally far from the two centres.
pub open spec fn owner_within_bound(
    texel: Texel,
    x: int,
    y: int,
    first: Seq<Seed>,
    second: Seq<Seed>,
    first_center: Seed,
    second_center: Seed,
) -> bool {
    &&& texel is Nearest
    &&& first.contains(texel->0) || second.contains(texel->0)
    &&& owner_is_wrong(texel->0, x, y, first, second) ==> near_bisector(
        x,
        y,
        first_center,
        second_center,
    )
}

/// Whether a flood buffer splits its target between two shapes along the
/// line that is equally far from their centres: every pixel belongs to one of
/// the shapes, and every pixel that does not belong to the nearer shape lies
/// within one pixel of that line.
pub open spec fn splits_along_bisector(
    buffer: Seq<Texel>,
    extent: Extent,
    first: Seq<Seed>,
    second: Seq<Seed>,
    first_center: Seed,
    second_center: Seed,
) -> bool {
    &&& buffer.len() == texel_count(extent)
    &&& forall|i: int|
        0 <= i < buffer.len() ==> owner_within_bound(
            #[trigger] buffer[i],
            column_of(extent, i),
            row_of(extent, i),
            first,
            second,
            first_center,
            second_center,
        )
}

/// Whether `shape` holds `seed`.
fn shape_contains(shape: &Vec<Seed>, seed: Seed) -> (found: bool)
    ensures
        found == shape@.contains(seed),
{
    let mut index: usize = 0;
    while index < shape.len()
        invariant
            index <= shape.len(),
            forall|i: int| 0 <= i < index ==> shape@[i] != seed,
        decreases shape.len() - index,
    {
        if shape[index] == seed {
            return true;
        }
        index = index + 1;
    }
    false
}

/// The least distance between pixel `(x, y)` and a pixel of `shape`; none
/// for a shape without pixels.
fn nearest_distance(shape: &Vec<Seed>, x: u32, y: u32) -> (least: Option<u128>)
    ensures
        least.is_none() <==> shape@.len() == 0,
        least matches Some(least) ==> {
            &&& exists|i: int|
                0 <= i < shape@.len() && distance_squared(x as int, y as int, #[trigger] shape@[i])
                    == least
            &&& forall|j: int|
                0 <= j < shape@.len() ==> least <= distance_squared(
                    x as int,
                    y as int,
                    #[trigger] shape@[j],
                )
        },
{
    if shape.len() == 0 {
        return None;
    }
    let mut least = distance(x, y, shape[0]);
    let mut index: usize = 1;
    while index < shape.len()
        invariant
            1 <= index <= shape.len(),
            exists|i: int|
                0 <= i < index && distance_squared(x as int, y as int, #[trigger] shape@[i])
                    == least,
            forall|j: int|
                0 <= j < index ==> least <= distance_squared(
                    x as int,
                    y as int,
                    #[trigger] shape@[j],
                ),
        decreases shape.len() - index,
    {
        let candidate = distance(x, y, shape[index]);
        if candidate < least {
            least = candidate;
        }
        index = index + 1;
    }
    Some(least)
}

/// Whether some pixel of `shape` is strictly nearer to pixel `(x, y)` than
/// every pixel of `other`.
fn nearer(shape: &Vec<Seed>, other: &Vec<Seed>, x: u32, y: u32) -> (holds: bool)
    ensures
        holds == is_nearer(shape@, other@, x as int, y as int),
{
    let own = nearest_distance(shape, x, y);
    let others = nearest_distance(other, x, y);
    match own {
        None => false,
        Some(own) => match others {
            None => {
                proof {
                    let i = choose|i: int|
                        0 <= i < shape@.len() && distance_squared(
                            x as int,
                            y as int,
                            #[trigger] shape@[i],
                        ) == own;
                    assert(0 <= i < shape@.len());
                }
                true
            },
            Some(others) => {
                proof {
                    let i = choose|i: int|
                        0 <= i < shape@.len() && distance_squared(
                            x as int,
                            y as int,
                            #[trigger] shape@[i],
                        ) == own;
                    let j = choose|j: int|
                        0 <= j < other@.len() && distance_squared(
                            x as int,
                            y as int,
                            #[trigger] other@[j],
                        ) == others;
                    if own < others {
                        assert(forall|k: int|
                            0 <= k < other@.len() ==> distance_squared(
                                x as int,
                                y as int,
                                shape@[i],
                            ) < distance_squared(x as int, y as int, #[trigger] other@[k]));
                    } else if is_nearer(shape@, other@, x as int, y as int) {
                        let w = choose|w: int|
                            0 <= w < shape@.len() && forall|k: int|
                                0 <= k < other@.len() ==> distance_squared(
                                    x as int,
                                    y as int,
                                    #[trigger] shape@[w],
                                ) < distance_squared(x as int, y as int, #[trigger] other@[k]);
                        assert(distance_squared(x as int, y as int, shape@[w]) < distance_squared(
                            x as int,
                            y as int,
                            other@[j],
                        ));
                        assert(own <= distance_squared(x as int, y as int, shape@[w]));
                    }
                }
                own < others
            },
        },
    }
}

/// Whether pixel `(x, y)` lies within one pixel of the line of the points
/// that are equally far from `a` and `b`.
fn is_near_bisector(x: u32, y: u32, a: Seed, b: Seed) -> (near: bool)
    ensures
        near == near_bisector(x as int, y as int, a, b),
{
    let to_a = distance(x, y, a);
    let to_b = distance(x, y, b);
    let apart = distance(a.x, a.y, b);
    proof {
        lemma_distance(x as int, y as int, a);
        lemma_distance(x as int, y as int, b);
        lemma_distance(a.x as int, a.y as int, b);
        lemma_distance_bound(x as int, y as int, a);
        lemma_distance_bound(x as int, y as int, b);
        lemma_distance_bound(a.x as int, a.y as int, b);
    }
    let gap: u128 = if to_a >= to_b {
        to_a - to_b
    } else {
        to_b - to_a
    };
    let limit: u128 = 0x4_0000_0000;
    let ghost signed = distance_squared(x as int, y as int, a) - distance_squared(
        x as int,
        y as int,
        b,
    );
    assert(gap * gap == signed * signed) by (nonlinear_arith)
        requires
            gap == signed || gap == -signed,
    ;
    if gap >= limit {
        assert(gap * gap >= 0x4_0000_0000 * 0x4_0000_0000) by (nonlinear_arith)
            requires
                gap >= 0x4_0000_0000,
        ;
        false
    } else {
        assert(0 <= gap * gap < 0x4_0000_0000 * 0x4_0000_0000) by (nonlinear_arith)
            requires
                0 <= gap < 0x4_0000_0000,
        ;
        gap * gap <= 4 * apart
    }
}

/// A distance between two pixels is less than `2^65`.
proof fn lemma_distance_bound(x: int, y: int, seed: Seed)
    requires
        0 <= x <= 0xffff_ffff,
        0 <= y <= 0xffff_ffff,
    ensures
        distance_squared(x, y, seed) <= 2 * (0xffff_ffff * 0xffff_ffff),
{
    let dx = x - seed.x;
    let dy = y - seed.y;
    assert(dx * dx <= 0xffff_ffff * 0xffff_ffff) by (nonlinear_arith)
        requires
            -0xffff_ffff <= dx <= 0xffff_ffff,
    ;
    assert(dy * dy <= 0xffff_ffff * 0xffff_ffff) by (nonlinear_arith)
        requires
            -0xffff_ffff <= dy <= 0xffff_ffff,
    ;
}

/// Whether the texel of pixel `(x, y)` holds what it has to.
fn texel_within_bound(
    texel: Texel,
    x: u32,
    y: u32,
    first: &Vec<Seed>,
    second: &Vec<Seed>,
    first_center: Seed,
    second_center: Seed,
) -> (holds: bool)
    ensures
        holds == owner_within_bound(
            texel,
            x as int,
            y as int,
            first@,
            second@,
            first_center,
            second_center,
        ),
{
    match texel {
        Texel::Nearest(owner) => {
            let in_first = shape_contains(first, owner);
            let in_second = shape_contains(second, owner);
            if !in_first && !in_second {
                return false;
            }
            let wrong = (in_second && nearer(first, second, x, y)) || (in_first && nearer(
                second,
                first,
                x,
                y,
            ));
            !wrong || is_near_bisector(x, y, first_center, second_center)
        },
        _ => false,
    }
}

/// Decides whether a flood buffer splits its target between two shapes along
/// the line that is equally far from their centres.
///
/// `first` and `second` list the pixels of the two shapes. The buffer passes
/// if it has one texel per pixel, every pixel holds a pixel of one of the
/// shapes, and every pixel that holds a pixel of the farther shape lies
/// within one pixel of that line.
pub fn check_bisector_split(
    buffer: &Vec<Texel>,
    extent: Extent,
    first: &Vec<Seed>,
    second: &Vec<Seed>,
    first_center: Seed,
    second_center: Seed,
) -> (holds: bool)
    ensures
        holds == splits_along_bisector(
            buffer@,
            extent,
            first@,
            second@,
            first_center,
            second_center,
        ),
{
    assert(0 <= extent.width * extent.height <= 0xffff_ffff * 0xffff_ffff) by (nonlinear_arith)
        requires
            0 <= extent.width <= 0xffff_ffff,
            0 <= extent.height <= 0xffff_ffff,
    ;
    let count: u64 = (extent.width as u64) * (extent.height as u64);
    if buffer.len() as u64 != count {
        return false;
    }
    let mut index: usize = 0;
    let mut y: u32 = 0;
    while y < extent.height
        invariant
            y <= extent.height,
            buffer@.len() == texel_count(extent),
            index == y * extent.width,
            index <= buffer@.len(),
            forall|i: int|
                0 <= i < index ==> owner_within_bound(
                    #[trigger] buffer@[i],
                    column_of(extent, i),
                    row_of(extent, i),
                    first@,
                    second@,
                    first_center,
                    second_center,
                ),
        decreases extent.height - y,
    {
        let mut x: u32 = 0;
        while x < extent.width
            invariant
                x <= extent.width,
                y < extent.height,
                buffer@.len() == texel_count(extent),
                index == y * extent.width + x,
                index <= buffer@.len(),
                forall|i: int|
                    0 <= i < index ==> owner_within_bound(
                        #[trigger] buffer@[i],
                        column_of(extent, i),
                        row_of(extent, i),
                        first@,
                        second@,
                        first_center,
                        second_center,
                    ),
            decreases extent.width - x,
        {
            proof {
                lemma_texel_index(extent, x as int, y as int);
            }
            assert(index < buffer.len());
            if !texel_within_bound(
                buffer[index],
                x,
                y,
                first,
                second,
                first_center,
                second_center,
            ) {
                return false;
            }
            index = index + 1;
            x = x + 1;
        }
        assert((y + 1) * extent.width == y * extent.width + extent.width) by (nonlinear_arith);
        y = y + 1;
    }
    assert(index == texel_count(extent)) by (nonlinear_arith)
        requires
            index == y * extent.width,
            y == extent.height,
    ;
    true
}

} // verus!
