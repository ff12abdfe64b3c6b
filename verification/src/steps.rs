//! Strides of the jump-flood passes.
//!
//! A flood over a `width` x `height` target starts at half of the larger
//! dimension and halves the stride until it reaches one texel. One more pass
//! at a stride of one texel always follows.

use vstd::prelude::*;

verus! {

/// Offset, in texels and per axis, at which one flood pass samples its
/// neighbours.
#[derive(Clone, Copy, Debug, PartialEq, Eq, Structural)]
pub struct FloodStep {
    pub x: u32,
    pub y: u32,
}

/// The larger of the two dimensions of a target.
pub open spec fn max_dimension(width: nat, height: nat) -> nat {
    if width >= height {
        width
    } else {
        height
    }
}

/// The stride along one axis: the stride along the larger axis, scaled by
/// `dim / max_dim`, rounded down, and never less than one texel.
pub open spec fn axis_stride(stride: nat, dim: nat, max_dim: nat) -> nat {
    let scaled = (stride * dim) / max_dim;
    if scaled < 1 {
        1
    } else {
        scaled
    }
}

/// The step of the pass whose stride along the larger axis is `stride`.
pub open spec fn step_for_stride(stride: nat, width: nat, height: nat) -> FloodStep {
    let max_dim = max_dimension(width, height);
    FloodStep {
        x: axis_stride(stride, width, max_dim) as u32,
        y: axis_stride(stride, height, max_dim) as u32,
    }
}

/// The strides `first, first / 2, first / 4, ...` down to and including 1.
pub open spec fn halving_strides(first: nat) -> Seq<nat>
    decreases first,
{
    if first == 0 {
        Seq::empty()
    } else {
        seq![first] + halving_strides(first / 2)
    }
}

/// The steps of the halving passes that start at a stride of `first`.
pub open spec fn halving_steps(first: nat, width: nat, height: nat) -> Seq<FloodStep>
    decreases first,
{
    if first == 0 {
        Seq::empty()
    } else {
        seq![step_for_stride(first, width, height)] + halving_steps(first / 2, width, height)
    }
}

/// The step of the closing pass.
pub open spec fn unit_step() -> FloodStep {
    FloodStep { x: 1, y: 1 }
}

/// All steps of a flood over a `width` x `height` target, in the order in
/// which the passes run: the halving passes, then the closing unit pass.
pub open spec fn flood_step_seq(width: nat, height: nat) -> Seq<FloodStep> {
    halving_steps(max_dimension(width, height) / 2, width, height).push(unit_step())
}

/// `2^exp`.
pub open spec fn two_to(exp: nat) -> nat
    decreases exp,
{
    if exp == 0 {
        1
    } else {
        2 * two_to((exp - 1) as nat)
    }
}

/// The halving steps are the halving strides, each mapped to its step.
pub proof fn lemma_halving_steps_follow_strides(first: nat, width: nat, height: nat)
    ensures
        halving_steps(first, width, height).len() == halving_strides(first).len(),
        forall|i: int|
            0 <= i < halving_strides(first).len() ==> #[trigger] halving_steps(
                first,
                width,
                height,
            )[i] == step_for_stride(halving_strides(first)[i], width, height),
    decreases first,
{
    if first != 0 {
        lemma_halving_steps_follow_strides(first / 2, width, height);
    }
}

/// The strides start at `first`, each is half of the one before it, none is
/// below 1 and the last is exactly 1. Their count `n` is the number of times
/// `first` can be halved: `2^(n - 1) <= first < 2^n`.
pub proof fn lemma_halving_strides(first: nat)
    ensures
        first == 0 <==> halving_strides(first).len() == 0,
        first > 0 ==> halving_strides(first)[0] == first,
        first > 0 ==> halving_strides(first).last() == 1,
        forall|i: int| 0 <= i < halving_strides(first).len() ==> halving_strides(first)[i] >= 1,
        forall|i: int|
            0 <= i && i + 1 < halving_strides(first).len() ==> #[trigger] halving_strides(
                first,
            )[i + 1] == halving_strides(first)[i] / 2,
        first > 0 ==> two_to((halving_strides(first).len() - 1) as nat) <= first < two_to(
            halving_strides(first).len(),
        ),
    decreases first,
{
    if first != 0 {
        let rest = halving_strides(first / 2);
        let all = halving_strides(first);
        lemma_halving_strides(first / 2);
        assert(all =~= seq![first] + rest);
        assert(all.len() == rest.len() + 1);
        assert forall|i: int| 0 <= i && i + 1 < all.len() implies #[trigger] all[i + 1] == all[i]
            / 2 by {
            if i == 0 {
                assert(all[1] == rest[0]);
            } else {
                assert(all[i + 1] == rest[i]);
                assert(all[i] == rest[i - 1]);
                assert(rest[(i - 1) + 1] == rest[i - 1] / 2);
            }
        }
        if first / 2 == 0 {
            assert(first == 1);
            assert(two_to(1) == 2 * two_to(0));
        } else {
            assert(all.last() == rest.last());
            assert(two_to(all.len()) == 2 * two_to(rest.len()));
            assert(two_to((all.len() - 1) as nat) == 2 * two_to((rest.len() - 1) as nat));
        }
    }
}

/// Every flood runs its strides in strictly halving order from half of the
/// larger dimension down to 1, and ends with exactly one more pass at a step
/// of one texel per axis, whether or not the last halving pass already had
/// that step. The number of halving passes is the logarithm of the larger
/// dimension to the base 2, rounded down.
pub proof fn lemma_flood_steps_halve_then_unit(width: nat, height: nat)
    ensures
        ({
            let first = max_dimension(width, height) / 2;
            let strides = halving_strides(first);
            let steps = flood_step_seq(width, height);
            &&& steps.len() == strides.len() + 1
            &&& steps.last() == unit_step()
            &&& forall|i: int|
                0 <= i < strides.len() ==> #[trigger] steps[i] == step_for_stride(
                    strides[i],
                    width,
                    height,
                )
            &&& first > 0 ==> strides[0] == first && strides.last() == 1
            &&& forall|i: int| 0 <= i < strides.len() ==> strides[i] >= 1
            &&& forall|i: int|
                0 <= i && i + 1 < strides.len() ==> #[trigger] strides[i + 1] == strides[i] / 2
                    && strides[i + 1] < strides[i]
            &&& max_dimension(width, height) >= 2 ==> two_to(strides.len()) <= max_dimension(
                width,
                height,
            ) < two_to(strides.len() + 1)
            &&& max_dimension(width, height) < 2 ==> strides.len() == 0
        }),
{
    let first = max_dimension(width, height) / 2;
    let strides = halving_strides(first);
    lemma_halving_strides(first);
    if first > 0 {
        assert(two_to(strides.len()) == 2 * two_to((strides.len() - 1) as nat));
        assert(two_to(strides.len() + 1) == 2 * two_to(strides.len()));
    }
    lemma_halving_steps_follow_strides(first, width, height);
    assert forall|i: int| 0 <= i && i + 1 < strides.len() implies #[trigger] strides[i + 1]
        == strides[i] / 2 && strides[i + 1] < strides[i] by {
        assert(strides[i] >= 1);
    }
}

/// The stride along one axis for a pass whose stride along the larger axis is
/// `stride`.
fn axis_step(stride: u32, dim: u32, max_dim: u32) -> (step: u32)
    requires
        0 < stride <= max_dim,
        dim <= max_dim,
    ensures
        step == axis_stride(stride as nat, dim as nat, max_dim as nat),
        1 <= step <= stride,
{
    assert(0 <= stride * dim <= stride * max_dim <= 0xffff_ffff * 0xffff_ffff) by (nonlinear_arith)
        requires
            dim <= max_dim <= 0xffff_ffff,
            0 < stride <= 0xffff_ffff,
            0 <= dim,
    ;
    let product: u64 = (stride as u64) * (dim as u64);
    let scaled: u64 = product / (max_dim as u64);
    assert((stride * dim) / (max_dim as int) <= stride) by (nonlinear_arith)
        requires
            stride * dim <= stride * max_dim,
            0 < max_dim,
            0 <= stride * dim,
    ;
    if scaled < 1 {
        1
    } else {
        scaled as u32
    }
}

/// The steps of all flood passes over a `width` x `height` target, in the
/// order in which they run.
///
/// The larger dimension is halved until it reaches zero; each stride of at
/// least one texel gives a pass. The last entry is always the unit step.
pub fn flood_steps(width: u32, height: u32) -> (steps: Vec<FloodStep>)
    ensures
        steps@ == flood_step_seq(width as nat, height as nat),
{
    let max_dim: u32 = if width >= height {
        width
    } else {
        height
    };
    let mut steps: Vec<FloodStep> = Vec::new();
    let mut step: u32 = max_dim / 2;
    while step >= 1
        invariant
            max_dim == max_dimension(width as nat, height as nat),
            step <= max_dim,
            steps@ + halving_steps(step as nat, width as nat, height as nat) == halving_steps(
                (max_dim / 2) as nat,
                width as nat,
                height as nat,
            ),
        decreases step,
    {
        let ghost before = steps@;
        let x = axis_step(step, width, max_dim);
        let y = axis_step(step, height, max_dim);
        steps.push(FloodStep { x, y });
        proof {
            let rest = halving_steps((step / 2) as nat, width as nat, height as nat);
            let here = step_for_stride(step as nat, width as nat, height as nat);
            assert(steps@ + rest =~= before + (seq![here] + rest));
        }
        step = step / 2;
    }
    steps.push(FloodStep { x: 1, y: 1 });
    proof {
        assert(halving_steps(0, width as nat, height as nat) =~= Seq::empty());
        assert(steps@ =~= flood_step_seq(width as nat, height as nat));
    }
    steps
}

} // verus!
