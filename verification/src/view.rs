//! What a scene says of the effect: which cameras show it, at which scale,
//! and which meshes take part in it.

use crate::texture::Extent;
use vstd::prelude::*;

verus! {

/// The ratio between the extent of a view's ping-pong surfaces and the
/// extent of its colour target.
#[derive(Clone, Copy, Debug, PartialEq, Eq, Structural)]
pub struct ViewScale {
    numerator: u32,
    denominator: u32,
}

/// `native * numerator / denominator`, rounded down, at least one texel and
/// at most what a dimension can hold.
pub open spec fn scaled_dimension(native: nat, numerator: nat, denominator: nat) -> nat {
    let scaled = (native * numerator) / denominator;
    if scaled < 1 {
        1
    } else if scaled > u32::MAX {
        u32::MAX as nat
    } else {
        scaled
    }
}

impl ViewScale {
    /// A ratio never divides by zero.
    #[verifier::type_invariant]
    spec fn inv(self) -> bool {
        self.denominator > 0
    }

    /// The number that the ratio multiplies by.
    pub closed spec fn numerator_of(self) -> nat {
        self.numerator as nat
    }

    /// The number that the ratio divides by.
    pub closed spec fn denominator_of(self) -> nat {
        self.denominator as nat
    }

    /// The ratio divides by a positive number.
    pub open spec fn wf(self) -> bool {
        self.denominator_of() > 0
    }

    /// The extent of the ping-pong surfaces for a colour target of extent
    /// `target`.
    pub open spec fn scaled_extent(self, target: Extent) -> Extent {
        Extent {
            width: scaled_dimension(
                target.width as nat,
                self.numerator_of(),
                self.denominator_of(),
            ) as u32,
            height: scaled_dimension(
                target.height as nat,
                self.numerator_of(),
                self.denominator_of(),
            ) as u32,
        }
    }

    /// The ratio `numerator / denominator`; none for a denominator of zero.
    pub fn new(numerator: u32, denominator: u32) -> (scale: Option<ViewScale>)
        ensures
            denominator == 0 <==> scale.is_none(),
            scale matches Some(scale) ==> scale.numerator_of() == numerator
                && scale.denominator_of() == denominator,
    {
        if denominator == 0 {
            None
        } else {
            Some(ViewScale { numerator, denominator })
        }
    }

    /// Half of the target's extent.
    pub fn half() -> (scale: ViewScale)
        ensures
            scale.numerator_of() == 1,
            scale.denominator_of() == 2,
    {
        ViewScale { numerator: 1, denominator: 2 }
    }

    /// One dimension of the target, scaled.
    pub fn scale_dimension(&self, native: u32) -> (scaled: u32)
        ensures
            scaled == scaled_dimension(native as nat, self.numerator_of(), self.denominator_of()),
            scaled >= 1,
            self.wf(),
    {
        proof {
            use_type_invariant(self);
        }
        assert(0 <= native * self.numerator <= 0xffff_ffff * 0xffff_ffff) by (nonlinear_arith)
            requires
                0 <= native <= 0xffff_ffff,
                0 <= self.numerator <= 0xffff_ffff,
        ;
        let product: u64 = (native as u64) * (self.numerator as u64);
        let scaled: u64 = product / (self.denominator as u64);
        if scaled < 1 {
            1
        } else if scaled > u32::MAX as u64 {
            u32::MAX
        } else {
            scaled as u32
        }
    }
}

/// The extent of the surfaces that back the ping-pong pair of a view whose
/// colour target has extent `target`: each dimension scaled by `scale`,
/// rounded down, and never less than one texel.
pub fn aux_texture_extent(target: Extent, scale: &ViewScale) -> (extent: Extent)
    ensures
        extent == scale.scaled_extent(target),
        extent.width >= 1,
        extent.height >= 1,
{
    Extent {
        width: scale.scale_dimension(target.width),
        height: scale.scale_dimension(target.height),
    }
}

/// Marks a camera whose view shows the effect.
#[derive(Clone, Copy, Debug, PartialEq, Eq, Structural)]
pub struct VoronoiView {
    /// Ratio between the ping-pong surfaces and the colour target.
    pub scale: ViewScale,
    /// The image that receives the result.
    pub target: u64,
}

/// The image that a view has before one is assigned to it.
pub const DEFAULT_IMAGE: u64 = 0;

impl Default for VoronoiView {
    /// A view at half of its target's extent, with no image assigned.
    fn default() -> (view: Self)
        ensures
            view.scale.numerator_of() == 1,
            view.scale.denominator_of() == 2,
            view.target == DEFAULT_IMAGE,
    {
        Self { scale: ViewScale::half(), target: DEFAULT_IMAGE }
    }
}

/// Marks a mesh that takes part in the mask pass, with the image whose alpha
/// masks it.
///
/// The mask is optional: a mesh that is marked without one names the default
/// image. A mesh whose image is not loaded is drawn with the fallback image
/// of the host, which masks nothing, so the mesh covers its whole shape.
#[derive(Clone, Copy, Debug, PartialEq, Eq, Structural)]
pub struct VoronoiMaterial {
    pub alpha_mask: u64,
}

impl Default for VoronoiMaterial {
    /// The material of a mesh without a mask.
    fn default() -> (material: Self)
        ensures
            material.alpha_mask == DEFAULT_IMAGE,
    {
        Self { alpha_mask: DEFAULT_IMAGE }
    }
}

impl VoronoiMaterial {
    /// The material that masks a mesh with the alpha of `alpha_mask`.
    pub fn new(alpha_mask: u64) -> (material: Self)
        ensures
            material.alpha_mask == alpha_mask,
    {
        Self { alpha_mask }
    }

    /// The image that masks the mesh.
    pub fn image(&self) -> (image: u64)
        ensures
            image == self.alpha_mask,
    {
        self.alpha_mask
    }
}

} // verus!
