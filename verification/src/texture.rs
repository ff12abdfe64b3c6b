//! The ping-pong pair of surfaces of one view.
//!
//! Every pass reads the surface that the pass before it wrote and writes the
//! other one. A flag says which of the two is read by the next pass; a flip
//! toggles it and touches no surface.

use crate::error::VoronoiError;
use vstd::prelude::*;

verus! {

/// Width and height of a surface, in texels.
#[derive(Clone, Copy, Debug, PartialEq, Eq, Structural)]
pub struct Extent {
    pub width: u32,
    pub height: u32,
}

/// One surface that the host allocated: its identity and its extent.
#[derive(Clone, Copy, Debug, PartialEq, Eq, Structural)]
pub struct SurfaceHandle {
    pub id: u64,
    pub extent: Extent,
}

/// Two surfaces of equal extent and the flag that assigns their roles.
#[derive(Clone, Copy, Debug, PartialEq, Eq, Structural)]
pub struct VoronoiTexture {
    flip: bool,
    texture_a: SurfaceHandle,
    texture_b: SurfaceHandle,
}

/// Whether two surfaces can back a ping-pong pair of the given extent: they
/// are two distinct surfaces and both have that extent.
pub open spec fn pair_fits(texture_a: SurfaceHandle, texture_b: SurfaceHandle, extent: Extent)
    -> bool {
    &&& texture_a.id != texture_b.id
    &&& texture_a.extent == extent
    &&& texture_b.extent == extent
}

impl VoronoiTexture {
    /// Every pair that exists is made of two distinct surfaces of one extent.
    #[verifier::type_invariant]
    spec fn inv(self) -> bool {
        pair_fits(self.texture_a, self.texture_b, self.texture_a.extent)
    }

    /// The pair is made of two distinct surfaces of one extent.
    pub open spec fn wf(self) -> bool {
        pair_fits(self.first(), self.second(), self.first().extent)
    }

    /// Whether the roles are swapped with respect to a fresh pair.
    pub closed spec fn flipped(self) -> bool {
        self.flip
    }

    /// The first surface of the pair.
    pub closed spec fn first(self) -> SurfaceHandle {
        self.texture_a
    }

    /// The second surface of the pair.
    pub closed spec fn second(self) -> SurfaceHandle {
        self.texture_b
    }

    /// The surface that the next pass reads.
    pub open spec fn input_surface(self) -> SurfaceHandle {
        if self.flipped() {
            self.second()
        } else {
            self.first()
        }
    }

    /// The surface that the next pass writes.
    pub open spec fn output_surface(self) -> SurfaceHandle {
        if self.flipped() {
            self.first()
        } else {
            self.second()
        }
    }

    /// The pair of a view that was just given these two surfaces: the first
    /// is read first and the second written first.
    pub closed spec fn fresh(texture_a: SurfaceHandle, texture_b: SurfaceHandle) -> VoronoiTexture {
        VoronoiTexture { flip: false, texture_a, texture_b }
    }

    /// The pair with the roles of its surfaces exchanged.
    pub closed spec fn swapped(self) -> VoronoiTexture {
        VoronoiTexture { flip: !self.flip, texture_a: self.texture_a, texture_b: self.texture_b }
    }

    /// The extent that both surfaces share.
    pub open spec fn extent_of(self) -> Extent {
        self.first().extent
    }

    /// A fresh pair is unflipped and holds the two surfaces in their order.
    pub proof fn lemma_fresh(texture_a: SurfaceHandle, texture_b: SurfaceHandle)
        ensures
            Self::fresh(texture_a, texture_b).first() == texture_a,
            Self::fresh(texture_a, texture_b).second() == texture_b,
            !Self::fresh(texture_a, texture_b).flipped(),
            Self::fresh(texture_a, texture_b).input_surface() == texture_a,
            Self::fresh(texture_a, texture_b).output_surface() == texture_b,
            Self::fresh(texture_a, texture_b).wf() <==> pair_fits(
                texture_a,
                texture_b,
                texture_a.extent,
            ),
    {
    }

    /// Exchanging the roles keeps the surfaces and toggles the flag.
    pub proof fn lemma_swapped(self)
        ensures
            self.swapped().first() == self.first(),
            self.swapped().second() == self.second(),
            self.swapped().flipped() == !self.flipped(),
            self.swapped().input_surface() == self.output_surface(),
            self.swapped().output_surface() == self.input_surface(),
            self.wf() ==> self.swapped().wf(),
    {
    }

    /// The two roles always name different surfaces of the same extent.
    pub proof fn lemma_roles_differ(self)
        requires
            self.wf(),
        ensures
            self.input_surface().id != self.output_surface().id,
            self.input_surface().extent == self.extent_of(),
            self.output_surface().extent == self.extent_of(),
    {
    }

    /// Two flips in a row give back the pair as it was: the same surface is
    /// read and the same surface is written as before them.
    pub proof fn lemma_flip_involution(self)
        ensures
            self.swapped().swapped() == self,
            self.swapped().swapped().input_surface() == self.input_surface(),
            self.swapped().swapped().output_surface() == self.output_surface(),
    {
    }

    /// Builds the pair of a view from the two surfaces that were allocated
    /// for it. The first surface is read first and the second written first.
    ///
    /// The surfaces are refused unless they are distinct and both have the
    /// extent that was asked for.
    pub fn new(texture_a: SurfaceHandle, texture_b: SurfaceHandle, extent: Extent) -> (result:
        Result<VoronoiTexture, VoronoiError>)
        ensures
            result == if pair_fits(texture_a, texture_b, extent) {
                Ok::<VoronoiTexture, VoronoiError>(Self::fresh(texture_a, texture_b))
            } else {
                Err::<VoronoiTexture, VoronoiError>(VoronoiError::AllocationFailure)
            },
            result matches Ok(texture) ==> texture.wf() && texture.extent_of() == extent,
    {
        if texture_a.id != texture_b.id && texture_a.extent == extent && texture_b.extent
            == extent {
            Ok(VoronoiTexture { flip: false, texture_a, texture_b })
        } else {
            Err(VoronoiError::AllocationFailure)
        }
    }

    /// The surface that the current pass reads.
    pub fn input(&self) -> (surface: &SurfaceHandle)
        ensures
            *surface == self.input_surface(),
            self.wf(),
    {
        proof {
            use_type_invariant(self);
        }
        if self.flip {
            &self.texture_b
        } else {
            &self.texture_a
        }
    }

    /// The surface that the current pass writes.
    pub fn output(&self) -> (surface: &SurfaceHandle)
        ensures
            *surface == self.output_surface(),
            self.wf(),
    {
        proof {
            use_type_invariant(self);
        }
        if self.flip {
            &self.texture_a
        } else {
            &self.texture_b
        }
    }

    /// Exchanges the roles of the two surfaces.
    pub fn flip(&mut self)
        ensures
            *final(self) == old(self).swapped(),
            final(self).input_surface() == old(self).output_surface(),
            final(self).output_surface() == old(self).input_surface(),
            final(self).wf(),
    {
        proof {
            use_type_invariant(&*self);
        }
        self.flip = !self.flip;
    }

    /// The two surfaces of the pair, in the order in which they were given.
    pub fn surfaces(&self) -> (pair: (SurfaceHandle, SurfaceHandle))
        ensures
            pair.0 == self.first(),
            pair.1 == self.second(),
            self.wf(),
    {
        proof {
            use_type_invariant(self);
        }
        (self.texture_a, self.texture_b)
    }

    /// The extent of both surfaces.
    pub fn extent(&self) -> (extent: Extent)
        ensures
            extent == self.extent_of(),
            self.wf(),
    {
        proof {
            use_type_invariant(self);
        }
        self.texture_a.extent
    }
}

} // verus!
