//! The passes of a view, carried out on buffers in memory.
//!
//! A store holds one buffer of texels for each surface of a ping-pong pair
//! and carries out the passes that the draw node decided. It shows what the
//! recorded passes compute, and serves as the reference for the surfaces that
//! the GPU fills.

use crate::draw::PassCommand;
use crate::error::VoronoiError;
use crate::flood::{
    flood_pass, flood_texels, mask_pass, mask_texels, seed_pass, seed_texels, texel_count, Seed,
    Texel,
};
use crate::texture::{Extent, SurfaceHandle, VoronoiTexture};
use vstd::prelude::*;

verus! {

/// The buffers of the two surfaces of one ping-pong pair.
pub struct SurfaceStore {
    first: SurfaceHandle,
    second: SurfaceHandle,
    texels_first: Vec<Texel>,
    texels_second: Vec<Texel>,
}

/// What the surfaces hold after a pass was carried out on surfaces that held
/// `contents`. A pass writes the whole of its target and nothing else.
pub open spec fn applied(
    contents: Map<u64, Seq<Texel>>,
    command: PassCommand,
    covered: Seq<Seed>,
    extent: Extent,
) -> Map<u64, Seq<Texel>> {
    match command {
        PassCommand::Mask { target, .. } => contents.insert(target.id, mask_pass(covered, extent)),
        PassCommand::FloodSeed { source, target, .. } => contents.insert(
            target.id,
            seed_pass(contents[source.id], extent),
        ),
        PassCommand::Flood { source, target, step, .. } => contents.insert(
            target.id,
            flood_pass(contents[source.id], extent, step),
        ),
        PassCommand::Composite { .. } => contents,
    }
}

/// What the surfaces hold after the given passes were carried out in order.
pub open spec fn applied_all(
    contents: Map<u64, Seq<Texel>>,
    commands: Seq<PassCommand>,
    covered: Seq<Seed>,
    extent: Extent,
) -> Map<u64, Seq<Texel>>
    decreases commands.len(),
{
    if commands.len() == 0 {
        contents
    } else {
        applied(
            applied_all(contents, commands.drop_last(), covered, extent),
            commands.last(),
            covered,
            extent,
        )
    }
}

/// A buffer of the given extent in which every texel is empty.
pub open spec fn blank(extent: Extent) -> Seq<Texel> {
    Seq::new(texel_count(extent), |i: int| Texel::Empty)
}

impl SurfaceStore {
    /// The two surfaces are distinct, of one extent, and each has a buffer
    /// with one texel per pixel.
    #[verifier::type_invariant]
    spec fn inv(self) -> bool {
        &&& self.first.id != self.second.id
        &&& self.first.extent == self.second.extent
        &&& self.texels_first@.len() == texel_count(self.first.extent)
        &&& self.texels_second@.len() == texel_count(self.first.extent)
    }

    /// The first surface of the pair that the store backs.
    pub closed spec fn first_surface(self) -> SurfaceHandle {
        self.first
    }

    /// The second surface of the pair that the store backs.
    pub closed spec fn second_surface(self) -> SurfaceHandle {
        self.second
    }

    /// The extent of both surfaces.
    pub open spec fn extent_of(self) -> Extent {
        self.first_surface().extent
    }

    /// The texels of each surface, by the surface's identity.
    pub closed spec fn contents(self) -> Map<u64, Seq<Texel>> {
        map![self.first.id => self.texels_first@, self.second.id => self.texels_second@]
    }

    /// The store is well formed: what its type always guarantees.
    pub closed spec fn wf(self) -> bool {
        self.inv()
    }

    /// Whether the store backs `surface`.
    pub open spec fn holds(self, surface: SurfaceHandle) -> bool {
        surface == self.first_surface() || surface == self.second_surface()
    }

    /// Whether the store can carry out `command`: it backs every surface
    /// that the pass names, and the pass does not read what it writes.
    pub open spec fn can_execute(self, command: PassCommand) -> bool {
        match command {
            PassCommand::Mask { target, .. } => self.holds(target),
            PassCommand::FloodSeed { source, target, .. } => self.holds(source) && self.holds(
                target,
            ) && source.id != target.id,
            PassCommand::Flood { source, target, .. } => self.holds(source) && self.holds(target)
                && source.id != target.id,
            PassCommand::Composite { source, .. } => self.holds(source),
        }
    }

    /// Number of passes at the head of `commands` that the store can carry
    /// out.
    pub open spec fn executable_prefix(self, commands: Seq<PassCommand>) -> nat
        decreases commands.len(),
    {
        if commands.len() == 0 {
            0
        } else {
            let before = self.executable_prefix(commands.drop_last());
            if before == commands.len() - 1 && self.can_execute(commands.last()) {
                commands.len()
            } else {
                before
            }
        }
    }

    /// The store backs two distinct surfaces, with a buffer for each.
    pub proof fn lemma_contents(self)
        requires
            self.wf(),
        ensures
            self.first_surface().id != self.second_surface().id,
            self.first_surface().extent == self.second_surface().extent,
            self.contents().dom() == set![self.first_surface().id, self.second_surface().id],
            self.contents()[self.first_surface().id].len() == texel_count(self.extent_of()),
            self.contents()[self.second_surface().id].len() == texel_count(self.extent_of()),
    {
        assert(self.contents().dom() =~= set![self.first.id, self.second.id]);
    }

    /// Buffers for the two surfaces of `texture`, with every texel empty.
    /// None if the surfaces have more texels than a buffer can hold.
    pub fn new(texture: &VoronoiTexture) -> (store: Option<SurfaceStore>)
        ensures
            texel_count(texture.extent_of()) > usize::MAX <==> store.is_none(),
            store matches Some(store) ==> {
                &&& store.wf()
                &&& store.first_surface() == texture.first()
                &&& store.second_surface() == texture.second()
                &&& store.contents() == map![
                    texture.first().id => blank(texture.extent_of()),
                    texture.second().id => blank(texture.extent_of()),
                ]
            },
    {
        let (first, second) = texture.surfaces();
        let extent = first.extent;
        assert(0 <= extent.width * extent.height <= 0xffff_ffff * 0xffff_ffff) by (nonlinear_arith)
            requires
                0 <= extent.width <= 0xffff_ffff,
                0 <= extent.height <= 0xffff_ffff,
        ;
        let count: u64 = (extent.width as u64) * (extent.height as u64);
        if count > usize::MAX as u64 {
            return None;
        }
        let empty: Vec<Seed> = Vec::new();
        let texels_first = mask_texels(&empty, extent, count as usize);
        let texels_second = mask_texels(&empty, extent, count as usize);
        proof {
            assert(texels_first@ =~= blank(extent));
            assert(texels_second@ =~= blank(extent));
        }
        Some(SurfaceStore { first, second, texels_first, texels_second })
    }

    /// The extent of both surfaces.
    pub fn extent(&self) -> (extent: Extent)
        ensures
            extent == self.extent_of(),
            self.wf(),
    {
        proof {
            use_type_invariant(self);
        }
        self.first.extent
    }

    /// The texels of `surface`, row by row, if the store backs it.
    pub fn texels(&self, surface: &SurfaceHandle) -> (texels: Option<&Vec<Texel>>)
        ensures
            self.wf(),
            self.holds(*surface) <==> texels.is_some(),
            texels matches Some(texels) ==> texels@ == self.contents()[surface.id],
    {
        proof {
            use_type_invariant(self);
        }
        if *surface == self.first {
            Some(&self.texels_first)
        } else if *surface == self.second {
            Some(&self.texels_second)
        } else {
            None
        }
    }

    /// Carries out one pass. `covered` lists the pixels that the meshes of
    /// the mask phase cover.
    ///
    /// A pass that names a surface that the store does not back, or that
    /// reads the surface it writes, is refused, and the store stays as it
    /// is. A viewport is not taken into account: every pass fills its whole
    /// target.
    pub fn execute_pass(&mut self, command: &PassCommand, covered: &Vec<Seed>) -> (result: Result<
        (),
        VoronoiError,
    >)
        ensures
            final(self).wf(),
            final(self).first_surface() == old(self).first_surface(),
            final(self).second_surface() == old(self).second_surface(),
            old(self).can_execute(*command) ==> result.is_ok() && final(self).contents() == applied(
                old(self).contents(),
                *command,
                covered@,
                old(self).extent_of(),
            ),
            !old(self).can_execute(*command) ==> result == Err::<(), VoronoiError>(
                VoronoiError::MissingResource,
            ) && final(self).contents() == old(self).contents(),
    {
        proof {
            use_type_invariant(&*self);
        }
        let extent = self.first.extent;
        match *command {
            PassCommand::Mask { target, .. } => {
                if target == self.first {
                    let output = mask_texels(covered, extent, self.texels_first.len());
                    self.texels_first = output;
                } else if target == self.second {
                    let output = mask_texels(covered, extent, self.texels_second.len());
                    self.texels_second = output;
                } else {
                    return Err(VoronoiError::MissingResource);
                }
            },
            PassCommand::FloodSeed { source, target, .. } => {
                if source == self.first && target == self.second {
                    let output = seed_texels(&self.texels_first, extent);
                    self.texels_second = output;
                } else if source == self.second && target == self.first {
                    let output = seed_texels(&self.texels_second, extent);
                    self.texels_first = output;
                } else {
                    return Err(VoronoiError::MissingResource);
                }
            },
            PassCommand::Flood { source, target, step, .. } => {
                if source == self.first && target == self.second {
                    let output = flood_texels(&self.texels_first, extent, step);
                    self.texels_second = output;
                } else if source == self.second && target == self.first {
                    let output = flood_texels(&self.texels_second, extent, step);
                    self.texels_first = output;
                } else {
                    return Err(VoronoiError::MissingResource);
                }
            },
            PassCommand::Composite { source, .. } => {
                if !(source == self.first || source == self.second) {
                    return Err(VoronoiError::MissingResource);
                }
            },
        }
        assert(self.contents() =~= applied(
            old(self).contents(),
            *command,
            covered@,
            old(self).extent_of(),
        ));
        Ok(())
    }

    /// Carries out the given passes in order and stops at the first that is
    /// refused.
    pub fn execute(&mut self, commands: &Vec<PassCommand>, covered: &Vec<Seed>) -> (result: Result<
        (),
        VoronoiError,
    >)
        ensures
            final(self).wf(),
            final(self).first_surface() == old(self).first_surface(),
            final(self).second_surface() == old(self).second_surface(),
            final(self).contents() == applied_all(
                old(self).contents(),
                commands@.take(old(self).executable_prefix(commands@) as int),
                covered@,
                old(self).extent_of(),
            ),
            old(self).executable_prefix(commands@) <= commands@.len(),
            result == if old(self).executable_prefix(commands@) == commands@.len() {
                Ok::<(), VoronoiError>(())
            } else {
                Err::<(), VoronoiError>(VoronoiError::MissingResource)
            },
    {
        proof {
            use_type_invariant(&*self);
        }
        let mut index: usize = 0;
        assert(commands@.take(0) =~= Seq::<PassCommand>::empty());
        while index < commands.len()
            invariant
                index <= commands.len(),
                self.wf(),
                self.first_surface() == old(self).first_surface(),
                self.second_surface() == old(self).second_surface(),
                old(self).executable_prefix(commands@.take(index as int)) == index,
                self.contents() == applied_all(
                    old(self).contents(),
                    commands@.take(index as int),
                    covered@,
                    old(self).extent_of(),
                ),
            decreases commands.len() - index,
        {
            proof {
                assert(commands@.take(index as int + 1).drop_last() =~= commands@.take(
                    index as int,
                ));
            }
            match self.execute_pass(&commands[index], covered) {
                Ok(()) => {},
                Err(reason) => {
                    proof {
                        old(self).lemma_prefix_stops(commands@, index as int);
                    }
                    return Err(reason);
                },
            }
            index = index + 1;
        }
        assert(commands@.take(commands.len() as int) =~= commands@);
        Ok(())
    }

    /// Once a pass is refused, the passes after it do not count.
    pub proof fn lemma_prefix_stops(self, commands: Seq<PassCommand>, index: int)
        requires
            0 <= index < commands.len(),
            self.executable_prefix(commands.take(index)) == index,
            !self.can_execute(commands[index]),
        ensures
            self.executable_prefix(commands) == index,
        decreases commands.len(),
    {
        if commands.len() == index + 1 {
            assert(commands.drop_last() =~= commands.take(index));
        } else {
            assert(commands.drop_last().take(index) =~= commands.take(index));
            self.lemma_prefix_stops(commands.drop_last(), index);
        }
    }
}

} // verus!
