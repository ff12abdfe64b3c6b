//! The passes of one view in one frame, and the order in which they run.
//!
//! The host records the GPU work; this module decides what is recorded. A
//! view whose pipeline runs gets, in this order: the mask pass, the seed
//! pass, the flood passes by halving strides, the closing flood pass at a
//! stride of one texel, and the composite pass. Each of the first four kinds
//! writes the surface that the next pass reads.

use crate::error::VoronoiError;
use crate::steps::{flood_step_seq, flood_steps, FloodStep};
use crate::texture::{Extent, SurfaceHandle, VoronoiTexture};
use vstd::prelude::*;

verus! {

/// The rectangle of the target to which a camera restricts its passes.
#[derive(Clone, Copy, Debug, PartialEq, Eq, Structural)]
pub struct Viewport {
    pub x: u32,
    pub y: u32,
    pub width: u32,
    pub height: u32,
}

/// One pass for the host to record.
///
/// `source` is the surface that the pass samples and `target` the surface
/// that it writes. A pass with `viewport` set is restricted to that
/// rectangle.
#[derive(Clone, Copy, Debug, PartialEq, Eq)]
pub enum PassCommand {
    /// Rasterizes the queued meshes of the view into `target`.
    Mask { target: SurfaceHandle, viewport: Option<Viewport> },
    /// Turns the mask in `source` into seeds in `target`.
    FloodSeed { source: SurfaceHandle, target: SurfaceHandle, viewport: Option<Viewport> },
    /// Propagates the nearest seed from `source` into `target`, sampling at
    /// offsets of `step`.
    Flood {
        source: SurfaceHandle,
        target: SurfaceHandle,
        step: FloodStep,
        viewport: Option<Viewport>,
    },
    /// Draws the flood result in `source` onto the view's colour target.
    Composite { source: SurfaceHandle, viewport: Option<Viewport> },
}

/// Number of vertices of the triangle that covers the whole target.
pub const FULLSCREEN_VERTICES: u32 = 3;

impl PassCommand {
    /// Whether the pass writes the view's colour target.
    pub open spec fn writes_color_target(self) -> bool {
        self is Composite
    }

    /// The ping-pong surface that the pass writes, if it writes one.
    pub open spec fn written_surface(self) -> Option<SurfaceHandle> {
        match self {
            PassCommand::Mask { target, .. } => Some(target),
            PassCommand::FloodSeed { target, .. } => Some(target),
            PassCommand::Flood { target, .. } => Some(target),
            PassCommand::Composite { .. } => None,
        }
    }

    /// The ping-pong surface that the pass samples, if it samples one.
    pub open spec fn sampled_surface(self) -> Option<SurfaceHandle> {
        match self {
            PassCommand::Mask { .. } => None,
            PassCommand::FloodSeed { source, .. } => Some(source),
            PassCommand::Flood { source, .. } => Some(source),
            PassCommand::Composite { source, .. } => Some(source),
        }
    }

    /// Number of vertices that the pass draws by itself: the full-screen
    /// triangle for every pass but the mask pass, whose vertices come from
    /// the queued meshes.
    pub fn vertex_count(&self) -> (count: u32)
        ensures
            count == if *self is Mask {
                0u32
            } else {
                FULLSCREEN_VERTICES
            },
    {
        match self {
            PassCommand::Mask { .. } => 0,
            _ => FULLSCREEN_VERTICES,
        }
    }
}

/// Records the mask pass: the queued meshes are drawn into the surface that
/// is currently written, and the roles are exchanged so that the next pass
/// reads it.
pub fn run_mask_pass(voronoi_texture: &mut VoronoiTexture, viewport: Option<Viewport>) -> (command:
    PassCommand)
    ensures
        command == (PassCommand::Mask { target: old(voronoi_texture).output_surface(), viewport }),
        *final(voronoi_texture) == old(voronoi_texture).swapped(),
{
    let command = PassCommand::Mask { target: *voronoi_texture.output(), viewport };
    voronoi_texture.flip();
    command
}

/// Records the seed pass.
///
/// A pipeline that is not ready is a missing resource: nothing is recorded
/// and the roles of the surfaces stay as they are.
pub fn run_flood_seed_pass(
    voronoi_texture: &mut VoronoiTexture,
    pipeline_ready: bool,
    viewport: Option<Viewport>,
) -> (command: Result<PassCommand, VoronoiError>)
    ensures
        pipeline_ready ==> command == Ok::<PassCommand, VoronoiError>(
            PassCommand::FloodSeed {
                source: old(voronoi_texture).input_surface(),
                target: old(voronoi_texture).output_surface(),
                viewport,
            },
        ) && *final(voronoi_texture) == old(voronoi_texture).swapped(),
        !pipeline_ready ==> command == Err::<PassCommand, VoronoiError>(
            VoronoiError::MissingResource,
        ) && *final(voronoi_texture) == *old(voronoi_texture),
{
    if !pipeline_ready {
        return Err(VoronoiError::MissingResource);
    }
    let command = PassCommand::FloodSeed {
        source: *voronoi_texture.input(),
        target: *voronoi_texture.output(),
        viewport,
    };
    voronoi_texture.flip();
    Ok(command)
}

/// Records one flood pass at the given step.
///
/// A pipeline that is not ready is a missing resource: nothing is recorded
/// and the roles of the surfaces stay as they are.
pub fn run_flood_pass(
    voronoi_texture: &mut VoronoiTexture,
    pipeline_ready: bool,
    viewport: Option<Viewport>,
    step: FloodStep,
) -> (command: Result<PassCommand, VoronoiError>)
    ensures
        pipeline_ready ==> command == Ok::<PassCommand, VoronoiError>(
            PassCommand::Flood {
                source: old(voronoi_texture).input_surface(),
                target: old(voronoi_texture).output_surface(),
                step,
                viewport,
            },
        ) && *final(voronoi_texture) == old(voronoi_texture).swapped(),
        !pipeline_ready ==> command == Err::<PassCommand, VoronoiError>(
            VoronoiError::MissingResource,
        ) && *final(voronoi_texture) == *old(voronoi_texture),
{
    if !pipeline_ready {
        return Err(VoronoiError::MissingResource);
    }
    let command = PassCommand::Flood {
        source: *voronoi_texture.input(),
        target: *voronoi_texture.output(),
        step,
        viewport,
    };
    voronoi_texture.flip();
    Ok(command)
}

/// Records the composite pass: `input`, the surface that the last flood pass
/// wrote, is drawn onto the view's colour target.
///
/// A pipeline that is not ready is a missing resource: nothing is recorded.
pub fn composite_pass(
    pipeline_ready: bool,
    viewport: Option<Viewport>,
    input: &SurfaceHandle,
) -> (command: Result<PassCommand, VoronoiError>)
    ensures
        command == if pipeline_ready {
            Ok::<PassCommand, VoronoiError>(PassCommand::Composite { source: *input, viewport })
        } else {
            Err::<PassCommand, VoronoiError>(VoronoiError::MissingResource)
        },
{
    if pipeline_ready {
        Ok(PassCommand::Composite { source: *input, viewport })
    } else {
        Err(VoronoiError::MissingResource)
    }
}

/// A pass that draws the phase of a view into a surface.
#[derive(Clone, Copy, Debug, PartialEq, Eq)]
pub struct PhasePass {
    /// The surface that the pass clears and draws into.
    pub target: SurfaceHandle,
    /// The camera's viewport, if it declares one.
    pub viewport: Option<Viewport>,
}

/// The pass over the phase of a view: none for a phase without items, and a
/// missing resource where the phases or the phase of the view are absent.
pub open spec fn phase_pass(
    phases_available: bool,
    view_phase_empty: Option<bool>,
    output: SurfaceHandle,
    viewport: Option<Viewport>,
) -> Result<Option<PhasePass>, VoronoiError> {
    if !phases_available || view_phase_empty.is_none() {
        Err(VoronoiError::MissingResource)
    } else if view_phase_empty.unwrap() {
        Ok(None)
    } else {
        Ok(Some(PhasePass { target: output, viewport }))
    }
}

/// Records the pass that draws the seeds of the queued meshes into `output`.
///
/// `phases_available` says whether the host has the phases of this kind at
/// all, `view_phase_empty` whether the phase of this view is empty, if the
/// view has one. Without the phases, or without a phase for the view, a
/// resource is missing. A view whose phase is empty gets no pass at all:
/// `output` is neither cleared nor written.
pub fn flood_init_pass(
    phases_available: bool,
    view_phase_empty: Option<bool>,
    output: &SurfaceHandle,
    viewport: Option<Viewport>,
) -> (pass: Result<Option<PhasePass>, VoronoiError>)
    ensures
        pass == phase_pass(phases_available, view_phase_empty, *output, viewport),
{
    if !phases_available {
        return Err(VoronoiError::MissingResource);
    }
    match view_phase_empty {
        Some(true) => Ok(None),
        Some(false) => Ok(Some(PhasePass { target: *output, viewport })),
        None => Err(VoronoiError::MissingResource),
    }
}

/// Records the pass that draws the mask of the queued meshes into `output`.
///
/// `phases_available` says whether the host has the phases of this kind at
/// all, `view_phase_empty` whether the phase of this view is empty, if the
/// view has one. Without the phases, or without a phase for the view, a
/// resource is missing. A view whose phase is empty gets no pass at all:
/// `output` is neither cleared nor written.
pub fn flood_mask_pass(
    phases_available: bool,
    view_phase_empty: Option<bool>,
    output: &SurfaceHandle,
    viewport: Option<Viewport>,
) -> (pass: Result<Option<PhasePass>, VoronoiError>)
    ensures
        pass == phase_pass(phases_available, view_phase_empty, *output, viewport),
{
    if !phases_available {
        return Err(VoronoiError::MissingResource);
    }
    match view_phase_empty {
        Some(true) => Ok(None),
        Some(false) => Ok(Some(PhasePass { target: *output, viewport })),
        None => Err(VoronoiError::MissingResource),
    }
}

/// What the draw node knows of one view when it runs.
#[derive(Clone, Copy, Debug, PartialEq, Eq)]
pub struct ViewDraw {
    /// Number of items in the view's mask phase; `None` if the view has no
    /// phase.
    pub phase_items: Option<usize>,
    /// The ping-pong pair that is registered for the view, if any.
    pub texture: Option<VoronoiTexture>,
    /// Extent of the view's colour target.
    pub target: Extent,
    /// Extent that the view's ping-pong surfaces must have in this frame.
    pub surface_extent: Extent,
    /// The camera's viewport, if it declares one.
    pub viewport: Option<Viewport>,
    /// Whether the seed pipeline is compiled.
    pub seed_pipeline_ready: bool,
    /// Whether the flood pipeline is compiled.
    pub flood_pipeline_ready: bool,
    /// Whether the composite pipeline is compiled.
    pub composite_pipeline_ready: bool,
}

/// The surface that flood pass number `index` reads, for a pair that is in
/// state `texture` before the first flood pass.
pub open spec fn flood_source(texture: VoronoiTexture, index: int) -> SurfaceHandle {
    if index % 2 == 0 {
        texture.input_surface()
    } else {
        texture.output_surface()
    }
}

/// The surface that flood pass number `index` writes.
pub open spec fn flood_target(texture: VoronoiTexture, index: int) -> SurfaceHandle {
    if index % 2 == 0 {
        texture.output_surface()
    } else {
        texture.input_surface()
    }
}

/// The flood passes at the given steps, for a pair that is in state
/// `texture` before the first of them: pass `i` reads what pass `i - 1` wrote.
pub open spec fn flood_commands(
    texture: VoronoiTexture,
    steps: Seq<FloodStep>,
    viewport: Option<Viewport>,
) -> Seq<PassCommand> {
    Seq::new(
        steps.len(),
        |i: int|
            PassCommand::Flood {
                source: flood_source(texture, i),
                target: flood_target(texture, i),
                step: steps[i],
                viewport,
            },
    )
}

/// The pair after `count` passes were recorded on it.
pub open spec fn after_passes(texture: VoronoiTexture, count: nat) -> VoronoiTexture {
    if count % 2 == 0 {
        texture
    } else {
        texture.swapped()
    }
}

impl ViewDraw {
    /// Whether the seed, the flood and the composite pipeline are all
    /// compiled.
    pub open spec fn pipelines_ready(self) -> bool {
        self.seed_pipeline_ready && self.flood_pipeline_ready && self.composite_pipeline_ready
    }

    /// Whether the view has everything that its pipeline needs: a phase, and,
    /// unless the phase is empty, a pair of surfaces of the extent that this
    /// frame asks for and all three pipelines.
    pub open spec fn has_resources(self) -> bool {
        &&& self.phase_items.is_some()
        &&& self.phase_items != Some(0usize) ==> {
            &&& self.texture matches Some(texture) && texture.extent_of() == self.surface_extent
            &&& self.pipelines_ready()
        }
    }

    /// Whether the pipeline of the view runs in this frame. It runs as a
    /// whole or not at all.
    pub open spec fn runs(self) -> bool {
        self.has_resources() && self.phase_items != Some(0usize)
    }

    /// The steps of the flood passes of the view.
    pub open spec fn steps(self) -> Seq<FloodStep> {
        flood_step_seq(self.target.width as nat, self.target.height as nat)
    }

    /// The pair before the seed pass: the mask pass has run.
    pub open spec fn before_seed(self) -> VoronoiTexture {
        self.texture.unwrap().swapped()
    }

    /// The pair before the first flood pass: the mask pass and the seed pass
    /// have run.
    pub open spec fn before_flood(self) -> VoronoiTexture {
        self.texture.unwrap()
    }

    /// The pair after the last flood pass.
    pub open spec fn before_composite(self) -> VoronoiTexture {
        after_passes(self.before_flood(), self.steps().len())
    }

    /// The mask pass of the view.
    pub open spec fn mask_command(self) -> PassCommand {
        PassCommand::Mask {
            target: self.texture.unwrap().output_surface(),
            viewport: self.viewport,
        }
    }

    /// The seed pass of the view: it reads what the mask pass wrote.
    pub open spec fn seed_command(self) -> PassCommand {
        PassCommand::FloodSeed {
            source: self.before_seed().input_surface(),
            target: self.before_seed().output_surface(),
            viewport: self.viewport,
        }
    }

    /// The flood passes of the view.
    pub open spec fn flood_pass_commands(self) -> Seq<PassCommand> {
        flood_commands(self.before_flood(), self.steps(), self.viewport)
    }

    /// The composite pass of the view: it samples what the last flood pass
    /// wrote.
    pub open spec fn composite_command(self) -> PassCommand {
        PassCommand::Composite {
            source: self.before_composite().input_surface(),
            viewport: self.viewport,
        }
    }

    /// All passes of the view in this frame, in the order in which they run:
    /// none, or the mask pass, the seed pass, every flood pass and the
    /// composite pass.
    pub open spec fn plan(self) -> Seq<PassCommand> {
        if self.runs() {
            (seq![self.mask_command(), self.seed_command()] + self.flood_pass_commands()).push(
                self.composite_command(),
            )
        } else {
            Seq::empty()
        }
    }
}

/// The node that draws the effect of one view.
#[derive(Clone, Copy, Debug, Default)]
pub struct VoronoiDrawNode;

impl VoronoiDrawNode {
    /// Decides the passes of one view for this frame.
    ///
    /// A view whose phase is empty is left alone: no pass runs and its
    /// colour target stays as it is. A view with queued meshes runs its whole
    /// pipeline or nothing: if it has no pair of surfaces of this frame's
    /// extent, or if one of the three pipelines is not compiled yet, a
    /// resource is missing and no pass is recorded for it. So is a view
    /// without a phase. Every other view gets the whole sequence of passes,
    /// each reading what the one before it wrote.
    pub fn run(&self, view: &ViewDraw) -> (result: Result<Vec<PassCommand>, VoronoiError>)
        ensures
            view.has_resources() ==> (result matches Ok(commands) && commands@ == view.plan()),
            !view.has_resources() ==> result == Err::<Vec<PassCommand>, VoronoiError>(
                VoronoiError::MissingResource,
            ),
    {
        let mut commands: Vec<PassCommand> = Vec::new();
        let items = match view.phase_items {
            Some(items) => items,
            None => {
                return Err(VoronoiError::MissingResource);
            },
        };
        if items == 0 {
            return Ok(commands);
        }
        let mut voronoi_texture = match view.texture {
            Some(texture) => texture,
            None => {
                return Err(VoronoiError::MissingResource);
            },
        };
        if voronoi_texture.extent() != view.surface_extent {
            return Err(VoronoiError::MissingResource);
        }
        if !(view.seed_pipeline_ready && view.flood_pipeline_ready
            && view.composite_pipeline_ready) {
            return Err(VoronoiError::MissingResource);
        }
        proof {
            view.texture.unwrap().lemma_flip_involution();
            view.texture.unwrap().lemma_swapped();
        }
        commands.push(run_mask_pass(&mut voronoi_texture, view.viewport));
        let seed = run_flood_seed_pass(&mut voronoi_texture, true, view.viewport)?;
        commands.push(seed);
        let ghost head = commands@;
        assert(head =~= seq![view.mask_command(), view.seed_command()]);
        assert(voronoi_texture == view.before_flood());

        let steps = flood_steps(view.target.width, view.target.height);
        let mut index: usize = 0;
        while index < steps.len()
            invariant
                index <= steps.len(),
                steps@ == view.steps(),
                voronoi_texture == after_passes(view.before_flood(), index as nat),
                commands@ == head + view.flood_pass_commands().take(index as int),
            decreases steps.len() - index,
        {
            proof {
                view.before_flood().lemma_flip_involution();
                view.before_flood().lemma_swapped();
            }
            let flood = run_flood_pass(&mut voronoi_texture, true, view.viewport, steps[index])?;
            commands.push(flood);
            proof {
                let all = view.flood_pass_commands();
                assert(all.take(index as int + 1) =~= all.take(index as int).push(
                    all[index as int],
                ));
                assert(commands@ =~= head + all.take(index as int + 1));
            }
            index = index + 1;
        }
        proof {
            let all = view.flood_pass_commands();
            assert(all.take(steps.len() as int) =~= all);
        }
        let composite = composite_pass(true, view.viewport, voronoi_texture.input())?;
        commands.push(composite);
        assert(commands@ =~= view.plan());
        Ok(commands)
    }
}

} // verus!
