//! What the passes of a view compute, taken together.
//!
//! The draw node decides the passes, the store carries them out. This module
//! joins the two and states what the surfaces hold once the passes have run.

use crate::draw::{
    flood_commands, flood_source, flood_target, PassCommand, ViewDraw, Viewport, VoronoiDrawNode,
};
use crate::error::VoronoiError;
use crate::flood::{flood_through, jump_flood, mask_pass, seed_pass, Seed, Texel};
use crate::software::{applied, applied_all, SurfaceStore};
use crate::steps::{flood_steps, FloodStep};
use crate::texture::{Extent, SurfaceHandle, VoronoiTexture};
use vstd::prelude::*;

verus! {

impl ViewDraw {
    /// The surface that holds the result of the flood once the passes of
    /// the view have run: the one that the composite pass samples.
    pub open spec fn result_surface(self) -> SurfaceHandle {
        self.before_composite().input_surface()
    }
}

/// Carrying out a single pass is applying it.
pub proof fn lemma_applied_all_single(
    contents: Map<u64, Seq<Texel>>,
    command: PassCommand,
    covered: Seq<Seed>,
    extent: Extent,
)
    ensures
        applied_all(contents, seq![command], covered, extent) == applied(
            contents,
            command,
            covered,
            extent,
        ),
{
    reveal_with_fuel(applied_all, 2);
    assert(seq![command].drop_last() =~= Seq::<PassCommand>::empty());
}

/// Carrying out two runs of passes one after the other is carrying out
/// their concatenation.
pub proof fn lemma_applied_all_concat(
    contents: Map<u64, Seq<Texel>>,
    head: Seq<PassCommand>,
    tail: Seq<PassCommand>,
    covered: Seq<Seed>,
    extent: Extent,
)
    ensures
        applied_all(contents, head + tail, covered, extent) == applied_all(
            applied_all(contents, head, covered, extent),
            tail,
            covered,
            extent,
        ),
    decreases tail.len(),
{
    if tail.len() == 0 {
        assert(head + tail =~= head);
    } else {
        assert((head + tail).drop_last() =~= head + tail.drop_last());
        lemma_applied_all_concat(contents, head, tail.drop_last(), covered, extent);
    }
}

/// After the first `count` flood passes, the surface that the next pass would
/// read holds the buffer that the first pass read, flooded at the first
/// `count` steps.
pub proof fn lemma_flood_commands_applied(
    texture: VoronoiTexture,
    steps: Seq<FloodStep>,
    viewport: Option<Viewport>,
    contents: Map<u64, Seq<Texel>>,
    covered: Seq<Seed>,
    extent: Extent,
    count: nat,
)
    requires
        count <= steps.len(),
    ensures
        applied_all(
            contents,
            flood_commands(texture, steps, viewport).take(count as int),
            covered,
            extent,
        )[flood_source(texture, count as int).id] == flood_through(
            contents[texture.input_surface().id],
            extent,
            steps.take(count as int),
        ),
    decreases count,
{
    let commands = flood_commands(texture, steps, viewport);
    if count == 0 {
        assert(commands.take(0) =~= Seq::<PassCommand>::empty());
        assert(steps.take(0) =~= Seq::<FloodStep>::empty());
    } else {
        let before = (count - 1) as nat;
        lemma_flood_commands_applied(texture, steps, viewport, contents, covered, extent, before);
        assert(commands.take(count as int).drop_last() =~= commands.take(before as int));
        assert(steps.take(count as int).drop_last() =~= steps.take(before as int));
        assert(commands.take(count as int).last() == commands[before as int]);
        assert(steps.take(count as int).last() == steps[before as int]);
        assert(flood_source(texture, count as int) == flood_target(texture, before as int));
    }
}

/// The passes of a view that runs compute the jump flood of the covered
/// pixels: whatever the surfaces held before, the surface that the composite
/// pass samples holds afterwards, texel for texel, the seeds of the mask
/// flooded at the steps of the view.
pub proof fn lemma_plan_computes_jump_flood(
    view: ViewDraw,
    contents: Map<u64, Seq<Texel>>,
    covered: Seq<Seed>,
    extent: Extent,
)
    requires
        view.runs(),
    ensures
        applied_all(contents, view.plan(), covered, extent)[view.result_surface().id] == jump_flood(
            covered,
            extent,
            view.steps(),
        ),
{
    let texture = view.texture.unwrap();
    texture.lemma_swapped();
    texture.lemma_flip_involution();
    texture.swapped().lemma_swapped();
    let mask = seq![view.mask_command()];
    let seed = seq![view.seed_command()];
    let floods = view.flood_pass_commands();
    let composite = seq![view.composite_command()];
    let steps = view.steps();

    let after_mask = applied_all(contents, mask, covered, extent);
    lemma_applied_all_single(contents, view.mask_command(), covered, extent);
    let after_seed = applied_all(after_mask, seed, covered, extent);
    lemma_applied_all_single(after_mask, view.seed_command(), covered, extent);
    assert(after_seed[texture.input_surface().id] == seed_pass(mask_pass(covered, extent), extent));

    let after_floods = applied_all(after_seed, floods, covered, extent);
    lemma_flood_commands_applied(
        texture,
        steps,
        view.viewport,
        after_seed,
        covered,
        extent,
        steps.len(),
    );
    assert(floods.take(steps.len() as int) =~= floods);
    assert(steps.take(steps.len() as int) =~= steps);
    assert(view.result_surface() == flood_source(texture, steps.len() as int));

    lemma_applied_all_single(after_floods, view.composite_command(), covered, extent);
    assert(view.plan() =~= mask + seed + floods + composite);
    lemma_applied_all_concat(contents, mask, seed, covered, extent);
    lemma_applied_all_concat(contents, mask + seed, floods, covered, extent);
    lemma_applied_all_concat(contents, mask + seed + floods, composite, covered, extent);
}

/// Running the pipeline again on an unchanged scene changes nothing: for
/// every view, a second run, started from whatever the first run left in the
/// surfaces, ends with the same final flood buffer, texel for texel.
pub proof fn lemma_rerun_is_identical(
    view: ViewDraw,
    contents: Map<u64, Seq<Texel>>,
    covered: Seq<Seed>,
    extent: Extent,
)
    ensures
        ({
            let first = applied_all(contents, view.plan(), covered, extent);
            let second = applied_all(first, view.plan(), covered, extent);
            second[view.result_surface().id] == first[view.result_surface().id]
        }),
{
    if view.runs() {
        let first = applied_all(contents, view.plan(), covered, extent);
        lemma_plan_computes_jump_flood(view, contents, covered, extent);
        lemma_plan_computes_jump_flood(view, first, covered, extent);
    }
}

/// A view without any mesh in its phase runs no pass at all: nothing is
/// written, neither a ping-pong surface nor the colour target, and whatever
/// carries the passes out leaves every surface as it was.
pub proof fn lemma_no_participants_no_passes(
    view: ViewDraw,
    contents: Map<u64, Seq<Texel>>,
    covered: Seq<Seed>,
    extent: Extent,
)
    requires
        view.phase_items == Some(0usize),
    ensures
        view.has_resources(),
        view.plan().len() == 0,
        forall|i: int|
            0 <= i < view.plan().len() ==> !(#[trigger] view.plan()[i]).writes_color_target(),
        applied_all(contents, view.plan(), covered, extent) == contents,
{
}

/// The pipeline of a view runs as a whole or not at all: a view gets no pass,
/// or the mask pass, the seed pass, one flood pass for every step and the
/// composite pass, in this order. It gets no pass unless it has queued
/// meshes, a pair of surfaces and all three pipelines.
pub proof fn lemma_plan_is_whole_or_empty(view: ViewDraw)
    ensures
        view.plan().len() == 0 || view.plan().len() == view.steps().len() + 3,
        view.plan().len() > 0 ==> {
            &&& view.pipelines_ready()
            &&& view.texture.is_some()
            &&& view.phase_items.is_some() && view.phase_items != Some(0usize)
            &&& view.plan()[0] is Mask
            &&& view.plan()[1] is FloodSeed
            &&& forall|i: int|
                0 <= i < view.steps().len() ==> (#[trigger] view.plan()[i + 2]) is Flood
                    && view.plan()[i + 2]->Flood_step == view.steps()[i]
            &&& view.plan().last() is Composite
        },
{
}

/// Every pass of a view works on the two surfaces of the view's pair, both
/// of the extent that this frame asks for, and never reads the surface that
/// it writes. A surface of any other extent is neither sampled nor written.
pub proof fn lemma_plan_uses_current_surfaces(view: ViewDraw, index: int)
    requires
        view.runs(),
        view.texture.unwrap().wf(),
        0 <= index < view.plan().len(),
    ensures
        ({
            let command = view.plan()[index];
            let texture = view.texture.unwrap();
            &&& command.sampled_surface() matches Some(source) ==> source.extent
                == view.surface_extent && (source == texture.first() || source
                == texture.second())
            &&& command.written_surface() matches Some(target) ==> target.extent
                == view.surface_extent && (target == texture.first() || target
                == texture.second())
            &&& command.sampled_surface().is_some() && command.written_surface().is_some()
                ==> command.sampled_surface().unwrap().id != command.written_surface().unwrap().id
        }),
{
    let texture = view.texture.unwrap();
    texture.lemma_swapped();
    texture.lemma_flip_involution();
    texture.swapped().lemma_swapped();
    let floods = view.flood_pass_commands();
    if 2 <= index < 2 + floods.len() {
        assert(view.plan()[index] == floods[index - 2]);
    }
}

/// Every pass but the first samples the surface that the pass before it
/// wrote: the seed pass reads the mask, the first flood pass reads the seeds,
/// and no flood pass reads anything but seeds or the output of a flood pass.
pub proof fn lemma_plan_chains(view: ViewDraw, index: int)
    requires
        view.runs(),
        1 <= index < view.plan().len(),
    ensures
        view.plan()[index].sampled_surface() == view.plan()[index - 1].written_surface(),
{
    let texture = view.texture.unwrap();
    texture.lemma_swapped();
    texture.lemma_flip_involution();
    texture.swapped().lemma_swapped();
    let floods = view.flood_pass_commands();
    if index < 2 {
    } else if index < 2 + floods.len() {
        assert(view.plan()[index] == floods[index - 2]);
        if index > 2 {
            assert(view.plan()[index - 1] == floods[index - 3]);
        }
    } else {
        if floods.len() > 0 {
            assert(view.plan()[index - 1] == floods[floods.len() - 1]);
        }
    }
}

/// A store that backs the pair of a view can carry out every pass of the
/// view.
pub proof fn lemma_plan_is_executable(view: ViewDraw, store: SurfaceStore, count: nat)
    requires
        view.runs(),
        view.texture.unwrap().wf(),
        backs(store, view.texture.unwrap()),
        count <= view.plan().len(),
    ensures
        store.executable_prefix(view.plan().take(count as int)) == count,
    decreases count,
{
    if count > 0 {
        lemma_plan_is_executable(view, store, (count - 1) as nat);
        lemma_plan_uses_current_surfaces(view, count - 1);
        assert(view.plan().take(count as int).drop_last() =~= view.plan().take(count - 1));
    }
}

/// Decides the passes of a view and carries them out on `store`.
///
/// The result names the surface that holds the outcome of the flood, or
/// nothing if no pass ran. A view that lacks a resource, or whose pair
/// `store` does not back, is refused.
pub fn render_view(view: &ViewDraw, store: &mut SurfaceStore, covered: &Vec<Seed>) -> (result:
    Result<Option<SurfaceHandle>, VoronoiError>)
    ensures
        final(store).first_surface() == old(store).first_surface(),
        final(store).second_surface() == old(store).second_surface(),
        result == rendered(*view, *old(store)),
        final(store).contents() == if result is Ok {
            applied_all(old(store).contents(), view.plan(), covered@, old(store).extent_of())
        } else {
            old(store).contents()
        },
{
    let commands = match (VoronoiDrawNode {  }).run(view) {
        Ok(commands) => commands,
        Err(reason) => {
            return Err(reason);
        },
    };
    if commands.len() == 0 {
        return Ok(None);
    }
    let texture = match view.texture {
        Some(texture) => texture,
        None => {
            return Err(VoronoiError::MissingResource);
        },
    };
    let (first, second) = texture.surfaces();
    if store.texels(&first).is_none() || store.texels(&second).is_none() {
        return Err(VoronoiError::MissingResource);
    }
    proof {
        store.lemma_contents();
        lemma_plan_is_executable(*view, *store, view.plan().len());
        assert(view.plan().take(view.plan().len() as int) =~= view.plan());
        texture.lemma_swapped();
        texture.lemma_flip_involution();
    }
    let mut result_texture = texture;
    let steps = flood_steps(view.target.width, view.target.height);
    if steps.len() % 2 == 1 {
        result_texture.flip();
    }
    let surface = *result_texture.input();
    match store.execute(&commands, covered) {
        Ok(()) => Ok(Some(surface)),
        Err(reason) => Err(reason),
    }
}

/// Whether `store` backs the two surfaces of `texture`.
pub open spec fn backs(store: SurfaceStore, texture: VoronoiTexture) -> bool {
    store.holds(texture.first()) && store.holds(texture.second())
}

/// What rendering a view on `store` returns: the surface with the outcome of
/// the flood for a view that runs on a store that backs its pair, nothing
/// for a view without meshes, and a missing resource otherwise.
pub open spec fn rendered(view: ViewDraw, store: SurfaceStore) -> Result<
    Option<SurfaceHandle>,
    VoronoiError,
> {
    if !view.has_resources() {
        Err(VoronoiError::MissingResource)
    } else if !view.runs() {
        Ok(None)
    } else if backs(store, view.texture.unwrap()) {
        Ok(Some(view.result_surface()))
    } else {
        Err(VoronoiError::MissingResource)
    }
}

} // verus!
