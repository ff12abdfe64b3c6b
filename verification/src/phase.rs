//! The items of the mask phase and the queue that fills it.
//!
//! An item stands for one mesh that takes part in the mask pass of a view.
//! Items are queued in the order in which the meshes are visited and are
//! sorted by depth, stably, before they are drawn.

use crate::collections::{id_set, id_set_contains, id_set_from};
use crate::error::VoronoiError;
use crate::material::RenderVoronoiMaterials;
use vstd::prelude::*;

verus! {

/// The instances `start..end` of a draw.
#[derive(Clone, Copy, Debug, PartialEq, Eq, Structural)]
pub struct BatchRange {
    pub start: u32,
    pub end: u32,
}

/// What an item carries besides its batch range.
#[derive(Clone, Copy, Debug, PartialEq, Eq)]
pub enum PhaseItemExtraIndex {
    /// Nothing.
    Absent,
    /// A dynamic offset into a uniform buffer.
    DynamicOffset(u32),
    /// A range of indirect draw parameters.
    IndirectParametersIndex { range: BatchRange, batch_set_index: Option<u32> },
}

/// One mesh in the mask phase of a view.
#[derive(Clone, Copy, Debug, PartialEq, Eq)]
pub struct MaskPhase {
    /// Depth of the mesh as an integer that orders as the depth does.
    pub sort_key: u32,
    /// The specialized pipeline that draws the mesh.
    pub pipeline: usize,
    /// The draw function of the mask pass.
    pub draw_function: u32,
    /// The mesh in the render world and in the main world.
    pub entity: (u64, u64),
    /// The instances that the item draws.
    pub batch_range: BatchRange,
    /// What the item carries besides its batch range.
    pub extra_index: PhaseItemExtraIndex,
    /// Whether the mesh has an index buffer.
    pub indexed: bool,
}

/// The keys by which the given items are ordered.
pub open spec fn sort_keys(items: Seq<MaskPhase>) -> Seq<u32> {
    Seq::new(items.len(), |i: int| items[i].sort_key)
}

/// `origin` and `place` arrange `keys.len()` items in ascending order of
/// their keys, stably: the item that comes `i`-th stood at `origin[i]`, the
/// item that stood at `k` comes `place[k]`-th, the keys ascend in the new
/// order, and items with equal keys keep the order in which they stood.
pub open spec fn is_stable_order(keys: Seq<u32>, origin: Seq<int>, place: Seq<int>) -> bool {
    let n = keys.len();
    &&& origin.len() == n
    &&& place.len() == n
    &&& forall|i: int| 0 <= i < n ==> 0 <= #[trigger] origin[i] < n && place[origin[i]] == i
    &&& forall|k: int| 0 <= k < n ==> 0 <= #[trigger] place[k] < n && origin[place[k]] == k
    &&& forall|i: int, j: int|
        0 <= i < j < n ==> keys[#[trigger] origin[i]] <= keys[#[trigger] origin[j]]
    &&& forall|i: int, j: int|
        0 <= i < j < n && keys[origin[i]] == keys[origin[j]] ==> #[trigger] origin[i]
            < #[trigger] origin[j]
}

/// The positions in `order`, as integers.
pub open spec fn positions(order: Seq<usize>) -> Seq<int> {
    Seq::new(order.len(), |i: int| order[i] as int)
}

/// `order` lists the positions of the items with the given keys in ascending
/// order of key, items with equal keys in the order in which they stand.
pub open spec fn orders_stably(keys: Seq<u32>, order: Seq<usize>) -> bool {
    exists|place: Seq<int>| is_stable_order(keys, positions(order), place)
}

/// `after` holds the items of `before`, arranged as `origin` says.
pub open spec fn arranged(before: Seq<MaskPhase>, after: Seq<MaskPhase>, origin: Seq<int>) -> bool {
    &&& after.len() == before.len()
    &&& forall|i: int| 0 <= i < after.len() ==> #[trigger] after[i] == before[origin[i]]
}

/// `after` is `before` sorted by ascending key, with items of equal key in
/// the order they had in `before`.
pub open spec fn is_stable_sort(before: Seq<MaskPhase>, after: Seq<MaskPhase>) -> bool {
    exists|origin: Seq<int>, place: Seq<int>|
        is_stable_order(sort_keys(before), origin, place) && arranged(before, after, origin)
}

/// `after` holds the pairs of `before`, sorted by ascending first component,
/// with pairs of equal first component in the order they had in `before`.
pub open spec fn pairs_sorted_stably(before: Seq<(u32, usize)>, after: Seq<(u32, usize)>) -> bool {
    exists|origin: Seq<int>, place: Seq<int>|
        is_stable_order(pair_keys(before), origin, place) && pairs_arranged(before, after, origin)
}

/// The first components of the given pairs.
pub open spec fn pair_keys(pairs: Seq<(u32, usize)>) -> Seq<u32> {
    Seq::new(pairs.len(), |i: int| pairs[i].0)
}

/// `after` holds the pairs of `before`, arranged as `origin` says.
pub open spec fn pairs_arranged(
    before: Seq<(u32, usize)>,
    after: Seq<(u32, usize)>,
    origin: Seq<int>,
) -> bool {
    &&& after.len() == before.len()
    &&& forall|i: int| 0 <= i < after.len() ==> #[trigger] after[i] == before[origin[i]]
}

/// Two stable orders of the same keys agree up to position `upto`.
proof fn lemma_origins_agree(
    keys: Seq<u32>,
    first_origin: Seq<int>,
    first_place: Seq<int>,
    second_origin: Seq<int>,
    second_place: Seq<int>,
    upto: int,
)
    requires
        is_stable_order(keys, first_origin, first_place),
        is_stable_order(keys, second_origin, second_place),
        0 <= upto <= keys.len(),
    ensures
        forall|m: int| 0 <= m < upto ==> first_origin[m] == second_origin[m],
    decreases upto,
{
    if upto > 0 {
        lemma_origins_agree(
            keys,
            first_origin,
            first_place,
            second_origin,
            second_place,
            upto - 1,
        );
        let i = upto - 1;
        let p = first_origin[i];
        let q = second_origin[i];
        if p != q {
            // Where the other order put each of the two items.
            let j = second_place[p];
            let k = first_place[q];
            assert(second_origin[j] == p);
            assert(first_origin[k] == q);
            if j < i {
                assert(first_origin[j] == second_origin[j]);
                assert(first_place[first_origin[j]] == j);
                assert(first_place[first_origin[i]] == i);
            }
            if k < i {
                assert(first_origin[k] == second_origin[k]);
                assert(second_place[second_origin[k]] == k);
                assert(second_place[second_origin[i]] == i);
            }
            assert(i < j && i < k);
            assert(keys[first_origin[i]] <= keys[first_origin[k]]);
            assert(keys[second_origin[i]] <= keys[second_origin[j]]);
            assert(first_origin[i] < first_origin[k]);
            assert(second_origin[i] < second_origin[j]);
        }
    }
}

/// Keys have exactly one stable order.
pub proof fn lemma_stable_order_unique(
    keys: Seq<u32>,
    first_origin: Seq<int>,
    first_place: Seq<int>,
    second_origin: Seq<int>,
    second_place: Seq<int>,
)
    requires
        is_stable_order(keys, first_origin, first_place),
        is_stable_order(keys, second_origin, second_place),
    ensures
        first_origin == second_origin,
{
    lemma_origins_agree(
        keys,
        first_origin,
        first_place,
        second_origin,
        second_place,
        keys.len() as int,
    );
    assert(first_origin =~= second_origin);
}

/// A sequence has exactly one stable sort.
pub proof fn lemma_stable_sort_unique(
    before: Seq<MaskPhase>,
    first: Seq<MaskPhase>,
    second: Seq<MaskPhase>,
)
    requires
        is_stable_sort(before, first),
        is_stable_sort(before, second),
    ensures
        first == second,
{
    let keys = sort_keys(before);
    let (first_origin, first_place) = choose|origin: Seq<int>, place: Seq<int>|
        is_stable_order(keys, origin, place) && arranged(before, first, origin);
    let (second_origin, second_place) = choose|origin: Seq<int>, place: Seq<int>|
        is_stable_order(keys, origin, place) && arranged(before, second, origin);
    lemma_stable_order_unique(keys, first_origin, first_place, second_origin, second_place);
    assert(first =~= second);
}

/// A stable sort keeps the length, puts the keys in ascending order, and
/// neither loses nor invents an item.
pub proof fn lemma_stable_sort_keeps_items(before: Seq<MaskPhase>, after: Seq<MaskPhase>)
    requires
        is_stable_sort(before, after),
    ensures
        after.len() == before.len(),
        forall|i: int, j: int|
            0 <= i < j < after.len() ==> (#[trigger] after[i]).sort_key <= (
            #[trigger] after[j]).sort_key,
        forall|k: int| 0 <= k < before.len() ==> after.contains(#[trigger] before[k]),
        forall|i: int| 0 <= i < after.len() ==> before.contains(#[trigger] after[i]),
{
    let keys = sort_keys(before);
    let (origin, place) = choose|origin: Seq<int>, place: Seq<int>|
        is_stable_order(keys, origin, place) && arranged(before, after, origin);
    assert forall|i: int, j: int| 0 <= i < j < after.len() implies (#[trigger] after[i]).sort_key
        <= (#[trigger] after[j]).sort_key by {
        assert(keys[origin[i]] <= keys[origin[j]]);
    }
    assert forall|k: int| 0 <= k < before.len() implies after.contains(#[trigger] before[k]) by {
        assert(origin[place[k]] == k);
        assert(after[place[k]] == before[k]);
    }
    assert forall|i: int| 0 <= i < after.len() implies before.contains(#[trigger] after[i]) by {
        assert(after[i] == before[origin[i]]);
    }
}

/// Calls `radsort::sort_by_key` with the first component of each pair as
/// its key. The crate documents the sort as ascending by key and stable; the
/// contract says that and no more.
#[verifier::external_body]
fn radsort_by_key(keyed: &mut Vec<(u32, usize)>)
    ensures
        pairs_sorted_stably(old(keyed)@, final(keyed)@),
{
    radsort::sort_by_key(keyed.as_mut_slice(), |pair| pair.0);
}

/// The order in which items with the given keys are drawn: the positions of
/// the items by ascending key, items with equal keys in the order in which
/// they stand.
pub fn sort_order(keys: &Vec<u32>) -> (order: Vec<usize>)
    ensures
        order@.len() == keys@.len(),
        orders_stably(keys@, order@),
        forall|i: int| 0 <= i < order@.len() ==> #[trigger] order@[i] < keys@.len(),
{
    let mut keyed: Vec<(u32, usize)> = Vec::new();
    let mut index: usize = 0;
    while index < keys.len()
        invariant
            index <= keys.len(),
            keyed@.len() == index,
            forall|i: int| 0 <= i < index ==> #[trigger] keyed@[i] == (keys@[i], i as usize),
        decreases keys.len() - index,
    {
        keyed.push((keys[index], index));
        index = index + 1;
    }
    let ghost before = keyed@;
    assert(pair_keys(before) =~= keys@);
    radsort_by_key(&mut keyed);
    let ghost (origin, place) = choose|origin: Seq<int>, place: Seq<int>|
        is_stable_order(pair_keys(before), origin, place) && pairs_arranged(
            before,
            keyed@,
            origin,
        );
    let mut order: Vec<usize> = Vec::new();
    let mut position: usize = 0;
    while position < keyed.len()
        invariant
            position <= keyed.len(),
            keyed@.len() == keys@.len(),
            before.len() == keys@.len(),
            is_stable_order(keys@, origin, place),
            forall|i: int| 0 <= i < before.len() ==> #[trigger] before[i] == (keys@[i], i as usize),
            forall|i: int| 0 <= i < keyed@.len() ==> #[trigger] keyed@[i] == before[origin[i]],
            order@.len() == position,
            forall|i: int| 0 <= i < position ==> #[trigger] order@[i] as int == origin[i],
        decreases keyed.len() - position,
    {
        assert(keyed@[position as int] == before[origin[position as int]]);
        order.push(keyed[position].1);
        position = position + 1;
    }
    proof {
        assert(positions(order@) =~= origin);
        assert forall|i: int| 0 <= i < order@.len() implies #[trigger] order@[i] < keys@.len() by {
            assert(order@[i] as int == origin[i]);
        }
    }
    order
}

impl MaskPhase {
    /// The mesh of the item in the render world.
    pub fn entity(&self) -> (entity: u64)
        ensures
            entity == self.entity.0,
    {
        self.entity.0
    }

    /// The mesh of the item in the main world.
    pub fn main_entity(&self) -> (entity: u64)
        ensures
            entity == self.entity.1,
    {
        self.entity.1
    }

    /// The draw function of the item.
    pub fn draw_function(&self) -> (id: u32)
        ensures
            id == self.draw_function,
    {
        self.draw_function
    }

    /// The instances that the item draws.
    pub fn batch_range(&self) -> (range: &BatchRange)
        ensures
            *range == self.batch_range,
    {
        &self.batch_range
    }

    /// The instances that the item draws, to be changed in place.
    pub fn batch_range_mut(&mut self) -> (range: &mut BatchRange)
        ensures
            *range == old(self).batch_range,
            *final(self) == (MaskPhase { batch_range: *final(range), ..*old(self) }),
    {
        &mut self.batch_range
    }

    /// What the item carries besides its batch range.
    pub fn extra_index(&self) -> (index: PhaseItemExtraIndex)
        ensures
            index == self.extra_index,
    {
        self.extra_index
    }

    /// The batch range and the extra index of the item, both to be changed
    /// in place.
    pub fn batch_range_and_extra_index_mut(&mut self) -> (parts: (
        &mut BatchRange,
        &mut PhaseItemExtraIndex,
    ))
        ensures
            *parts.0 == old(self).batch_range,
            *parts.1 == old(self).extra_index,
            *final(self) == (MaskPhase {
                batch_range: *final(parts.0),
                extra_index: *final(parts.1),
                ..*old(self)
            }),
    {
        (&mut self.batch_range, &mut self.extra_index)
    }

    /// Whether the mesh of the item has an index buffer.
    pub fn indexed(&self) -> (indexed: bool)
        ensures
            indexed == self.indexed,
    {
        self.indexed
    }

    /// The specialized pipeline that draws the item.
    pub fn cached_pipeline(&self) -> (pipeline: usize)
        ensures
            pipeline == self.pipeline,
    {
        self.pipeline
    }

    /// The key by which the items of a phase are ordered.
    pub fn sort_key(&self) -> (key: u32)
        ensures
            key == self.sort_key,
    {
        self.sort_key
    }

    /// Sorts the items of a phase by ascending depth key. Items of equal key
    /// keep the order in which they were queued.
    pub fn sort(items: &mut Vec<MaskPhase>)
        ensures
            is_stable_sort(old(items)@, final(items)@),
    {
        let mut keys: Vec<u32> = Vec::new();
        let mut index: usize = 0;
        while index < items.len()
            invariant
                index <= items.len(),
                *items == *old(items),
                keys@.len() == index,
                forall|i: int| 0 <= i < index ==> #[trigger] keys@[i] == items@[i].sort_key,
            decreases items.len() - index,
        {
            keys.push(items[index].sort_key);
            index = index + 1;
        }
        assert(keys@ =~= sort_keys(items@));
        let order = sort_order(&keys);
        let mut sorted: Vec<MaskPhase> = Vec::new();
        let mut position: usize = 0;
        while position < order.len()
            invariant
                position <= order.len(),
                *items == *old(items),
                order@.len() == items@.len(),
                forall|i: int| 0 <= i < order@.len() ==> #[trigger] order@[i] < items@.len(),
                sorted@.len() == position,
                forall|i: int|
                    0 <= i < position ==> #[trigger] sorted@[i] == items@[order@[i] as int],
            decreases order.len() - position,
        {
            sorted.push(items[order[position]]);
            position = position + 1;
        }
        proof {
            let place = choose|place: Seq<int>|
                is_stable_order(keys@, positions(order@), place);
            assert(arranged(items@, sorted@, positions(order@)));
        }
        *items = sorted;
    }
}

/// What the host found when it looked a visible mesh up.
#[derive(Clone, Copy, Debug, PartialEq, Eq)]
pub enum MeshLookup {
    /// The mesh carries no mask, so the host did not look it up.
    Unmasked,
    /// The mesh has no render instance.
    MissingInstance,
    /// The mesh asset is not loaded on the GPU.
    MissingMesh,
    /// The mask pipeline could not be specialized for the mesh.
    SpecializationFailed,
    /// The mesh can be drawn with `pipeline`.
    Ready { pipeline: usize, sort_key: u32, indexed: bool },
}

/// A mesh that is visible in a view, with the outcome of its lookup.
#[derive(Clone, Copy, Debug, PartialEq, Eq)]
pub struct VisibleMesh {
    pub render_entity: u64,
    pub main_entity: u64,
    pub lookup: MeshLookup,
}

/// What decides whether the meshes of a view are queued at all.
#[derive(Clone, Copy, Debug, PartialEq, Eq)]
pub struct QueueGate {
    /// Whether the view was marked for an update in this frame.
    pub needs_update: bool,
    /// Whether the host has a pipeline key for the view.
    pub has_view_key: bool,
}

impl QueueGate {
    /// Whether the meshes of the view are queued.
    pub open spec fn open(self) -> bool {
        self.needs_update && self.has_view_key
    }

    /// Whether the meshes of the view are queued.
    pub fn is_open(&self) -> (open: bool)
        ensures
            open == self.open(),
    {
        self.needs_update && self.has_view_key
    }
}

impl VisibleMesh {
    /// The item that is queued for a mesh that is ready.
    pub open spec fn item(self, draw_function: u32) -> MaskPhase
        recommends
            self.lookup is Ready,
    {
        MaskPhase {
            sort_key: self.lookup->sort_key,
            pipeline: self.lookup->pipeline,
            draw_function,
            entity: (self.render_entity, self.main_entity),
            batch_range: (BatchRange { start: 0, end: 1 }),
            extra_index: PhaseItemExtraIndex::Absent,
            indexed: self.lookup->indexed,
        }
    }

    /// Why a mesh that is not ready is left out.
    pub open spec fn skip_reason(self) -> VoronoiError
        recommends
            !(self.lookup is Ready),
    {
        if self.lookup is SpecializationFailed {
            VoronoiError::PipelineCompilationFailure
        } else {
            VoronoiError::MissingResource
        }
    }

    /// The item of the mesh, drawn by `draw_function`, or the reason for
    /// which the mesh is left out of the phase.
    pub fn phase_item(&self, draw_function: u32) -> (result: Result<MaskPhase, VoronoiError>)
        ensures
            result == if self.lookup is Ready {
                Ok::<MaskPhase, VoronoiError>(self.item(draw_function))
            } else {
                Err::<MaskPhase, VoronoiError>(self.skip_reason())
            },
    {
        match self.lookup {
            MeshLookup::Unmasked => Err(VoronoiError::MissingResource),
            MeshLookup::MissingInstance => Err(VoronoiError::MissingResource),
            MeshLookup::MissingMesh => Err(VoronoiError::MissingResource),
            MeshLookup::SpecializationFailed => Err(VoronoiError::PipelineCompilationFailure),
            MeshLookup::Ready { pipeline, sort_key, indexed } => Ok(
                MaskPhase {
                    sort_key,
                    pipeline,
                    draw_function,
                    entity: (self.render_entity, self.main_entity),
                    batch_range: BatchRange { start: 0, end: 1 },
                    extra_index: PhaseItemExtraIndex::Absent,
                    indexed,
                },
            ),
        }
    }
}

impl VisibleMesh {
    /// Whether the mesh takes part in the mask pass: it is among the meshes
    /// that carry a mask.
    pub open spec fn takes_part(self, materials: Map<u64, u64>) -> bool {
        materials.contains_key(self.main_entity)
    }
}

/// The items of the meshes among `visible` that take part in the mask pass
/// and are ready, in the order of `visible`.
pub open spec fn ready_items(
    visible: Seq<VisibleMesh>,
    materials: Map<u64, u64>,
    draw_function: u32,
) -> Seq<MaskPhase> {
    visible.filter(|mesh: VisibleMesh| mesh.takes_part(materials) && mesh.lookup is Ready)
        .map_values(|mesh: VisibleMesh| mesh.item(draw_function))
}

/// The reasons for which the meshes among `visible` that take part in the
/// mask pass but are not ready are left out, each with the main-world entity
/// of its mesh, in the order of `visible`.
pub open spec fn skipped_meshes(visible: Seq<VisibleMesh>, materials: Map<u64, u64>) -> Seq<
    (u64, VoronoiError),
> {
    visible.filter(|mesh: VisibleMesh| mesh.takes_part(materials) && !(mesh.lookup is Ready))
        .map_values(|mesh: VisibleMesh| (mesh.main_entity, mesh.skip_reason()))
}

/// One more visible mesh changes nothing if it does not take part in the
/// mask pass; otherwise it adds its item to the ready items if it is ready,
/// and its reason to the skipped meshes if it is not.
proof fn lemma_visible_push(
    visible: Seq<VisibleMesh>,
    mesh: VisibleMesh,
    materials: Map<u64, u64>,
    draw_function: u32,
)
    ensures
        ready_items(visible.push(mesh), materials, draw_function) == if mesh.takes_part(materials)
            && mesh.lookup is Ready {
            ready_items(visible, materials, draw_function).push(mesh.item(draw_function))
        } else {
            ready_items(visible, materials, draw_function)
        },
        skipped_meshes(visible.push(mesh), materials) == if mesh.takes_part(materials) && !(
        mesh.lookup is Ready) {
            skipped_meshes(visible, materials).push((mesh.main_entity, mesh.skip_reason()))
        } else {
            skipped_meshes(visible, materials)
        },
{
    let ready = |mesh: VisibleMesh| mesh.takes_part(materials) && mesh.lookup is Ready;
    let item = |mesh: VisibleMesh| mesh.item(draw_function);
    visible.lemma_filter_push(mesh, ready);
    visible.filter(ready).lemma_push_map_commute(item, mesh);
    let unready = |mesh: VisibleMesh| mesh.takes_part(materials) && !(mesh.lookup is Ready);
    let reason = |mesh: VisibleMesh| (mesh.main_entity, mesh.skip_reason());
    visible.lemma_filter_push(mesh, unready);
    visible.filter(unready).lemma_push_map_commute(reason, mesh);
}

/// A view that sees no mesh with a mask gets no item in its mask phase and
/// no report, whatever else it sees and whatever the lookups of these meshes
/// came to.
pub proof fn lemma_no_participant_no_item(
    visible: Seq<VisibleMesh>,
    materials: Map<u64, u64>,
    draw_function: u32,
)
    requires
        forall|i: int| 0 <= i < visible.len() ==> !(#[trigger] visible[i]).takes_part(materials),
    ensures
        ready_items(visible, materials, draw_function).len() == 0,
        skipped_meshes(visible, materials).len() == 0,
    decreases visible.len(),
{
    reveal(Seq::filter);
    if visible.len() > 0 {
        let rest = visible.drop_last();
        assert forall|i: int| 0 <= i < rest.len() implies !(#[trigger] rest[i]).takes_part(
            materials,
        ) by {
            assert(rest[i] == visible[i]);
        }
        lemma_no_participant_no_item(rest, materials, draw_function);
        assert(visible =~= rest.push(visible.last()));
        assert(!visible[visible.len() - 1].takes_part(materials));
        lemma_visible_push(rest, visible.last(), materials, draw_function);
    }
}

/// Every item that is queued belongs to a mesh that carries a mask.
pub proof fn lemma_ready_items_take_part(
    visible: Seq<VisibleMesh>,
    materials: Map<u64, u64>,
    draw_function: u32,
)
    ensures
        forall|i: int|
            0 <= i < ready_items(visible, materials, draw_function).len()
                ==> materials.contains_key(
                (#[trigger] ready_items(visible, materials, draw_function)[i]).entity.1,
            ),
{
    broadcast use vstd::seq_lib::group_filter_ensures;

}

/// Queues the visible meshes of one view into its mask phase.
///
/// Nothing is queued unless the view was marked for an update and the host
/// has a pipeline key for it. Only a mesh that carries a mask takes part:
/// any other visible mesh is passed over without a report. Every mesh that
/// takes part and is ready is appended to the phase, in the order of
/// `visible`; one that takes part but is not ready is left out and
/// reported, and the meshes after it are still queued.
pub fn queue_mask_meshes(
    gate: QueueGate,
    draw_function: u32,
    visible: &Vec<VisibleMesh>,
    voronoi_materials: &RenderVoronoiMaterials,
    mask_phase: &mut Vec<MaskPhase>,
) -> (skipped: Vec<(u64, VoronoiError)>)
    ensures
        gate.open() ==> final(mask_phase)@ == old(mask_phase)@ + ready_items(
            visible@,
            voronoi_materials@,
            draw_function,
        ) && skipped@ == skipped_meshes(visible@, voronoi_materials@),
        !gate.open() ==> final(mask_phase)@ == old(mask_phase)@ && skipped@.len() == 0,
{
    let mut skipped: Vec<(u64, VoronoiError)> = Vec::new();
    if !gate.is_open() {
        return skipped;
    }
    let mut index: usize = 0;
    proof {
        assert(visible@.take(0) =~= Seq::<VisibleMesh>::empty());
        reveal(Seq::filter);
        assert(ready_items(visible@.take(0), voronoi_materials@, draw_function) =~= Seq::<
            MaskPhase,
        >::empty());
        assert(skipped_meshes(visible@.take(0), voronoi_materials@) =~= Seq::<
            (u64, VoronoiError),
        >::empty());
    }
    while index < visible.len()
        invariant
            index <= visible.len(),
            mask_phase@ == old(mask_phase)@ + ready_items(
                visible@.take(index as int),
                voronoi_materials@,
                draw_function,
            ),
            skipped@ == skipped_meshes(visible@.take(index as int), voronoi_materials@),
        decreases visible.len() - index,
    {
        proof {
            assert(visible@.take(index as int + 1) =~= visible@.take(index as int).push(
                visible@[index as int],
            ));
            lemma_visible_push(
                visible@.take(index as int),
                visible@[index as int],
                voronoi_materials@,
                draw_function,
            );
        }
        if voronoi_materials.get(visible[index].main_entity).is_some() {
            match visible[index].phase_item(draw_function) {
                Ok(item) => {
                    mask_phase.push(item);
                },
                Err(reason) => {
                    skipped.push((visible[index].main_entity, reason));
                },
            }
        }
        index = index + 1;
    }
    assert(visible@.take(visible.len() as int) =~= visible@);
    skipped
}

/// A camera that shows the effect.
#[derive(Clone, Copy, Debug, PartialEq, Eq, Structural)]
pub struct CameraView {
    /// The view of the camera.
    pub entity: u64,
    /// Whether the camera renders in this frame.
    pub is_active: bool,
}

/// What a frame does to the mask phases of the views.
#[derive(Clone, Debug, PartialEq, Eq)]
pub struct PhaseUpdate {
    /// The live views, in the order of their cameras: each gets an empty
    /// phase, whether it had one or not.
    pub insert_or_clear: Vec<u64>,
    /// The views that have a phase but are no longer live: each loses it.
    pub purge: Vec<u64>,
}

/// The views of the cameras that are active, in the order of `cameras`.
pub open spec fn active_views(cameras: Seq<CameraView>) -> Seq<u64> {
    cameras.filter(|camera: CameraView| camera.is_active).map_values(
        |camera: CameraView| camera.entity,
    )
}

/// The views among `existing` that are not in `live`, in the order of
/// `existing`.
pub open spec fn dead_views(existing: Seq<u64>, live: Set<u64>) -> Seq<u64> {
    existing.filter(|view: u64| !live.contains(view))
}

/// One more camera adds its view to the active views if it is active.
proof fn lemma_camera_push(cameras: Seq<CameraView>, camera: CameraView)
    ensures
        active_views(cameras.push(camera)) == if camera.is_active {
            active_views(cameras).push(camera.entity)
        } else {
            active_views(cameras)
        },
{
    let active = |camera: CameraView| camera.is_active;
    let entity = |camera: CameraView| camera.entity;
    cameras.lemma_filter_push(camera, active);
    cameras.filter(active).lemma_push_map_commute(entity, camera);
}

/// One more view with a phase joins the dead views unless it is live.
proof fn lemma_existing_push(existing: Seq<u64>, view: u64, live: Set<u64>)
    ensures
        dead_views(existing.push(view), live) == if live.contains(view) {
            dead_views(existing, live)
        } else {
            dead_views(existing, live).push(view)
        },
{
    existing.lemma_filter_push(view, |view: u64| !live.contains(view));
}

/// Decides which views have a mask phase in this frame.
///
/// A view is live if its camera is active. `existing` lists the views that
/// have a phase from an earlier frame. Every live view starts the frame with
/// an empty phase; every view with a phase that is not live is purged.
pub fn extract_mask_phases(cameras: &Vec<CameraView>, existing: &Vec<u64>) -> (update: PhaseUpdate)
    ensures
        update.insert_or_clear@ == active_views(cameras@),
        update.purge@ == dead_views(existing@, active_views(cameras@).to_set()),
{
    let mut insert_or_clear: Vec<u64> = Vec::new();
    let mut index: usize = 0;
    proof {
        assert(cameras@.take(0) =~= Seq::<CameraView>::empty());
        reveal(Seq::filter);
        assert(active_views(cameras@.take(0)) =~= Seq::<u64>::empty());
    }
    while index < cameras.len()
        invariant
            index <= cameras.len(),
            insert_or_clear@ == active_views(cameras@.take(index as int)),
        decreases cameras.len() - index,
    {
        proof {
            assert(cameras@.take(index as int + 1) =~= cameras@.take(index as int).push(
                cameras@[index as int],
            ));
            lemma_camera_push(cameras@.take(index as int), cameras@[index as int]);
        }
        if cameras[index].is_active {
            insert_or_clear.push(cameras[index].entity);
        }
        index = index + 1;
    }
    assert(cameras@.take(cameras.len() as int) =~= cameras@);

    let live_entities = id_set_from(&insert_or_clear);
    let mut purge: Vec<u64> = Vec::new();
    let mut seen: usize = 0;
    proof {
        assert(existing@.take(0) =~= Seq::<u64>::empty());
        reveal(Seq::filter);
        assert(dead_views(existing@.take(0), id_set(live_entities)) =~= Seq::<u64>::empty());
    }
    while seen < existing.len()
        invariant
            seen <= existing.len(),
            id_set(live_entities) == active_views(cameras@).to_set(),
            purge@ == dead_views(existing@.take(seen as int), id_set(live_entities)),
        decreases existing.len() - seen,
    {
        proof {
            assert(existing@.take(seen as int + 1) =~= existing@.take(seen as int).push(
                existing@[seen as int],
            ));
            lemma_existing_push(
                existing@.take(seen as int),
                existing@[seen as int],
                id_set(live_entities),
            );
        }
        if !id_set_contains(&live_entities, existing[seen]) {
            purge.push(existing[seen]);
        }
        seen = seen + 1;
    }
    assert(existing@.take(existing.len() as int) =~= existing@);
    PhaseUpdate { insert_or_clear, purge }
}

} // verus!
