//! The items of the binned flood phases and the queue that bins them.
//!
//! Items that share a bin key can be drawn as one batch. The queue keeps one
//! bin per key, in the order in which the keys first came, and within a bin
//! the meshes in the order in which they were added. A mesh that cannot be
//! batched is kept apart and drawn by itself.

use crate::phase::{BatchRange, PhaseItemExtraIndex};
use vstd::prelude::*;

verus! {

/// What must be the same for two items to be drawn as one batch.
#[derive(Clone, Copy, Debug, PartialEq, Eq, PartialOrd, Ord, Hash, Structural)]
pub struct FloodInitPhaseBinKey {
    /// The specialized pipeline.
    pub pipeline: usize,
    /// The draw function.
    pub draw_function: u32,
    /// The mesh asset.
    pub asset_id: u64,
}

/// One batch of the phase that draws the seeds of the meshes.
#[derive(Clone, Copy, Debug, PartialEq, Eq)]
pub struct FloodInitPhase {
    /// The bin of the batch.
    pub key: FloodInitPhaseBinKey,
    /// One mesh of the batch, in the render world and in the main world.
    pub representative_entity: (u64, u64),
    /// The instances that the batch draws.
    pub batch_range: BatchRange,
    /// What the batch carries besides its batch range.
    pub extra_index: PhaseItemExtraIndex,
}

/// The bin key of the phase that draws the mask of the meshes. The two
/// phases bin alike.
pub type FloodMaskPhaseBinKey = FloodInitPhaseBinKey;

/// One batch of the phase that draws the mask of the meshes. The two phases
/// hold the same kind of item.
pub type FloodMaskPhase = FloodInitPhase;

impl FloodInitPhase {
    /// The batch of the bin `key` that `representative_entity` stands for.
    pub fn new(
        key: FloodInitPhaseBinKey,
        representative_entity: (u64, u64),
        batch_range: BatchRange,
        extra_index: PhaseItemExtraIndex,
    ) -> (item: Self)
        ensures
            item == (FloodInitPhase { key, representative_entity, batch_range, extra_index }),
    {
        FloodInitPhase { key, representative_entity, batch_range, extra_index }
    }

    /// The representative mesh in the render world.
    pub fn entity(&self) -> (entity: u64)
        ensures
            entity == self.representative_entity.0,
    {
        self.representative_entity.0
    }

    /// The representative mesh in the main world.
    pub fn main_entity(&self) -> (entity: u64)
        ensures
            entity == self.representative_entity.1,
    {
        self.representative_entity.1
    }

    /// The draw function of the batch.
    pub fn draw_function(&self) -> (id: u32)
        ensures
            id == self.key.draw_function,
    {
        self.key.draw_function
    }

    /// The instances that the batch draws.
    pub fn batch_range(&self) -> (range: &BatchRange)
        ensures
            *range == self.batch_range,
    {
        &self.batch_range
    }

    /// The instances that the batch draws, to be changed in place.
    pub fn batch_range_mut(&mut self) -> (range: &mut BatchRange)
        ensures
            *range == old(self).batch_range,
            *final(self) == (FloodInitPhase { batch_range: *final(range), ..*old(self) }),
    {
        &mut self.batch_range
    }

    /// What the batch carries besides its batch range.
    pub fn extra_index(&self) -> (index: PhaseItemExtraIndex)
        ensures
            index == self.extra_index,
    {
        self.extra_index
    }

    /// The batch range and the extra index of the batch, both to be changed
    /// in place.
    pub fn batch_range_and_extra_index_mut(&mut self) -> (parts: (
        &mut BatchRange,
        &mut PhaseItemExtraIndex,
    ))
        ensures
            *parts.0 == old(self).batch_range,
            *parts.1 == old(self).extra_index,
            *final(self) == (FloodInitPhase {
                batch_range: *final(parts.0),
                extra_index: *final(parts.1),
                ..*old(self)
            }),
    {
        (&mut self.batch_range, &mut self.extra_index)
    }

    /// The specialized pipeline that draws the batch.
    pub fn cached_pipeline(&self) -> (pipeline: usize)
        ensures
            pipeline == self.key.pipeline,
    {
        self.key.pipeline
    }
}

/// Whether a mesh can share a draw with others of its bin.
#[derive(Clone, Copy, Debug, PartialEq, Eq, Structural)]
pub enum BatchType {
    /// The mesh can be drawn together with the others of its bin.
    Batchable,
    /// The mesh has to be drawn by itself.
    Unbatchable,
}

/// The meshes of one bin key.
#[derive(Debug, PartialEq, Eq)]
pub struct PhaseBin {
    /// The key that the meshes share.
    pub key: FloodInitPhaseBinKey,
    /// The meshes, in the order in which they were added.
    pub entities: Vec<(u64, u64)>,
}

/// A mesh with its bin key.
pub type Keyed = (FloodInitPhaseBinKey, (u64, u64));

/// The bins of a queue: each key with its meshes.
pub type Bins = Seq<(FloodInitPhaseBinKey, Seq<(u64, u64)>)>;

/// The queue of a binned phase.
pub struct BinnedPhase {
    bins: Vec<PhaseBin>,
    unbatchable: Vec<Keyed>,
}

/// Where the bin of `key` stands among `bins`; their number if there is
/// none.
pub open spec fn bin_index(bins: Bins, key: FloodInitPhaseBinKey)
    -> int
    decreases bins.len(),
{
    if bins.len() == 0 {
        0
    } else if bins[0].0 == key {
        0
    } else {
        1 + bin_index(bins.drop_first(), key)
    }
}

/// The bins after a batchable mesh of bin `key` was added: the mesh joins
/// the bin of its key at the end, or opens a new bin behind the others.
pub open spec fn binned(
    bins: Bins,
    key: FloodInitPhaseBinKey,
    entity: (u64, u64),
) -> Bins {
    let index = bin_index(bins, key);
    if index < bins.len() {
        bins.update(index, (key, bins[index].1.push(entity)))
    } else {
        bins.push((key, seq![entity]))
    }
}

/// No two bins have the same key, and no bin is empty.
pub open spec fn bins_distinct(bins: Bins) -> bool {
    &&& forall|i: int, j: int|
        0 <= i < j < bins.len() ==> (#[trigger] bins[i]).0 != (#[trigger] bins[j]).0
    &&& forall|i: int| 0 <= i < bins.len() ==> (#[trigger] bins[i]).1.len() > 0
}

/// The index of a key is where its first bin stands, and no bin before that
/// has the key.
pub proof fn lemma_bin_index(bins: Bins, key: FloodInitPhaseBinKey)
    ensures
        0 <= bin_index(bins, key) <= bins.len(),
        bin_index(bins, key) < bins.len() ==> bins[bin_index(bins, key)].0 == key,
        forall|i: int| 0 <= i < bin_index(bins, key) ==> (#[trigger] bins[i]).0 != key,
    decreases bins.len(),
{
    if bins.len() != 0 && bins[0].0 != key {
        let rest = bins.drop_first();
        lemma_bin_index(rest, key);
        assert forall|i: int| 0 <= i < bin_index(bins, key) implies (#[trigger] bins[i]).0
            != key by {
            if i > 0 {
                assert(bins[i] == rest[i - 1]);
            }
        }
    }
}

/// Adding a batchable mesh keeps the keys of the bins distinct and the bins
/// non-empty, keeps every other bin as it was, and puts the mesh last in the
/// bin of its key.
pub proof fn lemma_binned(
    bins: Bins,
    key: FloodInitPhaseBinKey,
    entity: (u64, u64),
)
    requires
        bins_distinct(bins),
    ensures
        bins_distinct(binned(bins, key, entity)),
        binned(bins, key, entity)[bin_index(bins, key)].0 == key,
        binned(bins, key, entity)[bin_index(bins, key)].1.last() == entity,
        forall|i: int|
            0 <= i < bins.len() && i != bin_index(bins, key) ==> #[trigger] binned(
                bins,
                key,
                entity,
            )[i] == bins[i],
{
    lemma_bin_index(bins, key);
    let after = binned(bins, key, entity);
    let index = bin_index(bins, key);
    assert forall|i: int, j: int| 0 <= i < j < after.len() implies (#[trigger] after[i]).0 != (
    #[trigger] after[j]).0 by {
        if index == bins.len() {
            if j == index {
                assert(bins[i].0 != key);
            } else {
                assert(bins[i].0 != bins[j].0);
            }
        } else {
            assert(bins[i].0 != bins[j].0);
        }
    }
}

impl BinnedPhase {
    /// The bins of the queue: each key with its meshes, in the order in
    /// which the keys first came.
    pub closed spec fn bins_of(self) -> Bins {
        Seq::new(self.bins@.len(), |i: int| (self.bins@[i].key, self.bins@[i].entities@))
    }

    /// The meshes that are drawn by themselves, in the order in which they
    /// were added.
    pub closed spec fn unbatchable_of(self) -> Seq<Keyed> {
        self.unbatchable@
    }

    /// A queue without any mesh.
    pub fn new() -> (phase: Self)
        ensures
            phase.bins_of().len() == 0,
            phase.unbatchable_of().len() == 0,
            bins_distinct(phase.bins_of()),
    {
        BinnedPhase { bins: Vec::new(), unbatchable: Vec::new() }
    }

    /// Empties the queue, as every frame does before it queues anew.
    pub fn clear(&mut self)
        ensures
            final(self).bins_of().len() == 0,
            final(self).unbatchable_of().len() == 0,
    {
        self.bins.clear();
        self.unbatchable.clear();
    }

    /// Whether the queue holds no mesh.
    pub fn is_empty(&self) -> (empty: bool)
        ensures
            empty == (self.bins_of().len() == 0 && self.unbatchable_of().len() == 0),
    {
        self.bins.len() == 0 && self.unbatchable.len() == 0
    }

    /// Number of bins of the queue.
    pub fn bin_count(&self) -> (count: usize)
        ensures
            count == self.bins_of().len(),
    {
        self.bins.len()
    }

    /// The bin at `index`, in the order in which the keys first came.
    pub fn bin(&self, index: usize) -> (bin: Option<&PhaseBin>)
        ensures
            index < self.bins_of().len() <==> bin.is_some(),
            bin matches Some(bin) ==> (bin.key, bin.entities@) == self.bins_of()[index as int],
    {
        if index < self.bins.len() {
            Some(&self.bins[index])
        } else {
            None
        }
    }

    /// The meshes that are drawn by themselves.
    pub fn unbatchable(&self) -> (meshes: &Vec<Keyed>)
        ensures
            meshes@ == self.unbatchable_of(),
    {
        &self.unbatchable
    }

    /// Adds a mesh to the queue.
    ///
    /// A mesh that cannot be batched joins the meshes that are drawn by
    /// themselves. A batchable mesh joins the bin of its key, behind the
    /// meshes that the bin holds, or opens a new bin behind the other bins
    /// if no bin has its key.
    pub fn add(
        &mut self,
        bin_key: FloodInitPhaseBinKey,
        representative_entity: (u64, u64),
        batch_type: BatchType,
    )
        ensures
            batch_type == BatchType::Unbatchable ==> final(self).bins_of() == old(self).bins_of()
                && final(self).unbatchable_of() == old(self).unbatchable_of().push(
                (bin_key, representative_entity),
            ),
            batch_type == BatchType::Batchable ==> final(self).bins_of() == binned(
                old(self).bins_of(),
                bin_key,
                representative_entity,
            ) && final(self).unbatchable_of() == old(self).unbatchable_of(),
    {
        match batch_type {
            BatchType::Unbatchable => {
                self.unbatchable.push((bin_key, representative_entity));
                assert(self.bins_of() =~= old(self).bins_of());
            },
            BatchType::Batchable => {
                let ghost before = self.bins_of();
                let mut index: usize = 0;
                assert(before.skip(0) =~= before);
                while index < self.bins.len() && self.bins[index].key != bin_key
                    invariant
                        index <= self.bins@.len(),
                        *self == *old(self),
                        before == self.bins_of(),
                        bin_index(before, bin_key) == index + bin_index(
                            before.skip(index as int),
                            bin_key,
                        ),
                    decreases self.bins@.len() - index,
                {
                    assert(before.skip(index as int)[0] == before[index as int]);
                    assert(before.skip(index as int).drop_first() =~= before.skip(
                        index as int + 1,
                    ));
                    index = index + 1;
                }
                if index < self.bins.len() {
                    assert(before.skip(index as int)[0] == before[index as int]);
                    let mut bin = self.bins.remove(index);
                    bin.entities.push(representative_entity);
                    self.bins.insert(index, bin);
                } else {
                    assert(before.skip(index as int).len() == 0);
                    let mut entities: Vec<(u64, u64)> = Vec::new();
                    entities.push(representative_entity);
                    self.bins.push(PhaseBin { key: bin_key, entities });
                }
                assert(self.bins_of() =~= binned(before, bin_key, representative_entity));
            },
        }
    }
}

} // verus!
