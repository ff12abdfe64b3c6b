//! The pipelines that were specialized for the meshes of one view.
//!
//! Specializing a pipeline is costly, so its result is kept together with
//! the tick at which it was computed. An entry may be used again as long
//! as nothing it depends on has changed since: it is valid only if its tick
//! is not older than the last change of the view's key or of the mesh.

use crate::collections::{id_map, id_map_get, id_map_insert, id_map_new};
use bevy::platform::collections::HashMap;
use vstd::prelude::*;

verus! {

/// The pipeline that was specialized for a mesh, and when.
#[derive(Clone, Copy, Debug, PartialEq, Eq, Structural)]
pub struct CacheEntry {
    /// The tick at which the pipeline was specialized.
    pub tick: u64,
    /// The specialized pipeline.
    pub pipeline: u64,
}

/// The cache of one view: an entry for every mesh that a pipeline was
/// specialized for.
pub struct ViewRenderCache {
    maps: CacheMaps,
}

/// The two halves of the entries: the tick and the pipeline of every mesh.
struct CacheMaps {
    ticks: HashMap<u64, u64>,
    pipelines: HashMap<u64, u64>,
}

impl CacheMaps {
    /// Every mesh with a tick has a pipeline, and the other way round.
    spec fn paired(self) -> bool {
        id_map(self.ticks).dom() == id_map(self.pipelines).dom()
    }

    /// The entry of every mesh.
    spec fn entries(self) -> Map<u64, CacheEntry> {
        Map::new(
            |entity: u64| id_map(self.ticks).contains_key(entity),
            |entity: u64|
                CacheEntry {
                    tick: id_map(self.ticks)[entity],
                    pipeline: id_map(self.pipelines)[entity],
                },
        )
    }

    /// Maps without any entry.
    fn new() -> (maps: Self)
        ensures
            maps.paired(),
            maps.entries() == Map::<u64, CacheEntry>::empty(),
    {
        let maps = CacheMaps { ticks: id_map_new(), pipelines: id_map_new() };
        assert(maps.entries() =~= Map::<u64, CacheEntry>::empty());
        maps
    }
}

/// Whether an entry may still be used when the last change that it depends
/// on happened at tick `changed`.
pub open spec fn entry_valid(entry: CacheEntry, changed: u64) -> bool {
    entry.tick >= changed
}

impl View for ViewRenderCache {
    type V = Map<u64, CacheEntry>;

    closed spec fn view(&self) -> Map<u64, CacheEntry> {
        self.maps.entries()
    }
}

impl ViewRenderCache {
    /// Every mesh with a tick has a pipeline, and the other way round.
    #[verifier::type_invariant]
    spec fn inv(self) -> bool {
        self.maps.paired()
    }

    /// A cache without any entry.
    pub fn new() -> (cache: Self)
        ensures
            cache@ == Map::<u64, CacheEntry>::empty(),
    {
        ViewRenderCache { maps: CacheMaps::new() }
    }

    /// The pipeline that was specialized for `entity`, if the cache has an
    /// entry for the mesh and the entry is not older than `changed`, the
    /// tick of the last change of the view's key or of the mesh.
    pub fn get(&self, entity: u64, changed: u64) -> (pipeline: Option<u64>)
        ensures
            pipeline == if self@.contains_key(entity) && entry_valid(self@[entity], changed) {
                Some(self@[entity].pipeline)
            } else {
                None
            },
    {
        proof {
            use_type_invariant(self);
        }
        match id_map_get(&self.maps.ticks, entity) {
            Some(tick) => {
                if *tick >= changed {
                    match id_map_get(&self.maps.pipelines, entity) {
                        Some(pipeline) => Some(*pipeline),
                        None => None,
                    }
                } else {
                    None
                }
            },
            None => None,
        }
    }

    /// Records that `pipeline` was specialized for `entity` at `tick`. What
    /// the cache held for the mesh is replaced.
    pub fn record(&mut self, entity: u64, tick: u64, pipeline: u64)
        ensures
            final(self)@ == old(self)@.insert(entity, CacheEntry { tick, pipeline }),
    {
        proof {
            use_type_invariant(&*self);
        }
        let mut maps = CacheMaps::new();
        std::mem::swap(&mut maps, &mut self.maps);
        id_map_insert(&mut maps.ticks, entity, tick);
        id_map_insert(&mut maps.pipelines, entity, pipeline);
        assert(maps.entries() =~= old(self)@.insert(entity, CacheEntry { tick, pipeline }));
        self.maps = maps;
    }

    /// Drops every entry, as is done for a view that is gone.
    pub fn clear(&mut self)
        ensures
            final(self)@ == Map::<u64, CacheEntry>::empty(),
    {
        self.maps = CacheMaps::new();
    }
}

} // verus!
