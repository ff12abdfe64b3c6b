//! The hash collections of `bevy::platform::collections`, as far as the
//! registries of this crate use them.
//!
//! The collections are taken on trust. Each function that is marked as
//! external makes one call into a collection, and its contract says what the
//! collection's documentation says of that call; Verus believes it without
//! proof. The few other functions are verified against these contracts.

use crate::texture::VoronoiTexture;
use bevy::platform::collections::{HashMap, HashSet};
use bevy::platform::hash::FixedHasher;
use vstd::prelude::*;

verus! {

/// `bevy::platform::collections::HashMap`, a map whose inside Verus does not
/// see.
#[verifier::external_type_specification]
#[verifier::external_body]
#[verifier::reject_recursive_types(K)]
#[verifier::reject_recursive_types(V)]
#[verifier::reject_recursive_types(S)]
pub struct ExHashMap<K, V, S>(HashMap<K, V, S>);

/// `bevy::platform::collections::HashSet`, a set whose inside Verus does not
/// see.
#[verifier::external_type_specification]
#[verifier::external_body]
#[verifier::reject_recursive_types(T)]
#[verifier::reject_recursive_types(S)]
pub struct ExHashSet<T, S>(HashSet<T, S>);

/// `bevy::platform::hash::FixedHasher`, the hasher that both collections use
/// unless another is named.
#[verifier::external_type_specification]
#[verifier::external_body]
pub struct ExFixedHasher(FixedHasher);

/// The identifiers that a set holds.
pub uninterp spec fn id_set(set: HashSet<u64>) -> Set<u64>;

/// The pairs of surfaces that a map holds, by view.
pub uninterp spec fn texture_map(map: HashMap<u64, VoronoiTexture>) -> Map<u64, VoronoiTexture>;

/// The identifier that a map holds for each entity.
pub uninterp spec fn id_map(map: HashMap<u64, u64>) -> Map<u64, u64>;

/// `HashSet::new`: a set that holds nothing.
#[verifier::external_body]
pub(crate) fn id_set_new() -> (set: HashSet<u64>)
    ensures
        id_set(set) == Set::<u64>::empty(),
{
    HashSet::new()
}

/// `HashSet::insert`: the set holds `id` afterwards, and what it held
/// before. The result says whether `id` is new to the set.
#[verifier::external_body]
pub(crate) fn id_set_insert(set: &mut HashSet<u64>, id: u64) -> (fresh: bool)
    ensures
        id_set(*final(set)) == id_set(*old(set)).insert(id),
        fresh == !id_set(*old(set)).contains(id),
{
    set.insert(id)
}

/// `HashSet::contains`: whether the set holds `id`.
#[verifier::external_body]
pub(crate) fn id_set_contains(set: &HashSet<u64>, id: u64) -> (found: bool)
    ensures
        found == id_set(*set).contains(id),
{
    set.contains(&id)
}

/// `HashMap::new`: a map that holds nothing.
#[verifier::external_body]
pub(crate) fn texture_map_new() -> (textures: HashMap<u64, VoronoiTexture>)
    ensures
        texture_map(textures) == (Map::<u64, VoronoiTexture>::empty()),
{
    HashMap::new()
}

/// `HashMap::insert`: the map holds `texture` under `view` afterwards, and
/// every other entry as before. The result is what `view` had before.
#[verifier::external_body]
pub(crate) fn texture_map_insert(
    map: &mut HashMap<u64, VoronoiTexture>,
    view: u64,
    texture: VoronoiTexture,
) -> (previous: Option<VoronoiTexture>)
    ensures
        texture_map(*final(map)) == texture_map(*old(map)).insert(view, texture),
        previous == if texture_map(*old(map)).contains_key(view) {
            Some(texture_map(*old(map))[view])
        } else {
            None
        },
{
    map.insert(view, texture)
}

/// `HashMap::get`: the entry of `view`, if the map has one.
#[verifier::external_body]
pub(crate) fn texture_map_get(map: &HashMap<u64, VoronoiTexture>, view: u64) -> (texture: Option<
    &VoronoiTexture,
>)
    ensures
        texture == if texture_map(*map).contains_key(view) {
            Some(&texture_map(*map)[view])
        } else {
            None
        },
{
    map.get(&view)
}

/// `HashMap::remove`: the map has no entry for `view` afterwards, and every
/// other entry as before. The result is what `view` had before.
#[verifier::external_body]
pub(crate) fn texture_map_remove(map: &mut HashMap<u64, VoronoiTexture>, view: u64) -> (previous:
    Option<VoronoiTexture>)
    ensures
        texture_map(*final(map)) == texture_map(*old(map)).remove(view),
        previous == if texture_map(*old(map)).contains_key(view) {
            Some(texture_map(*old(map))[view])
        } else {
            None
        },
{
    map.remove(&view)
}

/// Whether `live` holds `id`. This is the test by which the registries keep
/// or drop an entry.
pub(crate) fn is_live(live: &HashSet<u64>, id: u64) -> (found: bool)
    ensures
        found == id_set(*live).contains(id),
{
    id_set_contains(live, id)
}

/// The set of the identifiers in `ids`.
pub(crate) fn id_set_from(ids: &Vec<u64>) -> (set: HashSet<u64>)
    ensures
        id_set(set) == ids@.to_set(),
{
    let mut set = id_set_new();
    let mut index: usize = 0;
    assert(ids@.take(0).to_set() =~= Set::<u64>::empty());
    while index < ids.len()
        invariant
            index <= ids.len(),
            id_set(set) == ids@.take(index as int).to_set(),
        decreases ids.len() - index,
    {
        proof {
            let done = ids@.take(index as int);
            let next = ids@.take(index as int + 1);
            assert(next =~= done.push(ids@[index as int]));
            done.lemma_push_to_set_commute(ids@[index as int]);
        }
        id_set_insert(&mut set, ids[index]);
        index = index + 1;
    }
    assert(ids@.take(ids.len() as int) =~= ids@);
    set
}

/// `HashMap::retain`, with `is_live` as the test: the map keeps the entries
/// whose view is in `live`, unchanged, and no other.
#[verifier::external_body]
pub(crate) fn texture_map_retain(map: &mut HashMap<u64, VoronoiTexture>, live: &HashSet<u64>)
    ensures
        texture_map(*final(map)) == texture_map(*old(map)).restrict(id_set(*live)),
{
    map.retain(|view, _| is_live(live, *view));
}

/// `HashMap::new`: a map that holds nothing.
#[verifier::external_body]
pub(crate) fn id_map_new() -> (entries: HashMap<u64, u64>)
    ensures
        id_map(entries) == (Map::<u64, u64>::empty()),
{
    HashMap::new()
}

/// `HashMap::clear`: the map holds nothing afterwards.
#[verifier::external_body]
pub(crate) fn id_map_clear(map: &mut HashMap<u64, u64>)
    ensures
        id_map(*final(map)) == (Map::<u64, u64>::empty()),
{
    map.clear();
}

/// `HashMap::insert`: the map holds `id` under `entity` afterwards, and
/// every other entry as before. The result is what `entity` had before.
#[verifier::external_body]
pub(crate) fn id_map_insert(map: &mut HashMap<u64, u64>, entity: u64, id: u64) -> (previous: Option<
    u64,
>)
    ensures
        id_map(*final(map)) == id_map(*old(map)).insert(entity, id),
        previous == if id_map(*old(map)).contains_key(entity) {
            Some(id_map(*old(map))[entity])
        } else {
            None
        },
{
    map.insert(entity, id)
}

/// `HashMap::get`: the entry of `entity`, if the map has one.
#[verifier::external_body]
pub(crate) fn id_map_get(map: &HashMap<u64, u64>, entity: u64) -> (id: Option<&u64>)
    ensures
        id == if id_map(*map).contains_key(entity) {
            Some(&id_map(*map)[entity])
        } else {
            None
        },
{
    map.get(&entity)
}

/// `HashMap::contains_key`: whether the map has an entry for `entity`.
#[verifier::external_body]
pub(crate) fn id_map_contains_key(map: &HashMap<u64, u64>, entity: u64) -> (found: bool)
    ensures
        found == id_map(*map).contains_key(entity),
{
    map.contains_key(&entity)
}

/// `HashMap::is_empty`: whether the map holds nothing.
#[verifier::external_body]
pub(crate) fn id_map_is_empty(map: &HashMap<u64, u64>) -> (empty: bool)
    ensures
        empty == (id_map(*map) == Map::<u64, u64>::empty()),
{
    map.is_empty()
}

/// Whether `map` has an entry for `entity`. This is the test by which the
/// bind groups of meshes that left the scene are dropped.
pub(crate) fn has_entry(map: &HashMap<u64, u64>, entity: u64) -> (found: bool)
    ensures
        found == id_map(*map).contains_key(entity),
{
    id_map_contains_key(map, entity)
}

/// `HashMap::retain`, with `has_entry` on `keep` as the test: the map keeps
/// the entries whose entity has an entry in `keep`, unchanged, and no other.
#[verifier::external_body]
pub(crate) fn id_map_retain(map: &mut HashMap<u64, u64>, keep: &HashMap<u64, u64>)
    ensures
        id_map(*final(map)) == id_map(*old(map)).restrict(id_map(*keep).dom()),
{
    map.retain(|entity, _| has_entry(keep, *entity));
}

/// `HashMap::iter`, collected: every entry of the map once, in the order in
/// which the map hands them out. Nothing is said of that order.
#[verifier::external_body]
pub(crate) fn id_map_entries(map: &HashMap<u64, u64>) -> (entries: Vec<(u64, u64)>)
    ensures
        forall|i: int, j: int|
            0 <= i < j < entries@.len() ==> (#[trigger] entries@[i]).0 != (
            #[trigger] entries@[j]).0,
        forall|i: int|
            0 <= i < entries@.len() ==> id_map(*map).contains_key((#[trigger] entries@[i]).0)
                && id_map(*map)[entries@[i].0] == entries@[i].1,
        forall|entity: u64| #[trigger]
            id_map(*map).contains_key(entity) ==> exists|i: int|
                0 <= i < entries@.len() && (#[trigger] entries@[i]).0 == entity,
{
    map.iter().map(|(entity, id)| (*entity, *id)).collect()
}

} // verus!
