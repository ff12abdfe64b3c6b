//! The ping-pong pairs of all live views.
//!
//! A view gets a fresh pair when it first appears, in every frame in which it
//! is marked for an update, and in every frame in which the pair that it has
//! is not of the extent that its colour target and its scale give, as after
//! a resize. A view that is gone loses its pair. So after every frame each
//! pair belongs to a live view and has the extent of that view.

use crate::collections::{
    id_set, id_set_insert, id_set_new, texture_map, texture_map_get, texture_map_insert,
    texture_map_new, texture_map_remove, texture_map_retain,
};
use crate::error::VoronoiError;
use crate::texture::{Extent, SurfaceHandle, VoronoiTexture};
use crate::view::{aux_texture_extent, ViewScale};
use bevy::platform::collections::HashMap;
use vstd::prelude::*;

verus! {

/// The ping-pong pair of every view that has one.
pub struct VoronoiTextures {
    textures: HashMap<u64, VoronoiTexture>,
}

impl View for VoronoiTextures {
    type V = Map<u64, VoronoiTexture>;

    closed spec fn view(&self) -> Map<u64, VoronoiTexture> {
        texture_map(self.textures)
    }
}

/// One view as the frame finds it when it prepares the surfaces.
#[derive(Clone, Copy, Debug, PartialEq, Eq)]
pub struct PreparedView {
    /// The view.
    pub view: u64,
    /// Whether the view was marked for an update in this frame.
    pub needs_update: bool,
    /// Extent of the view's colour target.
    pub target: Extent,
    /// Ratio between the ping-pong surfaces and the colour target.
    pub scale: ViewScale,
    /// The two surfaces that the host allocated for the view in this frame,
    /// if it allocated any.
    pub surfaces: Option<(SurfaceHandle, SurfaceHandle)>,
}

impl PreparedView {
    /// The extent that the surfaces of the view must have in this frame.
    pub open spec fn surface_extent(self) -> Extent {
        self.scale.scaled_extent(self.target)
    }

    /// Whether the surfaces that were allocated for the view can back its
    /// pair.
    pub open spec fn surfaces_fit(self) -> bool {
        self.surfaces matches Some(pair) && crate::texture::pair_fits(
            pair.0,
            pair.1,
            self.surface_extent(),
        )
    }

    /// The fresh pair of the view, made of the surfaces that were allocated
    /// for it.
    pub open spec fn fresh_pair(self) -> VoronoiTexture {
        VoronoiTexture::fresh(self.surfaces.unwrap().0, self.surfaces.unwrap().1)
    }

    /// Whether the view has to get new surfaces in this frame, given the
    /// pairs that are registered: it is marked for an update, it has no pair
    /// yet, or the pair that it has is not of the extent that its target and
    /// scale give now.
    pub open spec fn needs_surfaces(self, textures: Map<u64, VoronoiTexture>) -> bool {
        ||| self.needs_update
        ||| !textures.contains_key(self.view)
        ||| textures[self.view].extent_of() != self.surface_extent()
    }
}

/// Whether `index` is the last place at which its view is listed.
pub open spec fn is_last_listing(views: Seq<PreparedView>, index: int) -> bool {
    &&& 0 <= index < views.len()
    &&& forall|j: int| index < j < views.len() ==> (#[trigger] views[j]).view != views[index].view
}

/// The registry after one view was prepared: a view that has to get new
/// surfaces gets its fresh pair, or loses its pair if its surfaces do not
/// fit; any other view keeps what it has.
pub open spec fn prepare_one(textures: Map<u64, VoronoiTexture>, view: PreparedView) -> Map<
    u64,
    VoronoiTexture,
> {
    if !view.needs_surfaces(textures) {
        textures
    } else if view.surfaces_fit() {
        textures.insert(view.view, view.fresh_pair())
    } else {
        textures.remove(view.view)
    }
}

/// The registry after the given views were prepared, one after the other.
pub open spec fn prepare_all(textures: Map<u64, VoronoiTexture>, views: Seq<PreparedView>) -> Map<
    u64,
    VoronoiTexture,
>
    decreases views.len(),
{
    if views.len() == 0 {
        textures
    } else {
        prepare_one(prepare_all(textures, views.drop_last()), views.last())
    }
}

/// The views of a frame.
pub open spec fn live_views(views: Seq<PreparedView>) -> Set<u64> {
    Set::new(|view: u64| exists|i: int| 0 <= i < views.len() && #[trigger] views[i].view == view)
}

/// The views that had to get new surfaces but whose surfaces do not fit,
/// each with the reason, in the order of `views`.
pub open spec fn failed_views(textures: Map<u64, VoronoiTexture>, views: Seq<PreparedView>) -> Seq<
    (u64, VoronoiError),
>
    decreases views.len(),
{
    if views.len() == 0 {
        Seq::empty()
    } else {
        let rest = failed_views(textures, views.drop_last());
        let view = views.last();
        if view.needs_surfaces(prepare_all(textures, views.drop_last())) && !view.surfaces_fit() {
            rest.push((view.view, VoronoiError::AllocationFailure))
        } else {
            rest
        }
    }
}

/// The surfaces of the pairs that the given views have, view by view.
pub open spec fn surfaces_in_use(textures: Map<u64, VoronoiTexture>, views: Seq<PreparedView>)
    -> Seq<SurfaceHandle>
    decreases views.len(),
{
    if views.len() == 0 {
        Seq::empty()
    } else {
        let rest = surfaces_in_use(textures, views.drop_last());
        let view = views.last().view;
        if textures.contains_key(view) {
            rest.push(textures[view].first()).push(textures[view].second())
        } else {
            rest
        }
    }
}

/// Whether the pair of the view that is listed at `index` is made of
/// `surface`.
pub open spec fn pair_holds(
    textures: Map<u64, VoronoiTexture>,
    views: Seq<PreparedView>,
    index: int,
    surface: SurfaceHandle,
) -> bool {
    &&& 0 <= index < views.len()
    &&& textures.contains_key(views[index].view)
    &&& textures[views[index].view].first() == surface || textures[views[index].view].second()
        == surface
}

/// A surface is in use if and only if one of the listed views has a pair
/// that is made of it.
pub proof fn lemma_surfaces_in_use(
    textures: Map<u64, VoronoiTexture>,
    views: Seq<PreparedView>,
    surface: SurfaceHandle,
)
    ensures
        surfaces_in_use(textures, views).contains(surface) <==> exists|i: int|
            pair_holds(textures, views, i, surface),
    decreases views.len(),
{
    if views.len() > 0 {
        let rest = views.drop_last();
        let view = views.last().view;
        lemma_surfaces_in_use(textures, rest, surface);
        let before = surfaces_in_use(textures, rest);
        let all = surfaces_in_use(textures, views);
        if all.contains(surface) {
            let k = choose|k: int| 0 <= k < all.len() && all[k] == surface;
            if k < before.len() {
                assert(before[k] == surface);
                let i = choose|i: int| pair_holds(textures, rest, i, surface);
                assert(views[i] == rest[i]);
                assert(pair_holds(textures, views, i, surface));
            } else {
                assert(pair_holds(textures, views, views.len() - 1, surface));
            }
        }
        if exists|i: int| pair_holds(textures, views, i, surface) {
            let i = choose|i: int| pair_holds(textures, views, i, surface);
            if i < rest.len() {
                assert(rest[i] == views[i]);
                assert(pair_holds(textures, rest, i, surface));
                let k = choose|k: int| 0 <= k < before.len() && before[k] == surface;
                assert(all[k] == surface);
            } else {
                assert(all[all.len() - 1] == textures[view].second());
                assert(all[all.len() - 2] == textures[view].first());
            }
        }
    }
}

/// Preparing views leaves a view alone that is not among them.
pub proof fn lemma_prepare_all_skips(
    textures: Map<u64, VoronoiTexture>,
    views: Seq<PreparedView>,
    view: u64,
)
    requires
        forall|j: int| 0 <= j < views.len() ==> (#[trigger] views[j]).view != view,
    ensures
        prepare_all(textures, views).contains_key(view) == textures.contains_key(view),
        textures.contains_key(view) ==> prepare_all(textures, views)[view] == textures[view],
    decreases views.len(),
{
    if views.len() > 0 {
        let rest = views.drop_last();
        assert forall|j: int| 0 <= j < rest.len() implies (#[trigger] rest[j]).view != view by {
            assert(rest[j] == views[j]);
        }
        lemma_prepare_all_skips(textures, rest, view);
        assert(views.last() == views[views.len() - 1]);
    }
}

/// Whether the view `view` is last listed at `index` and its pair in
/// `textures` has the extent that this listing gives.
pub open spec fn listed_with_current_extent(
    textures: Map<u64, VoronoiTexture>,
    views: Seq<PreparedView>,
    view: u64,
    index: int,
) -> bool {
    &&& is_last_listing(views, index)
    &&& views[index].view == view
    &&& textures[view].extent_of() == views[index].surface_extent()
}

/// After a frame was prepared, every pair in the registry belongs to a live
/// view and has the extent that the last listing of that view gives: no
/// view keeps surfaces of another extent, marked or not.
pub proof fn lemma_pairs_have_current_extent(
    textures: Map<u64, VoronoiTexture>,
    views: Seq<PreparedView>,
    view: u64,
)
    requires
        prepare_all(textures, views).restrict(live_views(views)).contains_key(view),
    ensures
        live_views(views).contains(view),
        exists|i: int|
            listed_with_current_extent(
                prepare_all(textures, views).restrict(live_views(views)),
                views,
                view,
                i,
            ),
{
    lemma_listed_pair_has_current_extent(textures, views, view);
    let i = choose|i: int|
        listed_with_current_extent(prepare_all(textures, views), views, view, i);
    assert(listed_with_current_extent(
        prepare_all(textures, views).restrict(live_views(views)),
        views,
        view,
        i,
    ));
}

/// A view that is listed has, after its listings, a pair of the extent that
/// its last listing gives, or none.
proof fn lemma_listed_pair_has_current_extent(
    textures: Map<u64, VoronoiTexture>,
    views: Seq<PreparedView>,
    view: u64,
)
    requires
        live_views(views).contains(view),
        prepare_all(textures, views).contains_key(view),
    ensures
        exists|i: int| listed_with_current_extent(prepare_all(textures, views), views, view, i),
    decreases views.len(),
{
    let listed = choose|i: int| 0 <= i < views.len() && #[trigger] views[i].view == view;
    let rest = views.drop_last();
    let last = views.last();
    let before = prepare_all(textures, rest);
    let after = prepare_all(textures, views);
    assert(last == views[views.len() - 1]);
    if last.view == view {
        if last.needs_surfaces(before) {
            VoronoiTexture::lemma_fresh(last.surfaces.unwrap().0, last.surfaces.unwrap().1);
        }
        assert(listed_with_current_extent(after, views, view, views.len() - 1));
    } else {
        assert(rest[listed] == views[listed]);
        assert(live_views(rest).contains(view));
        lemma_listed_pair_has_current_extent(textures, rest, view);
        let i = choose|i: int| listed_with_current_extent(before, rest, view, i);
        assert(views[i] == rest[i]);
        assert forall|j: int| i < j < views.len() implies (#[trigger] views[j]).view
            != views[i].view by {
            if j < rest.len() {
                assert(rest[j] == views[j]);
            }
        }
        assert(listed_with_current_extent(after, views, view, i));
    }
}

/// A live view that is not marked for an update and whose pair has the
/// extent that its target and scale give keeps that pair, and a view that
/// is not live has none after the frame was prepared.
pub proof fn lemma_unmarked_view_keeps_its_pair(
    textures: Map<u64, VoronoiTexture>,
    views: Seq<PreparedView>,
    view: u64,
)
    requires
        forall|j: int|
            0 <= j < views.len() && (#[trigger] views[j]).view == view ==> !views[j].needs_surfaces(
                textures,
            ),
    ensures
        ({
            let after = prepare_all(textures, views).restrict(live_views(views));
            &&& after.contains_key(view) == (live_views(views).contains(view)
                && textures.contains_key(view))
            &&& after.contains_key(view) ==> after[view] == textures[view]
        }),
{
    lemma_prepare_all_keeps(textures, views, view);
}

/// A view whose listings all find it with what it needs is left as it is by
/// the listings.
proof fn lemma_prepare_all_keeps(
    textures: Map<u64, VoronoiTexture>,
    views: Seq<PreparedView>,
    view: u64,
)
    requires
        forall|j: int|
            0 <= j < views.len() && (#[trigger] views[j]).view == view ==> !views[j].needs_surfaces(
                textures,
            ),
    ensures
        prepare_all(textures, views).contains_key(view) == textures.contains_key(view),
        textures.contains_key(view) ==> prepare_all(textures, views)[view] == textures[view],
    decreases views.len(),
{
    if views.len() > 0 {
        let rest = views.drop_last();
        assert forall|j: int| 0 <= j < rest.len() && (#[trigger] rest[j]).view
            == view implies !rest[j].needs_surfaces(textures) by {
            assert(rest[j] == views[j]);
        }
        lemma_prepare_all_keeps(textures, rest, view);
        assert(views.last() == views[views.len() - 1]);
    }
}

/// A view that has to get new surfaces never keeps surfaces of an earlier
/// frame: whatever the registry held, after the frame was prepared the view
/// has a pair if and only if the surfaces that were allocated for it fit, and
/// then it is the fresh pair of exactly these two surfaces, at the extent
/// that the view's target and scale give in this frame. This holds of a view
/// that is marked for an update, and of one that is not marked but whose
/// pair has another extent, as after a resize. Where a view is listed more
/// than once, this holds of its last listing.
pub proof fn lemma_view_gets_current_surfaces(
    textures: Map<u64, VoronoiTexture>,
    views: Seq<PreparedView>,
    index: int,
)
    requires
        is_last_listing(views, index),
        views[index].needs_surfaces(prepare_all(textures, views.take(index))),
    ensures
        ({
            let view = views[index];
            let after = prepare_all(textures, views).restrict(live_views(views));
            &&& after.contains_key(view.view) == view.surfaces_fit()
            &&& after.contains_key(view.view) ==> {
                &&& after[view.view] == view.fresh_pair()
                &&& after[view.view].first() == view.surfaces.unwrap().0
                &&& after[view.view].second() == view.surfaces.unwrap().1
                &&& after[view.view].wf()
                &&& after[view.view].extent_of() == view.surface_extent()
            }
        }),
    decreases views.len(),
{
    let view = views[index];
    assert(live_views(views).contains(view.view));
    if view.surfaces_fit() {
        VoronoiTexture::lemma_fresh(view.surfaces.unwrap().0, view.surfaces.unwrap().1);
    }
    if index == views.len() - 1 {
        assert(views.last() == view);
        assert(views.drop_last() =~= views.take(index));
    } else {
        let rest = views.drop_last();
        assert(rest[index] == views[index]);
        assert forall|j: int| index < j < rest.len() implies (#[trigger] rest[j]).view
            != rest[index].view by {
            assert(rest[j] == views[j]);
        }
        assert(rest.take(index) =~= views.take(index));
        lemma_view_gets_current_surfaces(textures, rest, index);
        assert(live_views(rest).contains(view.view)) by {
            assert(rest[index].view == view.view);
        }
        assert(views.last() == views[views.len() - 1]);
    }
}

/// A view that is marked for an update gets the surfaces that were allocated
/// for it in this frame, or none.
pub proof fn lemma_marked_view_gets_current_surfaces(
    textures: Map<u64, VoronoiTexture>,
    views: Seq<PreparedView>,
    index: int,
)
    requires
        is_last_listing(views, index),
        views[index].needs_update,
    ensures
        ({
            let view = views[index];
            let after = prepare_all(textures, views).restrict(live_views(views));
            &&& after.contains_key(view.view) == view.surfaces_fit()
            &&& after.contains_key(view.view) ==> after[view.view] == view.fresh_pair()
                && after[view.view].extent_of() == view.surface_extent()
        }),
{
    lemma_view_gets_current_surfaces(textures, views, index);
}

/// After a frame was prepared, every live view has a pair, unless the
/// surfaces that were allocated for it do not fit: a view gets its pair when
/// it first appears, marked or not, and keeps one from then on.
pub proof fn lemma_live_view_has_a_pair(
    textures: Map<u64, VoronoiTexture>,
    views: Seq<PreparedView>,
    index: int,
)
    requires
        is_last_listing(views, index),
    ensures
        prepare_all(textures, views).restrict(live_views(views)).contains_key(views[index].view)
            || !views[index].surfaces_fit(),
    decreases views.len(),
{
    let view = views[index];
    assert(live_views(views).contains(view.view));
    assert(views.last() == views[views.len() - 1]);
    if index < views.len() - 1 {
        let rest = views.drop_last();
        assert(rest[index] == views[index]);
        assert forall|j: int| index < j < rest.len() implies (#[trigger] rest[j]).view
            != rest[index].view by {
            assert(rest[j] == views[j]);
        }
        lemma_live_view_has_a_pair(textures, rest, index);
        assert(live_views(rest).contains(view.view)) by {
            assert(rest[index].view == view.view);
        }
    }
}

/// A view whose target was resized gets new surfaces though nothing marked
/// it: if the pair that it has is of another extent than its target and
/// scale give now, the pair is replaced by the fresh pair of the surfaces
/// that were allocated for it, or dropped if these do not fit.
pub proof fn lemma_resized_view_gets_current_surfaces(
    textures: Map<u64, VoronoiTexture>,
    views: Seq<PreparedView>,
    index: int,
)
    requires
        0 <= index < views.len(),
        forall|j: int|
            0 <= j < views.len() && j != index ==> (#[trigger] views[j]).view != views[index].view,
        textures.contains_key(views[index].view),
        textures[views[index].view].extent_of() != views[index].surface_extent(),
    ensures
        ({
            let view = views[index];
            let after = prepare_all(textures, views).restrict(live_views(views));
            &&& after.contains_key(view.view) == view.surfaces_fit()
            &&& after.contains_key(view.view) ==> after[view.view] == view.fresh_pair()
                && after[view.view].extent_of() == view.surface_extent()
        }),
{
    let before = views.take(index);
    assert forall|j: int| 0 <= j < before.len() implies (#[trigger] before[j]).view
        != views[index].view by {
        assert(before[j] == views[j]);
    }
    lemma_prepare_all_skips(textures, before, views[index].view);
    lemma_view_gets_current_surfaces(textures, views, index);
}

impl VoronoiTextures {
    /// A registry without any pair.
    pub fn new() -> (textures: Self)
        ensures
            textures@ == Map::<u64, VoronoiTexture>::empty(),
    {
        VoronoiTextures { textures: texture_map_new() }
    }

    /// The pair of `view`, if it has one.
    pub fn get(&self, view: u64) -> (texture: Option<&VoronoiTexture>)
        ensures
            texture == if self@.contains_key(view) {
                Some(&self@[view])
            } else {
                None
            },
    {
        texture_map_get(&self.textures, view)
    }

    /// Registers `texture` as the pair of `view` and returns the pair that
    /// the view had before.
    pub fn insert(&mut self, view: u64, texture: VoronoiTexture) -> (previous: Option<
        VoronoiTexture,
    >)
        ensures
            final(self)@ == old(self)@.insert(view, texture),
            previous == if old(self)@.contains_key(view) {
                Some(old(self)@[view])
            } else {
                None
            },
    {
        texture_map_insert(&mut self.textures, view, texture)
    }

    /// Whether `view` has to get new surfaces in this frame: it is marked
    /// for an update, it has no pair yet, or the pair that it has is not of
    /// the extent that its target and scale give now.
    pub fn needs_surfaces(&self, view: &PreparedView) -> (needed: bool)
        ensures
            needed == view.needs_surfaces(self@),
    {
        if view.needs_update {
            return true;
        }
        let extent = aux_texture_extent(view.target, &view.scale);
        match self.get(view.view) {
            Some(texture) => texture.extent() != extent,
            None => true,
        }
    }

    /// The surfaces of the pairs that the given views have, view by view.
    /// Every other surface that was allocated for a pair can be released.
    pub fn surfaces_in_use(&self, views: &Vec<PreparedView>) -> (surfaces: Vec<SurfaceHandle>)
        ensures
            surfaces@ == surfaces_in_use(self@, views@),
    {
        let mut surfaces: Vec<SurfaceHandle> = Vec::new();
        let mut index: usize = 0;
        assert(views@.take(0) =~= Seq::<PreparedView>::empty());
        while index < views.len()
            invariant
                index <= views.len(),
                surfaces@ == surfaces_in_use(self@, views@.take(index as int)),
            decreases views.len() - index,
        {
            assert(views@.take(index as int + 1).drop_last() =~= views@.take(index as int));
            match self.get(views[index].view) {
                Some(texture) => {
                    let (first, second) = texture.surfaces();
                    surfaces.push(first);
                    surfaces.push(second);
                },
                None => {},
            }
            index = index + 1;
        }
        assert(views@.take(views.len() as int) =~= views@);
        surfaces
    }

    /// Drops the pair of `view` and returns it.
    pub fn remove(&mut self, view: u64) -> (previous: Option<VoronoiTexture>)
        ensures
            final(self)@ == old(self)@.remove(view),
            previous == if old(self)@.contains_key(view) {
                Some(old(self)@[view])
            } else {
                None
            },
    {
        texture_map_remove(&mut self.textures, view)
    }
}

/// Brings the registry up to date at the start of a frame.
///
/// Every view in `views` is live. A live view has to get new surfaces if it
/// is marked for an update, if it has no pair yet, or if the pair that it has
/// is not of the extent that its target and scale give now. Such a view
/// gets a fresh, unflipped pair made of the surfaces that were allocated for
/// it; if these are
/// missing, are one and the same surface, or do not have that extent, the
/// view loses its pair and is reported, and the other views are not
/// affected. Any other live view keeps the pair it has. Every view that is
/// not live loses its pair.
pub fn prepare_voronoi_textures(
    voronoi_textures: &mut VoronoiTextures,
    views: &Vec<PreparedView>,
) -> (failed: Vec<(u64, VoronoiError)>)
    ensures
        final(voronoi_textures)@ == prepare_all(old(voronoi_textures)@, views@).restrict(
            live_views(views@),
        ),
        failed@ == failed_views(old(voronoi_textures)@, views@),
        forall|view: u64| #[trigger]
            final(voronoi_textures)@.contains_key(view) ==> live_views(views@).contains(view)
                && exists|i: int|
                listed_with_current_extent(final(voronoi_textures)@, views@, view, i),
{
    let mut failed: Vec<(u64, VoronoiError)> = Vec::new();
    let mut live_entities = id_set_new();
    let mut index: usize = 0;
    proof {
        assert(views@.take(0) =~= Seq::<PreparedView>::empty());
        assert(id_set(live_entities) =~= live_views(views@.take(0)));
    }
    while index < views.len()
        invariant
            index <= views.len(),
            voronoi_textures@ == prepare_all(old(voronoi_textures)@, views@.take(index as int)),
            id_set(live_entities) == live_views(views@.take(index as int)),
            failed@ == failed_views(old(voronoi_textures)@, views@.take(index as int)),
        decreases views.len() - index,
    {
        let view = &views[index];
        proof {
            let done = views@.take(index as int);
            let next = views@.take(index as int + 1);
            assert(next.drop_last() =~= done);
            assert(next.last() == *view);
            assert(live_views(next) =~= live_views(done).insert(view.view)) by {
                assert forall|id: u64|
                    live_views(done).insert(view.view).contains(id) implies live_views(
                    next,
                ).contains(id) by {
                    if id == view.view {
                        assert(next[index as int].view == id);
                    } else {
                        let i = choose|i: int| 0 <= i < done.len() && #[trigger] done[i].view == id;
                        assert(next[i].view == id);
                    }
                }
                assert forall|id: u64| live_views(next).contains(id) implies live_views(
                    done,
                ).insert(view.view).contains(id) by {
                    let i = choose|i: int| 0 <= i < next.len() && #[trigger] next[i].view == id;
                    if i < index {
                        assert(done[i].view == id);
                    }
                }
            }
        }
        id_set_insert(&mut live_entities, view.view);
        if voronoi_textures.needs_surfaces(view) {
            let extent = aux_texture_extent(view.target, &view.scale);
            let fresh = match view.surfaces {
                Some((texture_a, texture_b)) => VoronoiTexture::new(texture_a, texture_b, extent),
                None => Err(VoronoiError::AllocationFailure),
            };
            match fresh {
                Ok(texture) => {
                    voronoi_textures.insert(view.view, texture);
                },
                Err(reason) => {
                    voronoi_textures.remove(view.view);
                    failed.push((view.view, reason));
                },
            }
        }
        index = index + 1;
    }
    assert(views@.take(views.len() as int) =~= views@);
    texture_map_retain(&mut voronoi_textures.textures, &live_entities);
    proof {
        assert forall|view: u64| #[trigger]
            voronoi_textures@.contains_key(view) implies live_views(views@).contains(view)
            && exists|i: int| listed_with_current_extent(voronoi_textures@, views@, view, i) by {
            lemma_pairs_have_current_extent(old(voronoi_textures)@, views@, view);
        }
    }
    failed
}

} // verus!
