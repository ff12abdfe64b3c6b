//! Which views are recomputed in a frame.
//!
//! A view is recomputed when its camera or its own settings changed, or when
//! a mesh that takes part in the effect and is visible to it changed. Every
//! view is decided by itself: a change that one view sees marks no other.

use crate::collections::{id_set, id_set_contains, id_set_from};
use bevy::platform::collections::HashSet;
use vstd::prelude::*;

verus! {

/// Where a view stands in a frame.
#[derive(Clone, Copy, Debug, PartialEq, Eq, Structural)]
pub enum ViewState {
    /// Nothing changed: the pipeline is skipped and the earlier result stands.
    Idle,
    /// Something changed: the pipeline has to run.
    NeedsUpdate,
    /// The pipeline ran in this frame.
    Ran,
}

impl ViewState {
    /// The state in which a view enters a frame.
    pub open spec fn entering(changed: bool) -> ViewState {
        if changed {
            ViewState::NeedsUpdate
        } else {
            ViewState::Idle
        }
    }

    /// The state after the pipeline of the view ran.
    pub open spec fn after_run(self) -> ViewState {
        if self == ViewState::NeedsUpdate {
            ViewState::Ran
        } else {
            self
        }
    }

    /// The state in which a view enters the next frame: marked if a change
    /// was detected, idle otherwise, whatever it was before.
    pub fn begin_frame(self, changed: bool) -> (next: ViewState)
        ensures
            next == Self::entering(changed),
    {
        if changed {
            ViewState::NeedsUpdate
        } else {
            ViewState::Idle
        }
    }

    /// The state after the pipeline of the view ran: a marked view has run,
    /// any other state stays.
    pub fn pipeline_ran(self) -> (next: ViewState)
        ensures
            next == self.after_run(),
    {
        match self {
            ViewState::NeedsUpdate => ViewState::Ran,
            other => other,
        }
    }

    /// Whether the pipeline of a view in this state runs.
    pub fn needs_update(&self) -> (marked: bool)
        ensures
            marked == (*self == ViewState::NeedsUpdate),
    {
        match self {
            ViewState::NeedsUpdate => true,
            _ => false,
        }
    }
}

/// What a frame observed of one view.
#[derive(Clone, Debug, PartialEq, Eq)]
pub struct ViewChange {
    /// The view.
    pub view: u64,
    /// Whether its camera, its settings or its transform changed.
    pub changed: bool,
    /// The meshes that take part in the effect and are visible to the view.
    pub visible_entities: Vec<u64>,
}

/// Whether some mesh among `visible` is in `changed`.
pub open spec fn sees_change(visible: Seq<u64>, changed: Set<u64>) -> bool {
    exists|j: int| 0 <= j < visible.len() && changed.contains(#[trigger] visible[j])
}

impl ViewChange {
    /// Whether the view has to be recomputed, given the meshes that changed.
    pub open spec fn marked(self, changed_materials: Set<u64>) -> bool {
        self.changed || sees_change(self.visible_entities@, changed_materials)
    }
}

/// Whether some mesh among `visible` is in `changed`.
fn any_visible_changed(visible: &Vec<u64>, changed: &HashSet<u64>) -> (found: bool)
    ensures
        found == sees_change(visible@, id_set(*changed)),
{
    let mut index: usize = 0;
    while index < visible.len()
        invariant
            index <= visible.len(),
            forall|j: int| 0 <= j < index ==> !id_set(*changed).contains(#[trigger] visible@[j]),
        decreases visible.len() - index,
    {
        if id_set_contains(changed, visible[index]) {
            return true;
        }
        index = index + 1;
    }
    false
}

/// Decides for every view whether it is recomputed in this frame.
///
/// `changed_materials` lists the meshes whose mesh, material or transform
/// changed. The result has one state per view, in the order of `views`:
/// `NeedsUpdate` for a view that changed itself or sees one of these meshes,
/// `Idle` for every other view.
pub fn check_voronoi_views_needing_update(
    views: &Vec<ViewChange>,
    changed_materials: &Vec<u64>,
) -> (states: Vec<ViewState>)
    ensures
        states@.len() == views@.len(),
        forall|i: int|
            0 <= i < views@.len() ==> #[trigger] states@[i] == ViewState::entering(
                views@[i].marked(changed_materials@.to_set()),
            ),
{
    let changed = id_set_from(changed_materials);

    let mut states: Vec<ViewState> = Vec::new();
    let mut view_index: usize = 0;
    while view_index < views.len()
        invariant
            view_index <= views.len(),
            states@.len() == view_index,
            id_set(changed) == changed_materials@.to_set(),
            forall|i: int|
                0 <= i < view_index ==> #[trigger] states@[i] == ViewState::entering(
                    views@[i].marked(changed_materials@.to_set()),
                ),
        decreases views.len() - view_index,
    {
        let view = &views[view_index];
        let marked = view.changed || any_visible_changed(&view.visible_entities, &changed);
        states.push(ViewState::Idle.begin_frame(marked));
        view_index = view_index + 1;
    }
    states
}

/// A change of one mesh marks the views that see the mesh and no other view:
/// where no view changed by itself, a view is marked if and only if the mesh
/// is among the meshes visible to it.
pub proof fn lemma_mesh_change_marks_its_views(view: ViewChange, mesh: u64)
    requires
        !view.changed,
    ensures
        view.marked(set![mesh]) <==> view.visible_entities@.contains(mesh),
        ViewState::entering(view.marked(set![mesh])) == if view.visible_entities@.contains(mesh) {
            ViewState::NeedsUpdate
        } else {
            ViewState::Idle
        },
{
    let visible = view.visible_entities@;
    if visible.contains(mesh) {
        let j = choose|j: int| 0 <= j < visible.len() && visible[j] == mesh;
        assert(set![mesh].contains(visible[j]));
    }
    if sees_change(visible, set![mesh]) {
        let j = choose|j: int| 0 <= j < visible.len() && set![mesh].contains(#[trigger] visible[j]);
        assert(visible[j] == mesh);
    }
}

/// A frame without any change marks no view.
pub proof fn lemma_no_change_marks_nothing(view: ViewChange)
    requires
        !view.changed,
    ensures
        !view.marked(Set::empty()),
        ViewState::entering(view.marked(Set::empty())) == ViewState::Idle,
{
}

} // verus!
