use bevy_voronoi::schedule::{check_voronoi_views_needing_update, ViewChange, ViewState};

fn view(view: u64, changed: bool, visible: &[u64]) -> ViewChange {
    ViewChange { view, changed, visible_entities: visible.to_vec() }
}

#[test]
fn mesh_change_marks_only_the_views_that_see_it() {
    let views = vec![view(1, false, &[10, 11]), view(2, false, &[12]), view(3, false, &[11, 13])];
    let states = check_voronoi_views_needing_update(&views, &vec![11]);
    assert_eq!(states, vec![ViewState::NeedsUpdate, ViewState::Idle, ViewState::NeedsUpdate]);
}

#[test]
fn change_of_one_view_does_not_hide_the_views_after_it() {
    let views = vec![view(1, true, &[]), view(2, false, &[20]), view(3, true, &[30])];
    let states = check_voronoi_views_needing_update(&views, &vec![20]);
    assert_eq!(
        states,
        vec![ViewState::NeedsUpdate, ViewState::NeedsUpdate, ViewState::NeedsUpdate]
    );
}

#[test]
fn unchanged_frame_leaves_every_view_idle() {
    let views = vec![view(1, false, &[10]), view(2, false, &[])];
    assert_eq!(
        check_voronoi_views_needing_update(&views, &vec![]),
        vec![ViewState::Idle, ViewState::Idle]
    );
    assert_eq!(
        check_voronoi_views_needing_update(&views, &vec![99, 98]),
        vec![ViewState::Idle, ViewState::Idle]
    );
}

#[test]
fn changed_camera_marks_its_view_without_any_mesh() {
    let views = vec![view(1, true, &[]), view(2, false, &[])];
    assert_eq!(
        check_voronoi_views_needing_update(&views, &vec![]),
        vec![ViewState::NeedsUpdate, ViewState::Idle]
    );
}

#[test]
fn no_views_no_states() {
    assert!(check_voronoi_views_needing_update(&vec![], &vec![1, 2, 3]).is_empty());
}

#[test]
fn repeated_changes_count_once() {
    let views = vec![view(1, false, &[5, 5, 6])];
    assert_eq!(
        check_voronoi_views_needing_update(&views, &vec![6, 6, 6]),
        vec![ViewState::NeedsUpdate]
    );
}

#[test]
fn state_cycle() {
    let idle = ViewState::Idle;
    let marked = idle.begin_frame(true);
    assert_eq!(marked, ViewState::NeedsUpdate);
    assert!(marked.needs_update());
    let ran = marked.pipeline_ran();
    assert_eq!(ran, ViewState::Ran);
    assert!(!ran.needs_update());
    assert_eq!(ran.begin_frame(false), ViewState::Idle);
    assert_eq!(ran.begin_frame(true), ViewState::NeedsUpdate);
    assert_eq!(marked.begin_frame(false), ViewState::Idle);
    assert_eq!(idle.pipeline_ran(), ViewState::Idle);
    assert_eq!(ran.pipeline_ran(), ViewState::Ran);
    assert!(!idle.needs_update());
}
