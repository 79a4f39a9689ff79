use lib::model::{DragSurface, ToplevelInfo, WorkspaceInfo, WorkspaceLayout};
use lib::overview::{
    arrangement, first_active_workspace, launcher_rows, search_bar_plan, split_drag,
    workspaces_with_toplevels, Axis, LauncherRow, Length, Stacking,
};

fn ws(handle: u64, is_active: bool) -> WorkspaceInfo {
    WorkspaceInfo {
        handle,
        is_active,
        is_pinned: false,
        has_cursor: false,
        can_activate: true,
        can_pin: true,
        can_move: true,
    }
}

#[test]
fn split_drag_separates_window_and_workspace() {
    assert_eq!(split_drag(None), (None, None));
    assert_eq!(split_drag(Some(DragSurface::Toplevel(4))), (Some(4), None));
    assert_eq!(split_drag(Some(DragSurface::Workspace(5))), (None, Some(5)));
}

#[test]
fn workspaces_with_toplevels_collects_each_once() {
    let toplevels = vec![
        ToplevelInfo { handle: 1, outputs: vec![], workspaces: vec![3, 4], activated: false },
        ToplevelInfo { handle: 2, outputs: vec![], workspaces: vec![4, 3, 4], activated: false },
        ToplevelInfo { handle: 3, outputs: vec![], workspaces: vec![], activated: false },
        ToplevelInfo { handle: 4, outputs: vec![], workspaces: vec![9], activated: false },
    ];
    let mut r = workspaces_with_toplevels(&toplevels);
    r.sort();
    assert_eq!(r, vec![3, 4, 9]);
    assert!(workspaces_with_toplevels(&vec![]).is_empty());
}

#[test]
fn first_active_workspace_position() {
    assert_eq!(first_active_workspace(&vec![ws(1, false), ws(2, true), ws(3, true)]), Some(1));
    assert_eq!(first_active_workspace(&vec![ws(1, false)]), None);
    assert_eq!(first_active_workspace(&vec![]), None);
}

#[test]
fn search_bar_select_all_needs_text() {
    let b = search_bar_plan(true, "fire");
    assert!(b.select_all);
    assert_eq!(b.padding, 12);
    assert!(b.filled_background);
    let b = search_bar_plan(true, "");
    assert!(!b.select_all);
    assert_eq!(b.padding, 2);
    assert!(!b.filled_background);
    let b = search_bar_plan(false, "fire");
    assert!(!b.select_all);
    assert_eq!(b.padding, 2);
}

#[test]
fn launcher_rows_capped_at_five() {
    let rows = launcher_rows(7, &vec![true, false, true], 2);
    assert_eq!(rows.len(), 5);
    assert_eq!(rows[0], LauncherRow { index: 0, has_icon: true, highlighted: false });
    assert_eq!(rows[1], LauncherRow { index: 1, has_icon: false, highlighted: false });
    assert_eq!(rows[2], LauncherRow { index: 2, has_icon: true, highlighted: true });
    assert_eq!(rows[4], LauncherRow { index: 4, has_icon: false, highlighted: false });
    assert_eq!(rows.iter().filter(|r| r.highlighted).count(), 1);
}

#[test]
fn launcher_rows_few_results_and_focus_out_of_range() {
    let rows = launcher_rows(2, &vec![], 3);
    assert_eq!(
        rows,
        vec![
            LauncherRow { index: 0, has_icon: false, highlighted: false },
            LauncherRow { index: 1, has_icon: false, highlighted: false },
        ]
    );
    assert!(launcher_rows(0, &vec![true], 0).is_empty());
    assert_eq!(launcher_rows(9, &vec![], 7).iter().filter(|r| r.highlighted).count(), 0);
}

#[test]
fn arrangement_per_layout() {
    let a = arrangement(WorkspaceLayout::Vertical);
    assert_eq!(a.stacking, Stacking::Row);
    assert_eq!(a.sidebar_axis, Axis::Vertical);
    assert_eq!((a.sidebar_width, a.sidebar_height), (Length::Shrink, Length::Fill));
    assert_eq!((a.previews_width, a.previews_height), (Length::FillPortion(4), Length::Fill));
    let a = arrangement(WorkspaceLayout::Horizontal);
    assert_eq!(a.stacking, Stacking::Column);
    assert_eq!(a.sidebar_axis, Axis::Horizontal);
    assert_eq!((a.sidebar_width, a.sidebar_height), (Length::Shrink, Length::Shrink));
    assert_eq!((a.previews_width, a.previews_height), (Length::Fill, Length::FillPortion(4)));
}

#[test]
fn search_bar_border_in_every_state() {
    for (pending, text) in [(true, "a"), (true, ""), (false, "a"), (false, "")] {
        assert!(search_bar_plan(pending, text).accent_border);
    }
}
