use lib::model::{vec_contains, ToplevelInfo, WorkspaceInfo};
use lib::previews::{preview_plan, toplevel_is_shown, workspace_is_active, PreviewEntry};

fn ws(handle: u64, is_active: bool) -> WorkspaceInfo {
    WorkspaceInfo {
        handle,
        is_active,
        is_pinned: false,
        has_cursor: false,
        can_activate: true,
        can_pin: true,
        can_move: true,
    }
}

fn tl(handle: u64, outputs: Vec<u64>, workspaces: Vec<u64>, activated: bool) -> ToplevelInfo {
    ToplevelInfo { handle, outputs, workspaces, activated }
}

#[test]
fn vec_contains_finds_members() {
    assert!(vec_contains(&vec![3, 4, 5], 4));
    assert!(!vec_contains(&vec![3, 4, 5], 6));
    assert!(!vec_contains(&vec![], 0));
}

#[test]
fn workspace_lookup_uses_first_match() {
    let workspaces = vec![ws(1, false), ws(2, true), ws(1, true)];
    assert!(!workspace_is_active(&workspaces, 1));
    assert!(workspace_is_active(&workspaces, 2));
    assert!(!workspace_is_active(&workspaces, 9));
}

#[test]
fn toplevel_needs_output_and_active_workspace() {
    let workspaces = vec![ws(1, false), ws(2, true)];
    assert!(toplevel_is_shown(&tl(7, vec![10], vec![1, 2], false), &workspaces, 10));
    assert!(!toplevel_is_shown(&tl(7, vec![11], vec![1, 2], false), &workspaces, 10));
    assert!(!toplevel_is_shown(&tl(7, vec![10], vec![1], false), &workspaces, 10));
    assert!(!toplevel_is_shown(&tl(7, vec![10], vec![], false), &workspaces, 10));
}

#[test]
fn previews_are_shown_windows_in_order() {
    let workspaces = vec![ws(1, false), ws(2, true), ws(3, true)];
    let toplevels = vec![
        tl(100, vec![10], vec![2], false),
        tl(101, vec![10], vec![1], true),
        tl(102, vec![11], vec![2], false),
        tl(103, vec![11, 10], vec![1, 3], true),
    ];
    let plan = preview_plan(&toplevels, &workspaces, 10, Some(103));
    assert_eq!(
        plan,
        vec![
            PreviewEntry { index: 0, is_being_dragged: false, selected: false },
            PreviewEntry { index: 3, is_being_dragged: true, selected: true },
        ]
    );
    let plan = preview_plan(&toplevels, &workspaces, 11, None);
    assert_eq!(
        plan,
        vec![
            PreviewEntry { index: 2, is_being_dragged: false, selected: false },
            PreviewEntry { index: 3, is_being_dragged: false, selected: true },
        ]
    );
}

#[test]
fn previews_mark_at_most_one_dragged() {
    let workspaces = vec![ws(1, true)];
    let toplevels = vec![
        tl(1, vec![10], vec![1], false),
        tl(2, vec![10], vec![1], false),
        tl(3, vec![10], vec![1], false),
    ];
    let plan = preview_plan(&toplevels, &workspaces, 10, Some(2));
    assert_eq!(plan.iter().filter(|p| p.is_being_dragged).count(), 1);
    assert!(plan[1].is_being_dragged);
    let plan = preview_plan(&toplevels, &workspaces, 10, Some(9));
    assert_eq!(plan.iter().filter(|p| p.is_being_dragged).count(), 0);
}
