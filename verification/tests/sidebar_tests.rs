use lib::model::{DropTarget, WorkspaceInfo, WorkspaceLayout};
use lib::sidebar::{
    entry_is_drag_source, pin_button_plan, sidebar_plan, workspace_item_plan, ItemStyle, Palette,
    SidebarItem,
};

fn ws(handle: u64) -> WorkspaceInfo {
    WorkspaceInfo {
        handle,
        is_active: false,
        is_pinned: false,
        has_cursor: false,
        can_activate: true,
        can_pin: true,
        can_move: true,
    }
}

fn entry(workspace: u64, is_drop_target: bool, has_toplevels: bool, has_workspace_drag: bool) -> SidebarItem {
    SidebarItem::Entry { workspace, is_drop_target, has_toplevels, has_workspace_drag }
}

#[test]
fn sidebar_without_drag_lists_one_entry_per_workspace() {
    let workspaces = vec![ws(1), ws(2), ws(3)];
    let items = sidebar_plan(&workspaces, &vec![2], 10, &None, None);
    assert_eq!(
        items,
        vec![entry(1, false, false, false), entry(2, false, true, false), entry(3, false, false, false)]
    );
}

#[test]
fn sidebar_window_drag_over_entry_highlights_it() {
    let workspaces = vec![ws(1), ws(2)];
    let target = Some(DropTarget::WorkspaceSidebarEntry(2, 10));
    let items = sidebar_plan(&workspaces, &vec![], 10, &target, None);
    assert_eq!(items, vec![entry(1, false, false, false), entry(2, true, false, false)]);
}

#[test]
fn sidebar_target_on_other_output_is_ignored() {
    let workspaces = vec![ws(1), ws(2)];
    let target = Some(DropTarget::WorkspaceSidebarEntry(2, 11));
    let items = sidebar_plan(&workspaces, &vec![], 10, &target, None);
    assert_eq!(items, vec![entry(1, false, false, false), entry(2, false, false, false)]);
    let target = Some(DropTarget::WorkspaceSidebarDragPlaceholder(2, 11));
    let items = sidebar_plan(&workspaces, &vec![], 10, &target, Some(1));
    assert_eq!(
        items,
        vec![SidebarItem::DragSource { workspace: 1 }, entry(2, false, false, true)]
    );
}

#[test]
fn sidebar_workspace_drag_puts_placeholder_before_target() {
    let workspaces = vec![ws(1), ws(2), ws(3)];
    let target = Some(DropTarget::WorkspaceSidebarDragPlaceholder(3, 10));
    let items = sidebar_plan(&workspaces, &vec![1, 3], 10, &target, Some(1));
    assert_eq!(
        items,
        vec![
            SidebarItem::DragSource { workspace: 1 },
            entry(2, false, false, true),
            SidebarItem::Placeholder { workspace: 3 },
            entry(3, false, true, true),
        ]
    );
}

#[test]
fn sidebar_workspace_drag_over_entry_is_not_highlighted() {
    let workspaces = vec![ws(1), ws(2)];
    let target = Some(DropTarget::WorkspaceSidebarEntry(2, 10));
    let items = sidebar_plan(&workspaces, &vec![], 10, &target, Some(1));
    assert_eq!(
        items,
        vec![
            SidebarItem::DragSource { workspace: 1 },
            SidebarItem::Placeholder { workspace: 2 },
            entry(2, false, false, true),
        ]
    );
}

#[test]
fn sidebar_drag_over_own_entry_gives_no_placeholder() {
    let workspaces = vec![ws(1), ws(2)];
    let target = Some(DropTarget::WorkspaceSidebarEntry(1, 10));
    let items = sidebar_plan(&workspaces, &vec![], 10, &target, Some(1));
    assert_eq!(items, vec![SidebarItem::DragSource { workspace: 1 }, entry(2, false, false, true)]);
}

#[test]
fn sidebar_previews_target_gives_no_placeholder() {
    let workspaces = vec![ws(1), ws(2)];
    let target = Some(DropTarget::OutputToplevels(2, 10));
    let items = sidebar_plan(&workspaces, &vec![], 10, &target, Some(1));
    assert_eq!(items, vec![SidebarItem::DragSource { workspace: 1 }, entry(2, false, false, true)]);
}

#[test]
fn sidebar_empty_output() {
    let items = sidebar_plan(&vec![], &vec![1], 10, &None, Some(3));
    assert!(items.is_empty());
}

#[test]
fn sidebar_lists_each_workspace_once_in_order() {
    let workspaces = vec![ws(5), ws(4), ws(6), ws(7)];
    let target = Some(DropTarget::WorkspaceSidebarEntry(6, 1));
    let items = sidebar_plan(&workspaces, &vec![], 1, &target, Some(4));
    let listed: Vec<u64> = items
        .iter()
        .filter_map(|it| match it {
            SidebarItem::Placeholder { .. } => None,
            SidebarItem::DragSource { workspace } => Some(*workspace),
            SidebarItem::Entry { workspace, .. } => Some(*workspace),
        })
        .collect();
    assert_eq!(listed, vec![5, 4, 6, 7]);
    let placeholders = items.iter().filter(|it| matches!(it, SidebarItem::Placeholder { .. })).count();
    let sources = items.iter().filter(|it| matches!(it, SidebarItem::DragSource { .. })).count();
    assert_eq!(placeholders, 1);
    assert_eq!(sources, 1);
}

#[test]
fn pin_button_visibility_and_palette() {
    let mut w = ws(1);
    let b = pin_button_plan(&w);
    assert!(!b.visible);
    assert!(!b.selected);
    assert_eq!(b.palette, Palette::Primary);
    w.has_cursor = true;
    assert!(pin_button_plan(&w).visible);
    w.has_cursor = false;
    w.is_pinned = true;
    let b = pin_button_plan(&w);
    assert!(b.visible);
    assert!(b.selected);
    assert_eq!(b.palette, Palette::Accent);
    w.can_pin = false;
    let b = pin_button_plan(&w);
    assert!(!b.visible);
    assert!(b.selected);
}

#[test]
fn workspace_item_active_only_without_workspace_drag() {
    let mut w = ws(1);
    w.is_active = true;
    let item = workspace_item_plan(&w, WorkspaceLayout::Vertical, false, false);
    assert!(item.shown_active);
    assert!(item.activatable);
    assert!(item.image_fills_height);
    assert_eq!(item.resting, ItemStyle { accent_border: true, filled_background: false });
    assert_eq!(item.hovered, ItemStyle { accent_border: true, filled_background: true });
    let item = workspace_item_plan(&w, WorkspaceLayout::Horizontal, true, true);
    assert!(!item.shown_active);
    assert!(!item.image_fills_height);
    assert_eq!(item.resting, ItemStyle { accent_border: false, filled_background: true });
    w.can_activate = false;
    assert!(!workspace_item_plan(&w, WorkspaceLayout::Horizontal, false, false).activatable);
}

#[test]
fn entry_drag_source_needs_windows_or_pin_and_move() {
    let mut w = ws(1);
    assert!(!entry_is_drag_source(&w, false));
    assert!(entry_is_drag_source(&w, true));
    w.is_pinned = true;
    assert!(entry_is_drag_source(&w, false));
    w.can_move = false;
    assert!(!entry_is_drag_source(&w, true));
}
