//! Everything the overview surface of one output shows, decided at once from the
//! state of the overview.
use vstd::prelude::*;
use crate::model::{DragSurface, DropTarget, ToplevelInfo, WorkspaceInfo, WorkspaceLayout};
use crate::overview::{
    Arrangement, LauncherRow, SearchBar, arrangement, arrangement_for, dragged_toplevel,
    dragged_workspace, first_active_workspace, is_first_active, launcher_rows, launcher_rows_for,
    search_bar_for, search_bar_plan, split_drag, workspaces_holding_windows,
    workspaces_with_toplevels,
};
use crate::previews::{PreviewEntry, lemma_previews_are_the_shown_windows, preview_plan, previews_upto};
use crate::sidebar::{SidebarItem, lemma_sidebar_agrees_with_drag, sidebar_items, sidebar_plan};

verus! {

/// The state of the overview that its surfaces are drawn from.
pub struct OverviewState {
    /// All windows, in their order.
    pub toplevels: Vec<ToplevelInfo>,
    /// All workspaces.
    pub workspaces: Vec<WorkspaceInfo>,
    /// The configured layout.
    pub layout: WorkspaceLayout,
    /// The surface being dragged.
    pub drag: Option<DragSurface>,
    /// Where the drag hovers.
    pub drop_target: Option<DropTarget>,
    /// A select-all was requested in the search field.
    pub select_all_pending: bool,
    /// The search query.
    pub search_value: String,
    /// The number of launcher results.
    pub launcher_item_count: usize,
    /// Whether each launcher result has an icon.
    pub launcher_icons: Vec<bool>,
    /// The focused launcher result.
    pub focused: usize,
}

/// What the surface of one output shows.
pub struct SurfacePlan {
    /// The workspace sidebar.
    pub sidebar: Vec<SidebarItem>,
    /// The window previews.
    pub previews: Vec<PreviewEntry>,
    /// Position, among the output's workspaces, of the workspace that windows dropped
    /// on the previews go to; without one the previews accept no drop.
    pub previews_drop_workspace: Option<usize>,
    /// The search bar.
    pub search: SearchBar,
    /// The launcher results; the results area is left empty when there are none.
    pub launcher: Vec<LauncherRow>,
    /// How the sections are arranged.
    pub arrangement: Arrangement,
}

/// Plans the surface of `output`, whose workspaces in display order are
/// `output_workspaces`.
pub fn surface_plan(state: &OverviewState, output: u64, output_workspaces: &Vec<WorkspaceInfo>) -> (p:
    SurfacePlan)
    ensures
        p.sidebar@ == sidebar_items(
            output_workspaces@,
            workspaces_holding_windows(state.toplevels@),
            output,
            state.drop_target,
            dragged_workspace(state.drag),
        ),
        p.previews@ == previews_upto(
            state.toplevels@,
            state.workspaces@,
            output,
            dragged_toplevel(state.drag),
            state.toplevels@.len() as int,
        ),
        match p.previews_drop_workspace {
            Some(i) => is_first_active(output_workspaces@, i as int),
            None => forall|j: int|
                0 <= j < output_workspaces@.len() ==> !#[trigger] output_workspaces@[j].is_active,
        },
        p.search == search_bar_for(state.select_all_pending, state.search_value@),
        p.launcher@ == launcher_rows_for(state.launcher_item_count, state.launcher_icons@, state.focused),
        p.arrangement == arrangement_for(state.layout),
{
    let (drag_toplevel, drag_workspace) = split_drag(state.drag);
    let with_toplevels = workspaces_with_toplevels(&state.toplevels);
    let sidebar = sidebar_plan(
        output_workspaces,
        &with_toplevels,
        output,
        &state.drop_target,
        drag_workspace,
    );
    let previews = preview_plan(&state.toplevels, &state.workspaces, output, drag_toplevel);
    let previews_drop_workspace = first_active_workspace(output_workspaces);
    let search = search_bar_plan(state.select_all_pending, state.search_value.as_str());
    let launcher = launcher_rows(state.launcher_item_count, &state.launcher_icons, state.focused);
    SurfacePlan {
        sidebar,
        previews,
        previews_drop_workspace,
        search,
        launcher,
        arrangement: arrangement(state.layout),
    }
}

/// A surface never shows a dragged window and a dragged workspace at once: while a
/// window preview is marked as dragged, the sidebar has no drag source and no
/// placeholder, and none of its entries knows of a workspace drag.
pub proof fn lemma_one_kind_of_drag(
    toplevels: Seq<ToplevelInfo>,
    workspaces: Seq<WorkspaceInfo>,
    output_workspaces: Seq<WorkspaceInfo>,
    output: u64,
    target: Option<DropTarget>,
    drag: Option<DragSurface>,
)
    requires
        toplevels.len() <= usize::MAX,
    ensures
        ({
            let sidebar = sidebar_items(
                output_workspaces,
                workspaces_holding_windows(toplevels),
                output,
                target,
                dragged_workspace(drag),
            );
            let previews = previews_upto(
                toplevels,
                workspaces,
                output,
                dragged_toplevel(drag),
                toplevels.len() as int,
            );
            (exists|i: int| 0 <= i < previews.len() && #[trigger] previews[i].is_being_dragged)
                ==> forall|j: int|
                0 <= j < sidebar.len() ==> #[trigger] sidebar[j] matches SidebarItem::Entry {
                    has_workspace_drag: false,
                    ..
                }
        }),
{
    let with = workspaces_holding_windows(toplevels);
    let sidebar = sidebar_items(output_workspaces, with, output, target, dragged_workspace(drag));
    let previews = previews_upto(toplevels, workspaces, output, dragged_toplevel(drag), toplevels.len() as int);
    lemma_previews_are_the_shown_windows(toplevels, workspaces, output, dragged_toplevel(drag), toplevels.len() as int);
    lemma_sidebar_agrees_with_drag(output_workspaces, with, output, target, dragged_workspace(drag));
    if exists|i: int| 0 <= i < previews.len() && #[trigger] previews[i].is_being_dragged {
        let i = choose|i: int| 0 <= i < previews.len() && #[trigger] previews[i].is_being_dragged;
        assert(dragged_toplevel(drag) is Some);
        assert(dragged_workspace(drag) is None);
    }
}

} // verus!
