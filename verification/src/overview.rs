//! The overview surface of one output: what it reads from the drag state and the
//! windows, how the search area looks, and how the three sections are arranged.
use vstd::prelude::*;
use crate::model::{DragSurface, ToplevelInfo, WorkspaceInfo, WorkspaceLayout, vec_contains};

verus! {

/// The window being dragged, if a window is.
pub open spec fn dragged_toplevel(drag: Option<DragSurface>) -> Option<u64> {
    match drag {
        Some(DragSurface::Toplevel(h)) => Some(h),
        _ => None,
    }
}

/// The workspace being dragged, if a workspace is.
pub open spec fn dragged_workspace(drag: Option<DragSurface>) -> Option<u64> {
    match drag {
        Some(DragSurface::Workspace(h)) => Some(h),
        _ => None,
    }
}

/// Splits the current drag into the dragged window and the dragged workspace; at
/// most one of them is present.
pub fn split_drag(drag: Option<DragSurface>) -> (r: (Option<u64>, Option<u64>))
    ensures
        r.0 == dragged_toplevel(drag),
        r.1 == dragged_workspace(drag),
        !(r.0 is Some && r.1 is Some),
{
    match drag {
        Some(DragSurface::Toplevel(h)) => (Some(h), None),
        Some(DragSurface::Workspace(h)) => (None, Some(h)),
        None => (None, None),
    }
}

/// Some window belongs to workspace `h`.
pub open spec fn workspace_has_toplevel(toplevels: Seq<ToplevelInfo>, h: u64) -> bool {
    exists|i: int| 0 <= i < toplevels.len() && #[trigger] toplevels[i].workspaces@.contains(h)
}

/// The workspaces that hold at least one window.
pub open spec fn workspaces_holding_windows(toplevels: Seq<ToplevelInfo>) -> Set<u64> {
    Set::new(|h: u64| workspace_has_toplevel(toplevels, h))
}

/// The ids of the workspaces that hold at least one window, each once.
pub fn workspaces_with_toplevels(toplevels: &Vec<ToplevelInfo>) -> (r: Vec<u64>)
    ensures
        forall|h: u64| r@.contains(h) <==> workspace_has_toplevel(toplevels@, h),
        r@.to_set() == workspaces_holding_windows(toplevels@),
        r@.no_duplicates(),
{
    let mut r: Vec<u64> = Vec::new();
    let mut i: usize = 0;
    while i < toplevels.len()
        invariant
            0 <= i <= toplevels.len(),
            r@.no_duplicates(),
            forall|h: u64|
                r@.contains(h) <==> exists|a: int|
                    0 <= a < i && #[trigger] toplevels@[a].workspaces@.contains(h),
        decreases toplevels.len() - i,
    {
        let t = &toplevels[i];
        let mut k: usize = 0;
        while k < t.workspaces.len()
            invariant
                0 <= i < toplevels.len(),
                t == toplevels@[i as int],
                0 <= k <= t.workspaces.len(),
                r@.no_duplicates(),
                forall|h: u64|
                    r@.contains(h) <==> (exists|a: int|
                        0 <= a < i && #[trigger] toplevels@[a].workspaces@.contains(h))
                        || t.workspaces@.take(k as int).contains(h),
            decreases t.workspaces.len() - k,
        {
            let h = t.workspaces[k];
            let ghost before = r@;
            if !vec_contains(&r, h) {
                r.push(h);
                assert(r@ == before.push(h));
                assert(r@[before.len() as int] == h);
                assert forall|x: int, y: int| 0 <= x < r@.len() && 0 <= y < r@.len() && x != y implies r@[x]
                    != r@[y] by {
                    if x == before.len() {
                        assert(r@[y] == before[y]);
                    } else if y == before.len() {
                        assert(r@[x] == before[x]);
                    }
                }
            }
            proof {
                assert(t.workspaces@.take(k + 1) =~= t.workspaces@.take(k as int).push(h));
                assert(r@.contains(h));
                assert forall|x: u64| before.contains(x) implies r@.contains(x) by {
                    let j = choose|j: int| 0 <= j < before.len() && before[j] == x;
                    assert(r@[j] == x);
                }
                assert forall|x: u64| r@.contains(x) && x != h implies before.contains(x) by {
                    let j = choose|j: int| 0 <= j < r@.len() && r@[j] == x;
                    if j < before.len() {
                        assert(before[j] == x);
                    }
                }
                let tk = t.workspaces@.take(k as int);
                assert forall|x: u64| tk.push(h).contains(x) <==> (tk.contains(x) || x == h) by {
                    if tk.contains(x) {
                        let j = choose|j: int| 0 <= j < tk.len() && tk[j] == x;
                        assert(tk.push(h)[j] == x);
                    }
                    if x == h {
                        assert(tk.push(h)[tk.len() as int] == x);
                    }
                    if tk.push(h).contains(x) && x != h {
                        let j = choose|j: int| 0 <= j < tk.len() + 1 && tk.push(h)[j] == x;
                        assert(tk[j] == x);
                    }
                }
                assert forall|x: u64|
                    r@.contains(x) <==> (exists|a: int|
                        0 <= a < i && #[trigger] toplevels@[a].workspaces@.contains(x))
                        || t.workspaces@.take(k + 1).contains(x) by {
                    assert(t.workspaces@.take(k + 1) == tk.push(h));
                    assert(before.contains(x) <==> (exists|a: int|
                        0 <= a < i && #[trigger] toplevels@[a].workspaces@.contains(x))
                        || tk.contains(x));
                }
            }
            k += 1;
        }
        proof {
            assert(t.workspaces@.take(t.workspaces@.len() as int) =~= t.workspaces@);
            assert forall|x: u64|
                r@.contains(x) <==> exists|a: int|
                    0 <= a < i + 1 && #[trigger] toplevels@[a].workspaces@.contains(x) by {
                if toplevels@[i as int].workspaces@.contains(x) {
                    assert(0 <= i < i + 1);
                }
            }
        }
        i += 1;
    }
    assert(r@.to_set() =~= workspaces_holding_windows(toplevels@));
    r
}

/// `i` is the position of the first active workspace.
pub open spec fn is_first_active(workspaces: Seq<WorkspaceInfo>, i: int) -> bool {
    &&& 0 <= i < workspaces.len()
    &&& workspaces[i].is_active
    &&& forall|j: int| 0 <= j < i ==> !#[trigger] workspaces[j].is_active
}

/// The position of the first active workspace of an output, under which windows
/// dropped on the previews area land.
pub fn first_active_workspace(workspaces: &Vec<WorkspaceInfo>) -> (r: Option<usize>)
    ensures
        match r {
            Some(i) => is_first_active(workspaces@, i as int),
            None => forall|j: int| 0 <= j < workspaces@.len() ==> !#[trigger] workspaces@[j].is_active,
        },
{
    let mut i: usize = 0;
    while i < workspaces.len()
        invariant
            0 <= i <= workspaces.len(),
            forall|j: int| 0 <= j < i ==> !#[trigger] workspaces@[j].is_active,
        decreases workspaces.len() - i,
    {
        if workspaces[i].is_active {
            return Some(i);
        }
        i += 1;
    }
    None
}

/// Padding inside the search bar's border while it mimics selected text.
pub const SELECT_ALL_PADDING: u16 = 12;

/// Padding inside the search bar's border around the text input.
pub const INPUT_PADDING: u16 = 2;

/// How the search bar is drawn.
#[derive(Clone, Copy, Debug, PartialEq, Eq, Structural)]
pub struct SearchBar {
    /// The accent-coloured border around the bar. It is drawn in every state, so that
    /// it shows on the surfaces of all outputs, also those that were not redrawn after
    /// a key press.
    pub accent_border: bool,
    /// The query is shown as fully selected text instead of the text input.
    pub select_all: bool,
    /// Padding inside the accent border.
    pub padding: u16,
    /// The border container draws the input background itself.
    pub filled_background: bool,
}

/// The search bar for a pending select-all flag and a query.
pub open spec fn search_bar_for(select_all_pending: bool, query: Seq<char>) -> SearchBar {
    let select_all = select_all_pending && query.len() > 0;
    SearchBar {
        accent_border: true,
        select_all,
        padding: if select_all {
            SELECT_ALL_PADDING
        } else {
            INPUT_PADDING
        },
        filled_background: select_all,
    }
}

/// The search bar: it mimics selected text while a select-all is pending on a
/// non-empty query; the accent border is always present.
pub fn search_bar_plan(select_all_pending: bool, search_value: &str) -> (b: SearchBar)
    ensures
        b == search_bar_for(select_all_pending, search_value@),
        b.select_all == (select_all_pending && search_value@.len() != 0),
        b.padding == (if select_all_pending && search_value@.len() != 0 {
            12u16
        } else {
            2u16
        }),
{
    let select_all = select_all_pending && !search_value.is_empty();
    SearchBar {
        accent_border: true,
        select_all,
        padding: if select_all {
            SELECT_ALL_PADDING
        } else {
            INPUT_PADDING
        },
        filled_background: select_all,
    }
}

/// The search bar keeps its accent border in every state; it mimics selected text only
/// when there is text, and then draws the input background itself.
pub proof fn lemma_search_bar_border_always(select_all_pending: bool, query: Seq<char>)
    ensures
        ({
            let b = search_bar_for(select_all_pending, query);
            &&& b.accent_border
            &&& b.select_all ==> query.len() > 0
            &&& b.filled_background == b.select_all
        }),
{
}

/// A pending select-all shows the query as selected text, padded by 12 pixels and on
/// the bar's own background, whenever the query holds at least one character; without a
/// pending select-all, or with an empty query, the text input is shown with a padding of
/// 2 pixels and no background of the bar's own.
pub proof fn lemma_search_select_all_iff_text(select_all_pending: bool, query: Seq<char>)
    ensures
        ({
            let b = search_bar_for(select_all_pending, query);
            &&& select_all_pending && query.len() >= 1 ==> b.select_all && b.padding == 12
                && b.filled_background
            &&& !select_all_pending || query.len() == 0 ==> !b.select_all && b.padding == 2
                && !b.filled_background
        }),
{
}

/// How the search bar is drawn depends on the query only through whether it is empty:
/// any two non-empty queries give the same bar.
pub proof fn lemma_search_bar_ignores_query_text(
    select_all_pending: bool,
    query1: Seq<char>,
    query2: Seq<char>,
)
    requires
        query1.len() > 0,
        query2.len() > 0,
    ensures
        search_bar_for(select_all_pending, query1) == search_bar_for(select_all_pending, query2),
{
}

/// The launcher lists at most this many results.
pub const MAX_LAUNCHER_ROWS: usize = 5;

/// One row of launcher results.
#[derive(Clone, Copy, Debug, PartialEq, Eq, Structural)]
pub struct LauncherRow {
    /// Position of the result.
    pub index: usize,
    /// An icon is shown in front of the name.
    pub has_icon: bool,
    /// The row is the focused one, drawn as suggested.
    pub highlighted: bool,
}

/// The row for result `i`.
pub open spec fn launcher_row(i: int, icons: Seq<bool>, focused: usize) -> LauncherRow {
    LauncherRow {
        index: i as usize,
        has_icon: 0 <= i < icons.len() && icons[i],
        highlighted: i == focused,
    }
}

/// The number of rows shown for `item_count` results.
pub open spec fn launcher_row_count(item_count: usize) -> int {
    if item_count < MAX_LAUNCHER_ROWS {
        item_count as int
    } else {
        MAX_LAUNCHER_ROWS as int
    }
}

/// The rows shown for `item_count` results.
pub open spec fn launcher_rows_for(item_count: usize, icons: Seq<bool>, focused: usize) -> Seq<
    LauncherRow,
> {
    Seq::new(launcher_row_count(item_count) as nat, |i: int| launcher_row(i, icons, focused))
}

/// The rows of the launcher results: the first results up to the limit; `icons[i]`
/// tells whether result `i` has an icon (results past its end have none).
pub fn launcher_rows(item_count: usize, icons: &Vec<bool>, focused: usize) -> (rows: Vec<LauncherRow>)
    ensures
        rows@ == launcher_rows_for(item_count, icons@, focused),
        rows@.len() <= item_count,
        rows@.len() <= 5,
        rows@.len() == item_count || rows@.len() == 5,
        forall|i: int| 0 <= i < rows@.len() ==> (#[trigger] rows@[i]).index == i && rows@[i].index < item_count,
{
    let n = if item_count < MAX_LAUNCHER_ROWS {
        item_count
    } else {
        MAX_LAUNCHER_ROWS
    };
    let mut rows: Vec<LauncherRow> = Vec::new();
    let mut i: usize = 0;
    while i < n
        invariant
            n == launcher_row_count(item_count),
            0 <= i <= n,
            rows@.len() == i,
            forall|j: int| 0 <= j < i ==> #[trigger] rows@[j] == launcher_row(j, icons@, focused),
        decreases n - i,
    {
        let has_icon = i < icons.len() && icons[i];
        rows.push(LauncherRow { index: i, has_icon, highlighted: i == focused });
        i += 1;
    }
    assert(rows@ =~= launcher_rows_for(item_count, icons@, focused));
    rows
}

/// The launcher shows at most the limit of rows; at most one row is highlighted, and
/// one is exactly when the focused position is among the rows shown.
pub proof fn lemma_launcher_highlight(item_count: usize, icons: Seq<bool>, focused: usize)
    ensures
        ({
            let rows = launcher_rows_for(item_count, icons, focused);
            &&& rows.len() <= MAX_LAUNCHER_ROWS
            &&& forall|i: int, j: int|
                0 <= i < j < rows.len() ==> !(#[trigger] rows[i].highlighted && #[trigger] rows[j].highlighted)
            &&& (exists|i: int| 0 <= i < rows.len() && #[trigger] rows[i].highlighted) <==> focused
                < rows.len()
        }),
{
    let rows = launcher_rows_for(item_count, icons, focused);
    if focused < rows.len() {
        assert(rows[focused as int].highlighted);
    }
}

/// The launcher shows the first results, one row each, in order, and as many of them as
/// there are up to five: never a row for a result that does not exist, and never fewer
/// than five rows while there are five or more results. Each row shows an icon exactly
/// when that result has one, and is highlighted exactly when it is the focused result.
pub proof fn lemma_launcher_rows_are_first_results(item_count: usize, icons: Seq<bool>, focused: usize)
    ensures
        ({
            let rows = launcher_rows_for(item_count, icons, focused);
            &&& rows.len() <= item_count
            &&& rows.len() <= 5
            &&& rows.len() == item_count || rows.len() == 5
            &&& forall|i: int|
                #![trigger rows[i]]
                0 <= i < rows.len() ==> {
                    &&& rows[i].index == i
                    &&& rows[i].index < item_count
                    &&& rows[i].has_icon == (i < icons.len() && icons[i])
                    &&& rows[i].highlighted == (i == focused)
                }
        }),
{
}

/// The direction in which the overview stacks its sections.
#[derive(Clone, Copy, Debug, PartialEq, Eq, Structural)]
pub enum Stacking {
    /// Side by side: sidebar, search, previews.
    Row,
    /// Top to bottom: sidebar, search, previews.
    Column,
}

/// The axis along which sidebar entries follow each other.
#[derive(Clone, Copy, Debug, PartialEq, Eq, Structural)]
pub enum Axis {
    Horizontal,
    Vertical,
}

/// A length along one dimension of a section.
#[derive(Clone, Copy, Debug, PartialEq, Eq, Structural)]
pub enum Length {
    /// As small as the content.
    Shrink,
    /// All the room there is.
    Fill,
    /// A share of the room, in proportion to the other shares.
    FillPortion(u16),
}

/// The arrangement of the overview for a layout.
#[derive(Clone, Copy, Debug, PartialEq, Eq, Structural)]
pub struct Arrangement {
    pub stacking: Stacking,
    pub sidebar_axis: Axis,
    pub sidebar_width: Length,
    pub sidebar_height: Length,
    pub previews_width: Length,
    pub previews_height: Length,
}

/// Share of the room given to the previews along the stacking direction.
pub const PREVIEWS_PORTION: u16 = 4;

/// The arrangement for `layout`.
pub open spec fn arrangement_for(layout: WorkspaceLayout) -> Arrangement {
    match layout {
        WorkspaceLayout::Vertical => Arrangement {
            stacking: Stacking::Row,
            sidebar_axis: Axis::Vertical,
            sidebar_width: Length::Shrink,
            sidebar_height: Length::Fill,
            previews_width: Length::FillPortion(PREVIEWS_PORTION),
            previews_height: Length::Fill,
        },
        WorkspaceLayout::Horizontal => Arrangement {
            stacking: Stacking::Column,
            sidebar_axis: Axis::Horizontal,
            sidebar_width: Length::Shrink,
            sidebar_height: Length::Shrink,
            previews_width: Length::Fill,
            previews_height: Length::FillPortion(PREVIEWS_PORTION),
        },
    }
}

/// Arranges the sections of the overview for `layout`.
pub fn arrangement(layout: WorkspaceLayout) -> (a: Arrangement)
    ensures
        a == arrangement_for(layout),
{
    match layout {
        WorkspaceLayout::Vertical => Arrangement {
            stacking: Stacking::Row,
            sidebar_axis: Axis::Vertical,
            sidebar_width: Length::Shrink,
            sidebar_height: Length::Fill,
            previews_width: Length::FillPortion(PREVIEWS_PORTION),
            previews_height: Length::Fill,
        },
        WorkspaceLayout::Horizontal => Arrangement {
            stacking: Stacking::Column,
            sidebar_axis: Axis::Horizontal,
            sidebar_width: Length::Shrink,
            sidebar_height: Length::Shrink,
            previews_width: Length::Fill,
            previews_height: Length::FillPortion(PREVIEWS_PORTION),
        },
    }
}

/// The sections stand side by side exactly for the vertical layout. Whatever the layout,
/// the sidebar's entries run across the direction in which the sections are stacked,
/// the sidebar is only as wide as its entries and spans the full height only when the
/// sections stand side by side, and the previews
/// take a fixed share of the room along the stacking direction and all of it across.
pub proof fn lemma_arrangement_is_consistent(layout: WorkspaceLayout)
    ensures
        ({
            let a = arrangement_for(layout);
            &&& a.stacking == Stacking::Row <==> layout == WorkspaceLayout::Vertical
            &&& a.sidebar_width == Length::Shrink
            &&& a.sidebar_height == (if a.stacking == Stacking::Row {
                Length::Fill
            } else {
                Length::Shrink
            })
            &&& a.stacking == Stacking::Row ==> a.sidebar_axis == Axis::Vertical && a.previews_width
                == Length::FillPortion(PREVIEWS_PORTION) && a.previews_height == Length::Fill
            &&& a.stacking == Stacking::Column ==> a.sidebar_axis == Axis::Horizontal
                && a.previews_width == Length::Fill && a.previews_height == Length::FillPortion(
                PREVIEWS_PORTION,
            )
        }),
{
}

} // verus!
