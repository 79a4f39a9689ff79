//! The workspace sidebar: which entries it shows, in which order, and how each looks.
use vstd::prelude::*;
use crate::model::{DropTarget, WorkspaceInfo, WorkspaceLayout, vec_contains};

verus! {

/// One element of the workspace sidebar.
#[derive(Clone, Copy, Debug, PartialEq, Eq, Structural)]
pub enum SidebarItem {
    /// The workspace being dragged: an empty drag source that keeps the drag alive
    /// and shows the workspace under the pointer.
    DragSource { workspace: u64 },
    /// A drop placeholder in front of the entry of `workspace`.
    Placeholder { workspace: u64 },
    /// The ordinary entry of a workspace.
    Entry { workspace: u64, is_drop_target: bool, has_toplevels: bool, has_workspace_drag: bool },
}

/// The drag hovers over the sidebar entry of workspace `w` on output `o`.
pub open spec fn drop_on_entry(target: Option<DropTarget>, w: u64, o: u64) -> bool {
    target == Some(DropTarget::WorkspaceSidebarEntry(w, o))
}

/// The drag hovers over the placeholder in front of workspace `w` on output `o`.
pub open spec fn drop_on_placeholder(target: Option<DropTarget>, w: u64, o: u64) -> bool {
    target == Some(DropTarget::WorkspaceSidebarDragPlaceholder(w, o))
}

/// The entry shown for workspace `ws` when it is not the one being dragged.
pub open spec fn entry_item(
    ws: WorkspaceInfo,
    with_toplevels: Set<u64>,
    output: u64,
    target: Option<DropTarget>,
    drag: Option<u64>,
) -> SidebarItem {
    SidebarItem::Entry {
        workspace: ws.handle,
        is_drop_target: drop_on_entry(target, ws.handle, output) && drag is None,
        has_toplevels: with_toplevels.contains(ws.handle),
        has_workspace_drag: drag is Some,
    }
}

/// The items that one workspace contributes to the sidebar.
pub open spec fn sidebar_block(
    ws: WorkspaceInfo,
    with_toplevels: Set<u64>,
    output: u64,
    target: Option<DropTarget>,
    drag: Option<u64>,
) -> Seq<SidebarItem> {
    if drag == Some(ws.handle) {
        seq![SidebarItem::DragSource { workspace: ws.handle }]
    } else if drag is Some && (drop_on_entry(target, ws.handle, output) || drop_on_placeholder(
        target,
        ws.handle,
        output,
    )) {
        seq![
            SidebarItem::Placeholder { workspace: ws.handle },
            entry_item(ws, with_toplevels, output, target, drag),
        ]
    } else {
        seq![entry_item(ws, with_toplevels, output, target, drag)]
    }
}

/// The whole sidebar: the blocks of the workspaces, in the order of the workspaces.
pub open spec fn sidebar_items(
    workspaces: Seq<WorkspaceInfo>,
    with_toplevels: Set<u64>,
    output: u64,
    target: Option<DropTarget>,
    drag: Option<u64>,
) -> Seq<SidebarItem>
    decreases workspaces.len(),
{
    if workspaces.len() == 0 {
        Seq::empty()
    } else {
        sidebar_items(workspaces.drop_last(), with_toplevels, output, target, drag) + sidebar_block(
            workspaces.last(),
            with_toplevels,
            output,
            target,
            drag,
        )
    }
}

/// Which theme palette a button is drawn with.
#[derive(Clone, Copy, Debug, PartialEq, Eq, Structural)]
pub enum Palette {
    Accent,
    Primary,
}

/// The pin button of a workspace entry.
#[derive(Clone, Copy, Debug, PartialEq, Eq, Structural)]
pub struct PinButton {
    /// The button is shown (it is otherwise kept in place but invisible).
    pub visible: bool,
    /// The button is drawn as selected.
    pub selected: bool,
    /// The palette of its background and icon, in every state.
    pub palette: Palette,
}

/// The pin button of `ws`: shown while the pointer is over the entry or the workspace
/// is pinned, provided the compositor allows pinning; accented when pinned.
pub fn pin_button_plan(ws: &WorkspaceInfo) -> (b: PinButton)
    ensures
        b.visible == ((ws.has_cursor || ws.is_pinned) && ws.can_pin),
        b.selected == ws.is_pinned,
        b.palette == (if ws.is_pinned {
            Palette::Accent
        } else {
            Palette::Primary
        }),
{
    let palette = if ws.is_pinned {
        Palette::Accent
    } else {
        Palette::Primary
    };
    PinButton {
        visible: (ws.has_cursor || ws.is_pinned) && ws.can_pin,
        selected: ws.is_pinned,
        palette,
    }
}

/// The decorations of a workspace item in one button state.
#[derive(Clone, Copy, Debug, PartialEq, Eq, Structural)]
pub struct ItemStyle {
    /// A thick accent-coloured border marks the active workspace.
    pub accent_border: bool,
    /// The button background is filled, as under the pointer.
    pub filled_background: bool,
}

/// How a workspace item (its thumbnail and footer, as a button) is drawn.
#[derive(Clone, Copy, Debug, PartialEq, Eq, Structural)]
pub struct WorkspaceItem {
    /// The item is shown as the active workspace.
    pub shown_active: bool,
    /// Pressing the item activates the workspace.
    pub activatable: bool,
    /// The thumbnail stretches to the full height of the item.
    pub image_fills_height: bool,
    /// The style at rest and when disabled.
    pub resting: ItemStyle,
    /// The style when hovered or pressed.
    pub hovered: ItemStyle,
}

/// The item of `ws`. It is shown active only while no workspace is dragged; its
/// resting style is filled when a drag hovers over it.
pub fn workspace_item_plan(
    ws: &WorkspaceInfo,
    layout: WorkspaceLayout,
    is_drop_target: bool,
    has_workspace_drag: bool,
) -> (item: WorkspaceItem)
    ensures
        item.shown_active == (ws.is_active && !has_workspace_drag),
        item.activatable == ws.can_activate,
        item.image_fills_height == (layout == WorkspaceLayout::Vertical),
        item.resting == (ItemStyle { accent_border: item.shown_active, filled_background: is_drop_target }),
        item.hovered == (ItemStyle { accent_border: item.shown_active, filled_background: true }),
{
    let shown_active = ws.is_active && !has_workspace_drag;
    let image_fills_height = match layout {
        WorkspaceLayout::Vertical => true,
        WorkspaceLayout::Horizontal => false,
    };
    WorkspaceItem {
        shown_active,
        activatable: ws.can_activate,
        image_fills_height,
        resting: ItemStyle { accent_border: shown_active, filled_background: is_drop_target },
        hovered: ItemStyle { accent_border: shown_active, filled_background: true },
    }
}

/// The entry of `ws` can be dragged when the workspace holds windows or is pinned,
/// and the compositor lets it move.
pub fn entry_is_drag_source(ws: &WorkspaceInfo, has_toplevels: bool) -> (b: bool)
    ensures
        b == ((has_toplevels || ws.is_pinned) && ws.can_move),
{
    (has_toplevels || ws.is_pinned) && ws.can_move
}

/// Lays out the sidebar of one output.
///
/// `workspaces` are the workspaces of the output in display order, `with_toplevels`
/// the ids of the workspaces that hold at least one window, `drop_target` where a
/// drag currently hovers and `drag` the workspace being dragged.
pub fn sidebar_plan(
    workspaces: &Vec<WorkspaceInfo>,
    with_toplevels: &Vec<u64>,
    output: u64,
    drop_target: &Option<DropTarget>,
    drag: Option<u64>,
) -> (items: Vec<SidebarItem>)
    ensures
        items@ == sidebar_items(workspaces@, with_toplevels@.to_set(), output, *drop_target, drag),
        forall|i: int|
            #![trigger items@[i]]
            0 <= i < items@.len() ==> (items@[i] matches SidebarItem::Entry { workspace, has_toplevels, .. }
                ==> has_toplevels == with_toplevels@.contains(workspace)),
{
    let mut items: Vec<SidebarItem> = Vec::new();
    let n = workspaces.len();
    let mut i: usize = 0;
    while i < n
        invariant
            n == workspaces.len(),
            0 <= i <= n,
            items@ == sidebar_items(
                workspaces@.take(i as int),
                with_toplevels@.to_set(),
                output,
                *drop_target,
                drag,
            ),
        decreases n - i,
    {
        let ws = workspaces[i];
        proof {
            assert(workspaces@.take(i + 1).drop_last() =~= workspaces@.take(i as int));
            assert(workspaces@.take(i + 1).last() == ws);
        }
        let ghost before = items@;
        let ghost block = sidebar_block(ws, with_toplevels@.to_set(), output, *drop_target, drag);
        let is_dragged = match drag {
            Some(d) => d == ws.handle,
            None => false,
        };
        if is_dragged {
            items.push(SidebarItem::DragSource { workspace: ws.handle });
            assert(items@ =~= before + block);
        } else {
            let (on_entry, on_placeholder) = match drop_target {
                Some(DropTarget::WorkspaceSidebarEntry(w, o)) => (*w == ws.handle && *o == output, false),
                Some(DropTarget::WorkspaceSidebarDragPlaceholder(w, o)) => (
                    false,
                    *w == ws.handle && *o == output,
                ),
                _ => (false, false),
            };
            assert(on_entry == drop_on_entry(*drop_target, ws.handle, output));
            assert(on_placeholder == drop_on_placeholder(*drop_target, ws.handle, output));
            let has_toplevels = vec_contains(with_toplevels, ws.handle);
            let entry = SidebarItem::Entry {
                workspace: ws.handle,
                is_drop_target: on_entry && drag.is_none(),
                has_toplevels,
                has_workspace_drag: drag.is_some(),
            };
            assert(entry == entry_item(ws, with_toplevels@.to_set(), output, *drop_target, drag));
            if drag.is_some() && (on_entry || on_placeholder) {
                items.push(SidebarItem::Placeholder { workspace: ws.handle });
            }
            items.push(entry);
            assert(items@ =~= before + block);
        }
        i += 1;
    }
    proof {
        assert(workspaces@.take(n as int) =~= workspaces@);
        lemma_sidebar_entries_describe_their_workspace(
            workspaces@,
            with_toplevels@.to_set(),
            output,
            *drop_target,
            drag,
        );
    }
    items
}

/// The workspaces that the sidebar lists, in order: every item but the placeholders.
pub open spec fn listed_workspaces(items: Seq<SidebarItem>) -> Seq<u64>
    decreases items.len(),
{
    if items.len() == 0 {
        Seq::empty()
    } else {
        let rest = listed_workspaces(items.drop_last());
        match items.last() {
            SidebarItem::Placeholder { .. } => rest,
            SidebarItem::DragSource { workspace } => rest.push(workspace),
            SidebarItem::Entry { workspace, .. } => rest.push(workspace),
        }
    }
}

/// The number of drop placeholders among `items`.
pub open spec fn placeholder_count(items: Seq<SidebarItem>) -> nat
    decreases items.len(),
{
    if items.len() == 0 {
        0
    } else {
        placeholder_count(items.drop_last()) + if items.last() is Placeholder {
            1nat
        } else {
            0nat
        }
    }
}

/// The number of drag sources among `items`.
pub open spec fn drag_source_count(items: Seq<SidebarItem>) -> nat
    decreases items.len(),
{
    if items.len() == 0 {
        0
    } else {
        drag_source_count(items.drop_last()) + if items.last() is DragSource {
            1nat
        } else {
            0nat
        }
    }
}

/// The ids of `workspaces`, in order.
pub open spec fn workspace_handles(workspaces: Seq<WorkspaceInfo>) -> Seq<u64> {
    workspaces.map_values(|w: WorkspaceInfo| w.handle)
}

/// No two of `workspaces` share an id.
pub open spec fn handles_distinct(workspaces: Seq<WorkspaceInfo>) -> bool {
    forall|i: int, j: int|
        0 <= i < j < workspaces.len() ==> #[trigger] workspaces[i].handle != #[trigger] workspaces[j].handle
}

/// Every placeholder stands directly in front of the entry of its own workspace, and
/// only while another workspace is dragged over that entry or that placeholder.
pub open spec fn placeholders_well_placed(
    items: Seq<SidebarItem>,
    output: u64,
    target: Option<DropTarget>,
    drag: Option<u64>,
) -> bool {
    forall|i: int|
        #![trigger items[i]]
        0 <= i < items.len() ==> (items[i] matches SidebarItem::Placeholder { workspace } ==> {
            &&& i + 1 < items.len()
            &&& items[i + 1] matches SidebarItem::Entry { workspace: next, .. } && next == workspace
            &&& drag is Some && drag != Some(workspace)
            &&& drop_on_entry(target, workspace, output) || drop_on_placeholder(
                target,
                workspace,
                output,
            )
        })
}

/// Every item agrees with the drag state: only the dragged workspace is a drag source,
/// entries know whether a workspace drag is going on, and no entry is highlighted as a
/// drop target while a workspace is dragged.
pub open spec fn items_agree_with_drag(items: Seq<SidebarItem>, drag: Option<u64>) -> bool {
    forall|i: int|
        #![trigger items[i]]
        0 <= i < items.len() ==> match items[i] {
            SidebarItem::DragSource { workspace } => drag == Some(workspace),
            SidebarItem::Placeholder { workspace } => drag is Some && drag != Some(workspace),
            SidebarItem::Entry { workspace, is_drop_target, has_workspace_drag, .. } => {
                &&& has_workspace_drag == drag is Some
                &&& is_drop_target ==> drag is None
                &&& drag != Some(workspace)
            },
        }
}

proof fn lemma_listed_concat(a: Seq<SidebarItem>, b: Seq<SidebarItem>)
    ensures
        listed_workspaces(a + b) == listed_workspaces(a) + listed_workspaces(b),
    decreases b.len(),
{
    if b.len() == 0 {
        assert(a + b =~= a);
        assert(listed_workspaces(a) + listed_workspaces(b) =~= listed_workspaces(a));
    } else {
        lemma_listed_concat(a, b.drop_last());
        assert((a + b).drop_last() =~= a + b.drop_last());
        assert((a + b).last() == b.last());
        let la = listed_workspaces(a);
        let lb = listed_workspaces(b.drop_last());
        match b.last() {
            SidebarItem::Placeholder { .. } => {},
            SidebarItem::DragSource { workspace } => {
                assert((la + lb).push(workspace) =~= la + lb.push(workspace));
            },
            SidebarItem::Entry { workspace, .. } => {
                assert((la + lb).push(workspace) =~= la + lb.push(workspace));
            },
        }
    }
}

proof fn lemma_counts_concat(a: Seq<SidebarItem>, b: Seq<SidebarItem>)
    ensures
        placeholder_count(a + b) == placeholder_count(a) + placeholder_count(b),
        drag_source_count(a + b) == drag_source_count(a) + drag_source_count(b),
    decreases b.len(),
{
    if b.len() == 0 {
        assert(a + b =~= a);
    } else {
        lemma_counts_concat(a, b.drop_last());
        assert((a + b).drop_last() =~= a + b.drop_last());
        assert((a + b).last() == b.last());
    }
}

proof fn lemma_block_facts(
    ws: WorkspaceInfo,
    with_toplevels: Set<u64>,
    output: u64,
    target: Option<DropTarget>,
    drag: Option<u64>,
)
    ensures
        ({
            let block = sidebar_block(ws, with_toplevels, output, target, drag);
            &&& listed_workspaces(block) == seq![ws.handle]
            &&& placeholder_count(block) == if drag is Some && drag != Some(ws.handle) && (
                drop_on_entry(target, ws.handle, output) || drop_on_placeholder(
                    target,
                    ws.handle,
                    output,
                )) {
                1nat
            } else {
                0nat
            }
            &&& drag_source_count(block) == if drag == Some(ws.handle) {
                1nat
            } else {
                0nat
            }
        }),
{
    let block = sidebar_block(ws, with_toplevels, output, target, drag);
    let e = entry_item(ws, with_toplevels, output, target, drag);
    reveal_with_fuel(listed_workspaces, 3);
    reveal_with_fuel(placeholder_count, 3);
    reveal_with_fuel(drag_source_count, 3);
    if drag == Some(ws.handle) {
        let d = SidebarItem::DragSource { workspace: ws.handle };
        assert(block =~= seq![d]);
        assert(seq![d].drop_last() =~= Seq::<SidebarItem>::empty());
        assert(listed_workspaces(seq![d]) =~= seq![ws.handle]);
    } else if drag is Some && (drop_on_entry(target, ws.handle, output) || drop_on_placeholder(
        target,
        ws.handle,
        output,
    )) {
        let p = SidebarItem::Placeholder { workspace: ws.handle };
        assert(block =~= seq![p, e]);
        assert(seq![p, e].drop_last() =~= seq![p]);
        assert(seq![p].drop_last() =~= Seq::<SidebarItem>::empty());
        assert(listed_workspaces(seq![p]) =~= Seq::<u64>::empty());
        assert(listed_workspaces(seq![p, e]) =~= seq![ws.handle]);
    } else {
        assert(block =~= seq![e]);
        assert(seq![e].drop_last() =~= Seq::<SidebarItem>::empty());
        assert(listed_workspaces(seq![e]) =~= seq![ws.handle]);
    }
}

/// Every workspace of the output is listed exactly once, in the order of the
/// workspaces, whether as its entry or as the drag source of a dragged workspace;
/// placeholders come on top of that.
pub proof fn lemma_sidebar_lists_each_workspace_once(
    workspaces: Seq<WorkspaceInfo>,
    with_toplevels: Set<u64>,
    output: u64,
    target: Option<DropTarget>,
    drag: Option<u64>,
)
    ensures
        listed_workspaces(sidebar_items(workspaces, with_toplevels, output, target, drag))
            == workspace_handles(workspaces),
    decreases workspaces.len(),
{
    if workspaces.len() == 0 {
        assert(workspace_handles(workspaces) =~= Seq::<u64>::empty());
    } else {
        let init = workspaces.drop_last();
        lemma_sidebar_lists_each_workspace_once(init, with_toplevels, output, target, drag);
        lemma_listed_concat(
            sidebar_items(init, with_toplevels, output, target, drag),
            sidebar_block(workspaces.last(), with_toplevels, output, target, drag),
        );
        lemma_block_facts(workspaces.last(), with_toplevels, output, target, drag);
        assert(workspace_handles(workspaces) =~= workspace_handles(init).push(
            workspaces.last().handle,
        ));
        assert(workspace_handles(init).push(workspaces.last().handle) =~= workspace_handles(init)
            + seq![workspaces.last().handle]);
    }
}

/// With no workspace dragged, the sidebar is exactly one entry per workspace, in
/// order, none of which knows of a workspace drag.
pub proof fn lemma_sidebar_without_drag(
    workspaces: Seq<WorkspaceInfo>,
    with_toplevels: Set<u64>,
    output: u64,
    target: Option<DropTarget>,
)
    ensures
        sidebar_items(workspaces, with_toplevels, output, target, None) == workspaces.map_values(
            |w: WorkspaceInfo| entry_item(w, with_toplevels, output, target, None),
        ),
    decreases workspaces.len(),
{
    let f = |w: WorkspaceInfo| entry_item(w, with_toplevels, output, target, None);
    if workspaces.len() == 0 {
        assert(workspaces.map_values(f) =~= Seq::<SidebarItem>::empty());
    } else {
        let init = workspaces.drop_last();
        lemma_sidebar_without_drag(init, with_toplevels, output, target);
        assert(workspaces.map_values(f) =~= init.map_values(f) + seq![f(workspaces.last())]);
    }
}

/// Drop placeholders appear only in front of the entry they belong to, and only while
/// some other workspace is dragged over that entry or that placeholder.
pub proof fn lemma_sidebar_placeholders_well_placed(
    workspaces: Seq<WorkspaceInfo>,
    with_toplevels: Set<u64>,
    output: u64,
    target: Option<DropTarget>,
    drag: Option<u64>,
)
    ensures
        placeholders_well_placed(
            sidebar_items(workspaces, with_toplevels, output, target, drag),
            output,
            target,
            drag,
        ),
    decreases workspaces.len(),
{
    if workspaces.len() > 0 {
        let init = workspaces.drop_last();
        lemma_sidebar_placeholders_well_placed(init, with_toplevels, output, target, drag);
        let prev = sidebar_items(init, with_toplevels, output, target, drag);
        let block = sidebar_block(workspaces.last(), with_toplevels, output, target, drag);
        let items = prev + block;
        assert forall|i: int| #![trigger items[i]] 0 <= i < items.len() implies (
        items[i] matches SidebarItem::Placeholder { workspace } ==> {
            &&& i + 1 < items.len()
            &&& items[i + 1] matches SidebarItem::Entry { workspace: next, .. } && next == workspace
            &&& drag is Some && drag != Some(workspace)
            &&& drop_on_entry(target, workspace, output) || drop_on_placeholder(
                target,
                workspace,
                output,
            )
        }) by {
            if i < prev.len() {
                assert(items[i] == prev[i]);
                if i + 1 < prev.len() {
                    assert(items[i + 1] == prev[i + 1]);
                }
            } else {
                assert(items[i] == block[i - prev.len()]);
                if i + 1 < items.len() {
                    assert(items[i + 1] == block[i + 1 - prev.len()]);
                }
            }
        }
    }
}

/// Every sidebar item agrees with the drag state.
pub proof fn lemma_sidebar_agrees_with_drag(
    workspaces: Seq<WorkspaceInfo>,
    with_toplevels: Set<u64>,
    output: u64,
    target: Option<DropTarget>,
    drag: Option<u64>,
)
    ensures
        items_agree_with_drag(sidebar_items(workspaces, with_toplevels, output, target, drag), drag),
    decreases workspaces.len(),
{
    if workspaces.len() > 0 {
        let init = workspaces.drop_last();
        lemma_sidebar_agrees_with_drag(init, with_toplevels, output, target, drag);
        let prev = sidebar_items(init, with_toplevels, output, target, drag);
        let block = sidebar_block(workspaces.last(), with_toplevels, output, target, drag);
        let items = prev + block;
        assert forall|i: int| #![trigger items[i]] 0 <= i < items.len() implies match items[i] {
            SidebarItem::DragSource { workspace } => drag == Some(workspace),
            SidebarItem::Placeholder { workspace } => drag is Some && drag != Some(workspace),
            SidebarItem::Entry { workspace, is_drop_target, has_workspace_drag, .. } => {
                &&& has_workspace_drag == drag is Some
                &&& is_drop_target ==> drag is None
                &&& drag != Some(workspace)
            },
        } by {
            if i < prev.len() {
                assert(items[i] == prev[i]);
            } else {
                assert(items[i] == block[i - prev.len()]);
            }
        }
    }
}

/// What every entry of the sidebar says of its workspace: it holds windows exactly when
/// its id is among `with_toplevels`, it is highlighted as a drop target exactly when a
/// window (not a workspace) is dragged over that very entry on this output, and it knows
/// of a workspace drag exactly when one is going on. None of this depends on the
/// workspace's other fields (pointer, pin, activity, capabilities).
pub proof fn lemma_sidebar_entries_describe_their_workspace(
    workspaces: Seq<WorkspaceInfo>,
    with_toplevels: Set<u64>,
    output: u64,
    target: Option<DropTarget>,
    drag: Option<u64>,
)
    ensures
        ({
            let items = sidebar_items(workspaces, with_toplevels, output, target, drag);
            forall|i: int|
                #![trigger items[i]]
                0 <= i < items.len() ==> (items[i] matches SidebarItem::Entry {
                    workspace,
                    is_drop_target,
                    has_toplevels,
                    has_workspace_drag,
                } ==> {
                    &&& has_toplevels == with_toplevels.contains(workspace)
                    &&& is_drop_target == (target == Some(
                        DropTarget::WorkspaceSidebarEntry(workspace, output),
                    ) && drag is None)
                    &&& has_workspace_drag == (drag is Some)
                })
        }),
    decreases workspaces.len(),
{
    if workspaces.len() > 0 {
        let init = workspaces.drop_last();
        lemma_sidebar_entries_describe_their_workspace(init, with_toplevels, output, target, drag);
        let prev = sidebar_items(init, with_toplevels, output, target, drag);
        let block = sidebar_block(workspaces.last(), with_toplevels, output, target, drag);
        let items = prev + block;
        assert forall|i: int| #![trigger items[i]] 0 <= i < items.len() implies (
        items[i] matches SidebarItem::Entry { workspace, is_drop_target, has_toplevels, has_workspace_drag }
            ==> {
            &&& has_toplevels == with_toplevels.contains(workspace)
            &&& is_drop_target == (target == Some(DropTarget::WorkspaceSidebarEntry(workspace, output))
                && drag is None)
            &&& has_workspace_drag == (drag is Some)
        }) by {
            if i < prev.len() {
                assert(items[i] == prev[i]);
            } else {
                assert(items[i] == block[i - prev.len()]);
            }
        }
    }
}

/// Every workspace that is not the dragged one gets an entry in the sidebar.
pub proof fn lemma_sidebar_has_entry_for_each_undragged_workspace(
    workspaces: Seq<WorkspaceInfo>,
    with_toplevels: Set<u64>,
    output: u64,
    target: Option<DropTarget>,
    drag: Option<u64>,
)
    ensures
        ({
            let items = sidebar_items(workspaces, with_toplevels, output, target, drag);
            forall|k: int|
                0 <= k < workspaces.len() && drag != Some(#[trigger] workspaces[k].handle) ==> exists|i: int|
                    0 <= i < items.len() && (#[trigger] items[i] matches SidebarItem::Entry { workspace, .. }
                        && workspace == workspaces[k].handle)
        }),
    decreases workspaces.len(),
{
    if workspaces.len() > 0 {
        let init = workspaces.drop_last();
        lemma_sidebar_has_entry_for_each_undragged_workspace(init, with_toplevels, output, target, drag);
        let prev = sidebar_items(init, with_toplevels, output, target, drag);
        let last = workspaces.last();
        let block = sidebar_block(last, with_toplevels, output, target, drag);
        let items = prev + block;
        assert forall|k: int|
            0 <= k < workspaces.len() && drag != Some(#[trigger] workspaces[k].handle) implies exists|i: int|
            0 <= i < items.len() && (#[trigger] items[i] matches SidebarItem::Entry { workspace, .. }
                && workspace == workspaces[k].handle) by {
            if k < init.len() {
                assert(init[k] == workspaces[k]);
                let i = choose|i: int|
                    0 <= i < prev.len() && (#[trigger] prev[i] matches SidebarItem::Entry { workspace, .. }
                        && workspace == init[k].handle);
                assert(items[i] == prev[i]);
            } else {
                assert(workspaces[k] == last);
                let j = (block.len() - 1) as int;
                assert(items[prev.len() + j] == block[j]);
            }
        }
        assert(sidebar_items(workspaces, with_toplevels, output, target, drag) == items);
    }
}

/// When no two workspaces share an id, the sidebar holds at most one drop placeholder
/// and at most one drag source.
pub proof fn lemma_sidebar_single_placeholder_and_source(
    workspaces: Seq<WorkspaceInfo>,
    with_toplevels: Set<u64>,
    output: u64,
    target: Option<DropTarget>,
    drag: Option<u64>,
)
    requires
        handles_distinct(workspaces),
    ensures
        placeholder_count(sidebar_items(workspaces, with_toplevels, output, target, drag)) <= 1,
        drag_source_count(sidebar_items(workspaces, with_toplevels, output, target, drag)) <= 1,
{
    lemma_sidebar_counts(workspaces, with_toplevels, output, target, drag);
}

proof fn lemma_sidebar_counts(
    workspaces: Seq<WorkspaceInfo>,
    with_toplevels: Set<u64>,
    output: u64,
    target: Option<DropTarget>,
    drag: Option<u64>,
)
    requires
        handles_distinct(workspaces),
    ensures
        ({
            let items = sidebar_items(workspaces, with_toplevels, output, target, drag);
            &&& placeholder_count(items) <= 1
            &&& placeholder_count(items) == 1 ==> exists|k: int|
                0 <= k < workspaces.len() && (drop_on_entry(target, #[trigger] workspaces[k].handle, output)
                    || drop_on_placeholder(target, workspaces[k].handle, output))
            &&& drag_source_count(items) <= 1
            &&& drag_source_count(items) == 1 ==> exists|k: int|
                0 <= k < workspaces.len() && drag == Some(#[trigger] workspaces[k].handle)
        }),
    decreases workspaces.len(),
{
    if workspaces.len() > 0 {
        let init = workspaces.drop_last();
        let last = workspaces.last();
        assert forall|i: int, j: int| 0 <= i < j < init.len() implies #[trigger] init[i].handle
            != #[trigger] init[j].handle by {
            assert(init[i] == workspaces[i]);
            assert(init[j] == workspaces[j]);
        }
        lemma_sidebar_counts(init, with_toplevels, output, target, drag);
        let prev = sidebar_items(init, with_toplevels, output, target, drag);
        let block = sidebar_block(last, with_toplevels, output, target, drag);
        lemma_counts_concat(prev, block);
        lemma_block_facts(last, with_toplevels, output, target, drag);
        let n = workspaces.len() - 1;
        assert(workspaces[n] == last);
        if placeholder_count(block) == 1 && placeholder_count(prev) == 1 {
            let k = choose|k: int|
                0 <= k < init.len() && (drop_on_entry(target, #[trigger] init[k].handle, output)
                    || drop_on_placeholder(target, init[k].handle, output));
            assert(init[k] == workspaces[k]);
            assert(workspaces[k].handle != workspaces[n].handle);
            assert(false);
        }
        if drag_source_count(block) == 1 && drag_source_count(prev) == 1 {
            let k = choose|k: int| 0 <= k < init.len() && drag == Some(#[trigger] init[k].handle);
            assert(init[k] == workspaces[k]);
            assert(workspaces[k].handle != workspaces[n].handle);
            assert(false);
        }
        if placeholder_count(prev) == 1 {
            let k = choose|k: int|
                0 <= k < init.len() && (drop_on_entry(target, #[trigger] init[k].handle, output)
                    || drop_on_placeholder(target, init[k].handle, output));
            assert(init[k] == workspaces[k]);
        }
        if drag_source_count(prev) == 1 {
            let k = choose|k: int| 0 <= k < init.len() && drag == Some(#[trigger] init[k].handle);
            assert(init[k] == workspaces[k]);
        }
    }
}

} // verus!
