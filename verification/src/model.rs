//! Plain-value descriptions of what the overview reads from the compositor state.
//!
//! Wayland objects (outputs, workspace handles, toplevel handles) are identified by
//! integer ids; the embedding application assigns one id per live object.
use vstd::prelude::*;

verus! {

/// How the overview places the workspace sidebar relative to the window previews.
#[derive(Clone, Copy, Debug, PartialEq, Eq, Structural)]
pub enum WorkspaceLayout {
    /// Sidebar on the side, workspaces listed top to bottom.
    Vertical,
    /// Sidebar on top, workspaces listed left to right.
    Horizontal,
}

/// The output transform of a captured buffer.
#[derive(Clone, Copy, Debug, PartialEq, Eq, Structural)]
pub enum Transform {
    Normal,
    Rotate90,
    Rotate180,
    Rotate270,
    Flipped,
    Flipped90,
    Flipped180,
    Flipped270,
}

/// Size and transform of a captured workspace or window image.
#[derive(Clone, Copy, Debug, PartialEq, Eq, Structural)]
pub struct CaptureDims {
    pub width: u32,
    pub height: u32,
    pub transform: Transform,
}

/// What the overview reads from a workspace.
#[derive(Clone, Copy, Debug, PartialEq, Eq, Structural)]
pub struct WorkspaceInfo {
    /// Id of the workspace handle.
    pub handle: u64,
    /// The workspace is active on its output.
    pub is_active: bool,
    /// The workspace is pinned.
    pub is_pinned: bool,
    /// The pointer is over this workspace's sidebar entry.
    pub has_cursor: bool,
    /// The compositor lets the workspace be activated.
    pub can_activate: bool,
    /// The compositor lets the workspace be pinned.
    pub can_pin: bool,
    /// The compositor lets the workspace be moved.
    pub can_move: bool,
}

/// What the overview reads from a toplevel window.
pub struct ToplevelInfo {
    /// Id of the toplevel handle.
    pub handle: u64,
    /// Ids of the outputs the window is shown on.
    pub outputs: Vec<u64>,
    /// Ids of the workspaces the window belongs to.
    pub workspaces: Vec<u64>,
    /// The window is the activated one.
    pub activated: bool,
}

/// The surface being dragged, if any.
#[derive(Clone, Copy, Debug, PartialEq, Eq, Structural)]
pub enum DragSurface {
    /// A window, by the id of its handle.
    Toplevel(u64),
    /// A workspace, by the id of its handle.
    Workspace(u64),
}

/// Where a drag is currently hovering: a workspace id and an output id.
#[derive(Clone, Copy, Debug, PartialEq, Eq, Structural)]
pub enum DropTarget {
    /// The sidebar entry of a workspace.
    WorkspaceSidebarEntry(u64, u64),
    /// The placeholder shown in front of a workspace's sidebar entry.
    WorkspaceSidebarDragPlaceholder(u64, u64),
    /// The window previews area of an output, under its active workspace.
    OutputToplevels(u64, u64),
}

/// Whether `v` holds `x`.
pub fn vec_contains(v: &Vec<u64>, x: u64) -> (b: bool)
    ensures
        b == v@.contains(x),
{
    let mut i: usize = 0;
    while i < v.len()
        invariant
            0 <= i <= v.len(),
            forall|j: int| 0 <= j < i ==> v@[j] != x,
        decreases v.len() - i,
    {
        if v[i] == x {
            assert(v@[i as int] == x);
            return true;
        }
        i += 1;
    }
    false
}

} // verus!
