//! Which windows the overview of an output previews, and how each preview looks.
use vstd::prelude::*;
use crate::model::{ToplevelInfo, WorkspaceInfo, vec_contains};

verus! {

/// The first workspace with id `h` exists and is active.
pub open spec fn workspace_active(workspaces: Seq<WorkspaceInfo>, h: u64) -> bool {
    exists|i: int|
        0 <= i < workspaces.len() && #[trigger] workspaces[i].handle == h && workspaces[i].is_active
            && forall|j: int| 0 <= j < i ==> #[trigger] workspaces[j].handle != h
}

/// Whether the first workspace with id `h` is active; false when there is none.
pub fn workspace_is_active(workspaces: &Vec<WorkspaceInfo>, h: u64) -> (b: bool)
    ensures
        b == workspace_active(workspaces@, h),
{
    let mut i: usize = 0;
    while i < workspaces.len()
        invariant
            0 <= i <= workspaces.len(),
            forall|j: int| 0 <= j < i ==> #[trigger] workspaces@[j].handle != h,
        decreases workspaces.len() - i,
    {
        if workspaces[i].handle == h {
            let active = workspaces[i].is_active;
            proof {
                if !active && workspace_active(workspaces@, h) {
                    let k = choose|k: int|
                        0 <= k < workspaces@.len() && #[trigger] workspaces@[k].handle == h
                            && workspaces@[k].is_active && forall|j: int|
                            0 <= j < k ==> #[trigger] workspaces@[j].handle != h;
                    if k < i {
                    } else if k > i {
                        assert(workspaces@[i as int].handle != h);
                    }
                }
            }
            return active;
        }
        i += 1;
    }
    false
}

/// A window is previewed on `output` when it is shown there and one of its workspaces
/// is active.
pub open spec fn toplevel_shown(t: ToplevelInfo, workspaces: Seq<WorkspaceInfo>, output: u64) -> bool {
    &&& t.outputs@.contains(output)
    &&& exists|k: int|
        0 <= k < t.workspaces@.len() && workspace_active(workspaces, #[trigger] t.workspaces@[k])
}

/// A window is previewed on an output exactly when the output is one of its outputs and
/// some id of its workspace list, at any position, names a workspace whose first
/// occurrence among `workspaces` is active.
pub proof fn lemma_shown_iff_some_workspace_active(
    t: ToplevelInfo,
    workspaces: Seq<WorkspaceInfo>,
    output: u64,
)
    ensures
        toplevel_shown(t, workspaces, output) <==> {
            &&& exists|o: int| 0 <= o < t.outputs@.len() && t.outputs@[o] == output
            &&& exists|k: int, i: int|
                #![trigger t.workspaces@[k], workspaces[i]]
                0 <= k < t.workspaces@.len() && 0 <= i < workspaces.len() && workspaces[i].handle
                    == t.workspaces@[k] && workspaces[i].is_active && forall|j: int|
                    0 <= j < i ==> workspaces[j].handle != t.workspaces@[k]
        },
{
    if toplevel_shown(t, workspaces, output) {
        let k = choose|k: int|
            0 <= k < t.workspaces@.len() && workspace_active(workspaces, #[trigger] t.workspaces@[k]);
        let h = t.workspaces@[k];
        let i = choose|i: int|
            0 <= i < workspaces.len() && #[trigger] workspaces[i].handle == h && workspaces[i].is_active
                && forall|j: int| 0 <= j < i ==> #[trigger] workspaces[j].handle != h;
        assert(workspaces[i].handle == t.workspaces@[k]);
    }
    if exists|k: int, i: int|
        #![trigger t.workspaces@[k], workspaces[i]]
        0 <= k < t.workspaces@.len() && 0 <= i < workspaces.len() && workspaces[i].handle
            == t.workspaces@[k] && workspaces[i].is_active && forall|j: int|
            0 <= j < i ==> workspaces[j].handle != t.workspaces@[k] {
        let (k, i) = choose|k: int, i: int|
            #![trigger t.workspaces@[k], workspaces[i]]
            0 <= k < t.workspaces@.len() && 0 <= i < workspaces.len() && workspaces[i].handle
                == t.workspaces@[k] && workspaces[i].is_active && forall|j: int|
                0 <= j < i ==> workspaces[j].handle != t.workspaces@[k];
        assert(workspace_active(workspaces, t.workspaces@[k]));
    }
}

/// Whether a window is previewed does not depend on the order, or the repetition, of the
/// ids in its workspace list, nor of those in its output list.
pub proof fn lemma_shown_ignores_list_order(
    t1: ToplevelInfo,
    t2: ToplevelInfo,
    workspaces: Seq<WorkspaceInfo>,
    output: u64,
)
    requires
        t1.outputs@.to_set() == t2.outputs@.to_set(),
        t1.workspaces@.to_set() == t2.workspaces@.to_set(),
    ensures
        toplevel_shown(t1, workspaces, output) == toplevel_shown(t2, workspaces, output),
{
    assert(t1.outputs@.to_set().contains(output) == t1.outputs@.contains(output));
    assert(t2.outputs@.to_set().contains(output) == t2.outputs@.contains(output));
    if toplevel_shown(t1, workspaces, output) {
        let k = choose|k: int|
            0 <= k < t1.workspaces@.len() && workspace_active(workspaces, #[trigger] t1.workspaces@[k]);
        let h = t1.workspaces@[k];
        assert(t1.workspaces@.to_set().contains(h));
        assert(t2.workspaces@.to_set().contains(h));
        let k2 = choose|k2: int| 0 <= k2 < t2.workspaces@.len() && t2.workspaces@[k2] == h;
        assert(workspace_active(workspaces, t2.workspaces@[k2]));
    }
    if toplevel_shown(t2, workspaces, output) {
        let k = choose|k: int|
            0 <= k < t2.workspaces@.len() && workspace_active(workspaces, #[trigger] t2.workspaces@[k]);
        let h = t2.workspaces@[k];
        assert(t2.workspaces@.to_set().contains(h));
        assert(t1.workspaces@.to_set().contains(h));
        let k1 = choose|k1: int| 0 <= k1 < t1.workspaces@.len() && t1.workspaces@[k1] == h;
        assert(workspace_active(workspaces, t1.workspaces@[k1]));
    }
}

/// One window preview.
#[derive(Clone, Copy, Debug, PartialEq, Eq, Structural)]
pub struct PreviewEntry {
    /// Position of the window among all windows.
    pub index: usize,
    /// The window is the one being dragged: its preview is hidden in place and drawn
    /// translucent under the pointer.
    pub is_being_dragged: bool,
    /// The window is the activated one.
    pub selected: bool,
}

/// The preview of window `i`.
pub open spec fn preview_of(toplevels: Seq<ToplevelInfo>, i: int, drag: Option<u64>) -> PreviewEntry {
    PreviewEntry {
        index: i as usize,
        is_being_dragged: drag == Some(toplevels[i].handle),
        selected: toplevels[i].activated,
    }
}

/// The previews of the first `n` windows, in their order.
pub open spec fn previews_upto(
    toplevels: Seq<ToplevelInfo>,
    workspaces: Seq<WorkspaceInfo>,
    output: u64,
    drag: Option<u64>,
    n: int,
) -> Seq<PreviewEntry>
    decreases n,
{
    if n <= 0 {
        Seq::empty()
    } else {
        let before = previews_upto(toplevels, workspaces, output, drag, n - 1);
        if toplevel_shown(toplevels[n - 1], workspaces, output) {
            before.push(preview_of(toplevels, n - 1, drag))
        } else {
            before
        }
    }
}

/// Whether window `t` is previewed on `output`.
pub fn toplevel_is_shown(t: &ToplevelInfo, workspaces: &Vec<WorkspaceInfo>, output: u64) -> (b:
    bool)
    ensures
        b == toplevel_shown(*t, workspaces@, output),
{
    if !vec_contains(&t.outputs, output) {
        return false;
    }
    let mut k: usize = 0;
    while k < t.workspaces.len()
        invariant
            0 <= k <= t.workspaces.len(),
            t.outputs@.contains(output),
            forall|j: int| 0 <= j < k ==> !workspace_active(workspaces@, #[trigger] t.workspaces@[j]),
        decreases t.workspaces.len() - k,
    {
        if workspace_is_active(workspaces, t.workspaces[k]) {
            assert(workspace_active(workspaces@, t.workspaces@[k as int]));
            return true;
        }
        k += 1;
    }
    assert(!(exists|j: int|
        0 <= j < t.workspaces@.len() && workspace_active(workspaces@, #[trigger] t.workspaces@[j])));
    false
}

/// The previews of an output: the windows shown there under an active workspace, in
/// their order, with the dragged window `drag` marked.
pub fn preview_plan(
    toplevels: &Vec<ToplevelInfo>,
    workspaces: &Vec<WorkspaceInfo>,
    output: u64,
    drag: Option<u64>,
) -> (r: Vec<PreviewEntry>)
    ensures
        r@ == previews_upto(toplevels@, workspaces@, output, drag, toplevels@.len() as int),
{
    let mut r: Vec<PreviewEntry> = Vec::new();
    let mut i: usize = 0;
    while i < toplevels.len()
        invariant
            0 <= i <= toplevels.len(),
            r@ == previews_upto(toplevels@, workspaces@, output, drag, i as int),
        decreases toplevels.len() - i,
    {
        let t = &toplevels[i];
        if toplevel_is_shown(t, workspaces, output) {
            let dragged = match drag {
                Some(d) => d == t.handle,
                None => false,
            };
            r.push(PreviewEntry { index: i, is_being_dragged: dragged, selected: t.activated });
        }
        i += 1;
    }
    r
}

/// The previews are exactly the shown windows, each once, in increasing order, each
/// marked dragged when it is the dragged window and selected when it is activated.
pub proof fn lemma_previews_are_the_shown_windows(
    toplevels: Seq<ToplevelInfo>,
    workspaces: Seq<WorkspaceInfo>,
    output: u64,
    drag: Option<u64>,
    n: int,
)
    requires
        0 <= n <= toplevels.len(),
        toplevels.len() <= usize::MAX,
    ensures
        ({
            let r = previews_upto(toplevels, workspaces, output, drag, n);
            &&& forall|i: int|
                #![trigger r[i]]
                0 <= i < r.len() ==> {
                    &&& r[i].index < n
                    &&& toplevel_shown(toplevels[r[i].index as int], workspaces, output)
                    &&& r[i].is_being_dragged == (drag == Some(toplevels[r[i].index as int].handle))
                    &&& r[i].selected == toplevels[r[i].index as int].activated
                }
            &&& forall|i: int, j: int| 0 <= i < j < r.len() ==> #[trigger] r[i].index < #[trigger] r[j].index
            &&& forall|k: int|
                0 <= k < n && toplevel_shown(#[trigger] toplevels[k], workspaces, output) ==> exists|i: int|
                    0 <= i < r.len() && #[trigger] r[i].index == k
        }),
    decreases n,
{
    if n > 0 {
        lemma_previews_are_the_shown_windows(toplevels, workspaces, output, drag, n - 1);
        let before = previews_upto(toplevels, workspaces, output, drag, n - 1);
        let r = previews_upto(toplevels, workspaces, output, drag, n);
        assert forall|k: int|
            0 <= k < n && toplevel_shown(#[trigger] toplevels[k], workspaces, output) implies exists|i: int|
            0 <= i < r.len() && #[trigger] r[i].index == k by {
            if k < n - 1 {
                let i = choose|i: int| 0 <= i < before.len() && #[trigger] before[i].index == k;
                assert(r[i] == before[i]);
            } else {
                assert(r[before.len() as int].index == k);
            }
        }
    }
}

/// No two windows share an id.
pub open spec fn toplevel_handles_distinct(toplevels: Seq<ToplevelInfo>) -> bool {
    forall|i: int, j: int|
        0 <= i < j < toplevels.len() ==> #[trigger] toplevels[i].handle != #[trigger] toplevels[j].handle
}

/// When no two windows share an id, at most one preview is marked as dragged.
pub proof fn lemma_at_most_one_dragged_preview(
    toplevels: Seq<ToplevelInfo>,
    workspaces: Seq<WorkspaceInfo>,
    output: u64,
    drag: Option<u64>,
)
    requires
        toplevel_handles_distinct(toplevels),
        toplevels.len() <= usize::MAX,
    ensures
        ({
            let r = previews_upto(toplevels, workspaces, output, drag, toplevels.len() as int);
            forall|i: int, j: int|
                0 <= i < j < r.len() ==> !(#[trigger] r[i].is_being_dragged && #[trigger] r[j].is_being_dragged)
        }),
{
    let n = toplevels.len() as int;
    lemma_previews_are_the_shown_windows(toplevels, workspaces, output, drag, n);
    let r = previews_upto(toplevels, workspaces, output, drag, n);
    assert forall|i: int, j: int|
        0 <= i < j < r.len() implies !(#[trigger] r[i].is_being_dragged && #[trigger] r[j].is_being_dragged) by {
        let a = r[i].index as int;
        let b = r[j].index as int;
        assert(a < b);
        assert(toplevels[a].handle != toplevels[b].handle);
    }
}

} // verus!
