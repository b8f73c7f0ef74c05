//! What holds of the model's transitions and of its snapshots.
use crate::model::{windows_by_id, workspaces_by_id, NiriView};
use crate::order::{
    lemma_precedes_asymmetric, lemma_strictly_ordered_unique,
    strictly_ordered, SortKey,
};
use crate::window::{NiriWindowView, WindowLayout, WindowView, WorkspaceView};
use vstd::prelude::*;

verus! {

/// A list's windows by identifier are each filed under their own identifier.
pub proof fn lemma_windows_by_id_filed(list: Seq<NiriWindowView>)
    ensures
        forall|id: u64| #[trigger]
            windows_by_id(list).contains_key(id) ==> windows_by_id(list)[id].id == id,
    decreases list.len(),
{
    if list.len() > 0 {
        lemma_windows_by_id_filed(list.drop_last());
    }
}

/// A list's workspaces by identifier are each filed under their own
/// identifier.
pub proof fn lemma_workspaces_by_id_filed(list: Seq<WorkspaceView>)
    ensures
        forall|id: u64| #[trigger]
            workspaces_by_id(list).contains_key(id) ==> workspaces_by_id(list)[id].id == id,
    decreases list.len(),
{
    if list.len() > 0 {
        lemma_workspaces_by_id_filed(list.drop_last());
    }
}

/// A model made of two lists is well formed.
pub proof fn lemma_from_lists_wf(windows: Seq<NiriWindowView>, workspaces: Seq<WorkspaceView>)
    ensures
        NiriView::from_lists(windows, workspaces).wf(),
{
    lemma_windows_by_id_filed(windows);
    lemma_workspaces_by_id_filed(workspaces);
}

/// Every transition keeps a well-formed model well formed.
pub proof fn lemma_transitions_keep_wf(
    model: NiriView,
    windows: Seq<NiriWindowView>,
    workspaces: Seq<WorkspaceView>,
    window: NiriWindowView,
    id: u64,
    focus: Option<u64>,
    layout: WindowLayout,
)
    requires
        model.wf(),
    ensures
        model.replace_windows(windows).wf(),
        model.replace_workspaces(workspaces).wf(),
        model.remove_window(id).wf(),
        model.set_focus(focus).wf(),
        model.clear_focus().wf(),
        model.set_active_workspace(id).wf(),
        model.update_window_layout(id, layout).wf(),
        model.upsert_window(window).wf(),
{
    lemma_windows_by_id_filed(windows);
    lemma_workspaces_by_id_filed(workspaces);
}

/// Closing a window that the model does not hold, or giving it a new layout,
/// leaves the model as it is.
pub proof fn lemma_unknown_window_changes_nothing(model: NiriView, id: u64, layout: WindowLayout)
    requires
        !model.windows.contains_key(id),
    ensures
        model.remove_window(id) == model,
        model.update_window_layout(id, layout) == model,
{
    assert(model.windows.remove(id) =~= model.windows);
}

/// Taking in the same window twice leaves the model as taking it in once.
pub proof fn lemma_upsert_idempotent(model: NiriView, window: NiriWindowView)
    ensures
        model.upsert_window(window).upsert_window(window) == model.upsert_window(window),
{
    let once = model.upsert_window(window);
    let twice = once.upsert_window(window);
    assert(twice.windows =~= once.windows);
}

/// After a change of focus at most one window is focused, whatever was
/// focused before.
pub proof fn lemma_set_focus_single(model: NiriView, id: Option<u64>)
    requires
        model.wf(),
    ensures
        model.set_focus(id).single_focus(),
{
}

/// Taking in a window keeps it true that at most one window is focused; a
/// focused window makes it true.
pub proof fn lemma_upsert_single_focus(model: NiriView, window: NiriWindowView)
    requires
        model.single_focus() || window.is_focused,
    ensures
        model.upsert_window(window).single_focus(),
{
}

/// The transitions that set no focus flag keep it true that at most one
/// window is focused.
pub proof fn lemma_others_keep_single_focus(
    model: NiriView,
    workspaces: Seq<WorkspaceView>,
    id: u64,
    layout: WindowLayout,
)
    requires
        model.single_focus(),
    ensures
        model.replace_workspaces(workspaces).single_focus(),
        model.remove_window(id).single_focus(),
        model.set_active_workspace(id).single_focus(),
        model.update_window_layout(id, layout).single_focus(),
{
}

/// The keys by which the entries of a snapshot are ordered.
pub open spec fn snapshot_keys(model: NiriView, snapshot: Seq<WindowView>) -> Seq<SortKey> {
    Seq::new(snapshot.len(), |i: int| model.sort_key(snapshot[i].window.id))
}

/// A model has one snapshot only.
pub proof fn lemma_snapshot_unique(
    model: NiriView,
    only_current_workspace: bool,
    a: Seq<WindowView>,
    b: Seq<WindowView>,
)
    requires
        model.wf(),
        model.is_snapshot(only_current_workspace, a),
        model.is_snapshot(only_current_workspace, b),
    ensures
        a == b,
{
    let ka = snapshot_keys(model, a);
    let kb = snapshot_keys(model, b);
    assert(strictly_ordered(ka)) by {
        assert forall|i: int, j: int| 0 <= i < j < ka.len() implies (#[trigger] ka[i]).precedes(
            #[trigger] ka[j],
        ) by {
            assert(model.sort_key(a[i].window.id).precedes(model.sort_key(a[j].window.id)));
        }
    }
    assert(strictly_ordered(kb)) by {
        assert forall|i: int, j: int| 0 <= i < j < kb.len() implies (#[trigger] kb[i]).precedes(
            #[trigger] kb[j],
        ) by {
            assert(model.sort_key(b[i].window.id).precedes(model.sort_key(b[j].window.id)));
        }
    }
    assert forall|k: SortKey| ka.contains(k) <==> kb.contains(k) by {
        if ka.contains(k) {
            let i = choose|i: int| 0 <= i < ka.len() && ka[i] == k;
            let id = a[i].window.id;
            assert(model.shows(id, only_current_workspace));
            let j = choose|j: int| 0 <= j < b.len() && (#[trigger] b[j]).window.id == id;
            assert(kb[j] == k);
        }
        if kb.contains(k) {
            let i = choose|i: int| 0 <= i < kb.len() && kb[i] == k;
            let id = b[i].window.id;
            assert(model.shows(id, only_current_workspace));
            let j = choose|j: int| 0 <= j < a.len() && (#[trigger] a[j]).window.id == id;
            assert(ka[j] == k);
        }
    }
    lemma_strictly_ordered_unique(ka, kb);
    assert(a.len() == b.len());
    assert forall|i: int| 0 <= i < a.len() implies a[i] == b[i] by {
        assert(ka[i] == kb[i]);
        assert(model.shows(a[i].window.id, only_current_workspace));
        assert(model.shows(b[i].window.id, only_current_workspace));
        assert(model.sort_key(a[i].window.id).id == a[i].window.id);
        assert(model.sort_key(b[i].window.id).id == b[i].window.id);
    }
    assert(a =~= b);
}

/// A snapshot holds a window if and only if some window has a place in it.
pub proof fn lemma_snapshot_nonempty(
    model: NiriView,
    only_current_workspace: bool,
    snapshot: Seq<WindowView>,
)
    requires
        model.is_snapshot(only_current_workspace, snapshot),
    ensures
        snapshot.len() > 0 <==> exists|id: u64| model.shows(id, only_current_workspace),
{
    if snapshot.len() > 0 {
        assert(model.shows(snapshot[0].window.id, only_current_workspace));
    }
    if exists|id: u64| model.shows(id, only_current_workspace) {
        let id = choose|id: u64| model.shows(id, only_current_workspace);
        assert(model.shows(id, only_current_workspace));
    }
}

/// The order of a snapshot is total: of two of its entries exactly one
/// precedes the other, and it is the one that comes first. No two entries
/// are of one window.
pub proof fn lemma_snapshot_order_total(
    model: NiriView,
    only_current_workspace: bool,
    snapshot: Seq<WindowView>,
    i: int,
    j: int,
)
    requires
        model.wf(),
        model.is_snapshot(only_current_workspace, snapshot),
        0 <= i < snapshot.len(),
        0 <= j < snapshot.len(),
        i != j,
    ensures
        snapshot[i].window.id != snapshot[j].window.id,
        model.sort_key(snapshot[i].window.id).precedes(model.sort_key(snapshot[j].window.id))
            != model.sort_key(snapshot[j].window.id).precedes(
            model.sort_key(snapshot[i].window.id),
        ),
        model.sort_key(snapshot[i].window.id).precedes(model.sort_key(snapshot[j].window.id))
            <==> i < j,
{
    let ki = model.sort_key(snapshot[i].window.id);
    let kj = model.sort_key(snapshot[j].window.id);
    assert(model.shows(snapshot[i].window.id, only_current_workspace));
    assert(model.shows(snapshot[j].window.id, only_current_workspace));
    lemma_precedes_asymmetric(ki, kj);
    if i < j {
        assert(ki.precedes(kj));
    } else {
        assert(kj.precedes(ki));
    }
}

/// A snapshot of the active workspaces holds no window of another workspace.
pub proof fn lemma_snapshot_of_current_workspaces(model: NiriView, snapshot: Seq<WindowView>, i: int)
    requires
        model.is_snapshot(true, snapshot),
        0 <= i < snapshot.len(),
    ensures
        model.workspace_of(snapshot[i].window.id).is_active,
{
    assert(model.shows(snapshot[i].window.id, true));
}

/// A snapshot of all workspaces holds every window that is on a known
/// workspace, whether the workspace is active or not.
pub proof fn lemma_snapshot_of_all_workspaces(model: NiriView, snapshot: Seq<WindowView>, id: u64)
    requires
        model.is_snapshot(false, snapshot),
        model.windows.contains_key(id),
        model.windows[id].workspace_id is Some,
        model.workspaces.contains_key(model.windows[id].workspace_id->0),
    ensures
        exists|i: int| 0 <= i < snapshot.len() && (#[trigger] snapshot[i]).window.id == id,
{
    assert(model.shows(id, false));
}

} // verus!
