//! What holds of the window set over a stream of events.
use crate::model::{windows_by_id, NiriView};
use crate::snapshot_laws::{
    lemma_from_lists_wf, lemma_set_focus_single, lemma_snapshot_nonempty,
    lemma_transitions_keep_wf, lemma_upsert_idempotent,
};
use crate::window::{NiriWindowView, WindowLayout, WindowView};
use crate::window_set::{apply_layouts, NiriEventView, WindowSetView};
use vstd::prelude::*;

verus! {

/// Whether the model of a window set, if it has one yet, is well formed.
pub open spec fn set_wf(set: WindowSetView) -> bool {
    set matches WindowSetView::Ready(model) ==> model.wf()
}

/// Whether at most one of the windows is focused.
pub open spec fn single_focus(windows: Map<u64, NiriWindowView>) -> bool {
    (NiriView { windows, workspaces: Map::empty() }).single_focus()
}

/// Whether at most one window is focused, among the windows that the set
/// has received.
pub open spec fn set_single_focus(set: WindowSetView) -> bool {
    match set {
        WindowSetView::Ready(model) => model.single_focus(),
        WindowSetView::WindowsOnly(windows) => single_focus(windows_by_id(windows)),
        _ => true,
    }
}

/// Whether an event that replaces all windows brings at most one focused
/// window. Every other event does.
pub open spec fn brings_single_focus(event: NiriEventView) -> bool {
    event matches NiriEventView::WindowsChanged { windows } ==> single_focus(
        windows_by_id(windows),
    )
}

/// Changes of layout keep a well-formed model well formed, and keep it true
/// that at most one window is focused.
pub proof fn lemma_apply_layouts_keeps(model: NiriView, changes: Seq<(u64, WindowLayout)>)
    ensures
        model.wf() ==> apply_layouts(model, changes).wf(),
        model.single_focus() ==> apply_layouts(model, changes).single_focus(),
    decreases changes.len(),
{
    if changes.len() > 0 {
        lemma_apply_layouts_keeps(model, changes.drop_last());
        let before = apply_layouts(model, changes.drop_last());
        if before.wf() {
            lemma_transitions_keep_wf(
                before,
                Seq::empty(),
                Seq::empty(),
                arbitrary(),
                changes.last().0,
                None,
                changes.last().1,
            );
        }
    }
}

/// An event keeps the model of a window set well formed, and the first model
/// is well formed.
pub proof fn lemma_step_keeps_wf(set: WindowSetView, event: NiriEventView)
    requires
        set_wf(set),
    ensures
        set_wf(set.step(event)),
{
    match set {
        WindowSetView::Ready(model) => {
            match event {
                NiriEventView::WindowsChanged { windows } => {
                    lemma_transitions_keep_wf(
                        model,
                        windows,
                        Seq::empty(),
                        arbitrary(),
                        0,
                        None,
                        arbitrary(),
                    );
                },
                NiriEventView::WorkspacesChanged { workspaces } => {
                    lemma_transitions_keep_wf(
                        model,
                        Seq::empty(),
                        workspaces,
                        arbitrary(),
                        0,
                        None,
                        arbitrary(),
                    );
                },
                NiriEventView::WindowClosed { id } => {
                    lemma_transitions_keep_wf(
                        model,
                        Seq::empty(),
                        Seq::empty(),
                        arbitrary(),
                        id,
                        None,
                        arbitrary(),
                    );
                },
                NiriEventView::WindowOpenedOrChanged { window } => {
                    lemma_transitions_keep_wf(
                        model,
                        Seq::empty(),
                        Seq::empty(),
                        window,
                        0,
                        None,
                        arbitrary(),
                    );
                },
                NiriEventView::WindowFocusChanged { id } => {
                    lemma_transitions_keep_wf(
                        model,
                        Seq::empty(),
                        Seq::empty(),
                        arbitrary(),
                        0,
                        id,
                        arbitrary(),
                    );
                },
                NiriEventView::WorkspaceActivated { id } => {
                    lemma_transitions_keep_wf(
                        model,
                        Seq::empty(),
                        Seq::empty(),
                        arbitrary(),
                        id,
                        None,
                        arbitrary(),
                    );
                },
                NiriEventView::WindowLayoutsChanged { changes } => {
                    lemma_apply_layouts_keeps(model, changes);
                },
                NiriEventView::Other => {},
            }
        },
        WindowSetView::WindowsOnly(windows) => {
            if let NiriEventView::WorkspacesChanged { workspaces } = event {
                lemma_from_lists_wf(windows, workspaces);
            }
        },
        WindowSetView::WorkspacesOnly(workspaces) => {
            if let NiriEventView::WindowsChanged { windows } = event {
                lemma_from_lists_wf(windows, workspaces);
            }
        },
        WindowSetView::Uninitialised => {},
    }
}

/// After any events, the model of a window set that began with nothing is
/// well formed.
pub proof fn lemma_run_wf(events: Seq<NiriEventView>)
    ensures
        set_wf(WindowSetView::Uninitialised.run(events)),
    decreases events.len(),
{
    if events.len() > 0 {
        lemma_run_wf(events.drop_last());
        lemma_step_keeps_wf(WindowSetView::Uninitialised.run(events.drop_last()), events.last());
    }
}

/// Until the windows and the workspaces were both received, an event that
/// brings neither is dropped: the window set stays as it is.
pub proof fn lemma_early_events_are_dropped(set: WindowSetView, event: NiriEventView)
    requires
        !(set is Ready),
        !(event is WindowsChanged),
        !(event is WorkspacesChanged),
    ensures
        set.step(event) == set,
        !set.expects(event),
{
}

/// A window set that is ready stays ready.
pub proof fn lemma_ready_stays_ready(set: WindowSetView, events: Seq<NiriEventView>)
    requires
        set is Ready,
    ensures
        set.run(events) is Ready,
    decreases events.len(),
{
    if events.len() > 0 {
        lemma_ready_stays_ready(set, events.drop_last());
    }
}

/// What a window set that began with nothing has received after `events`: the
/// windows, once an event has brought them, and the workspaces likewise.
pub proof fn lemma_run_state(events: Seq<NiriEventView>)
    ensures
        ({
            let set = WindowSetView::Uninitialised.run(events);
            let windows = exists|i: int| 0 <= i < events.len() && events[i] is WindowsChanged;
            let workspaces = exists|i: int| 0 <= i < events.len() && events[i] is WorkspacesChanged;
            &&& set is Ready <==> windows && workspaces
            &&& set is WindowsOnly <==> windows && !workspaces
            &&& set is WorkspacesOnly <==> !windows && workspaces
            &&& set is Uninitialised <==> !windows && !workspaces
        }),
    decreases events.len(),
{
    if events.len() > 0 {
        let front = events.drop_last();
        lemma_run_state(front);
        let n = events.len() - 1;
        if exists|i: int| 0 <= i < front.len() && front[i] is WindowsChanged {
            let i = choose|i: int| 0 <= i < front.len() && front[i] is WindowsChanged;
            assert(events[i] is WindowsChanged);
        }
        if exists|i: int| 0 <= i < front.len() && front[i] is WorkspacesChanged {
            let i = choose|i: int| 0 <= i < front.len() && front[i] is WorkspacesChanged;
            assert(events[i] is WorkspacesChanged);
        }
        if exists|i: int| 0 <= i < events.len() && events[i] is WindowsChanged {
            let i = choose|i: int| 0 <= i < events.len() && events[i] is WindowsChanged;
            if i < n {
                assert(front[i] is WindowsChanged);
            }
        }
        if exists|i: int| 0 <= i < events.len() && events[i] is WorkspacesChanged {
            let i = choose|i: int| 0 <= i < events.len() && events[i] is WorkspacesChanged;
            if i < n {
                assert(front[i] is WorkspacesChanged);
            }
        }
        if events[n] is WindowsChanged {
            assert(exists|i: int| 0 <= i < events.len() && events[i] is WindowsChanged);
        }
        if events[n] is WorkspacesChanged {
            assert(exists|i: int| 0 <= i < events.len() && events[i] is WorkspacesChanged);
        }
    }
}

/// Once an event has brought the windows and one the workspaces, in either
/// order, the window set is ready, whatever other events came with them.
pub proof fn lemma_ready_after_both(events: Seq<NiriEventView>, i: int, j: int)
    requires
        0 <= i < events.len() && events[i] is WindowsChanged,
        0 <= j < events.len() && events[j] is WorkspacesChanged,
    ensures
        WindowSetView::Uninitialised.run(events) is Ready,
{
    lemma_run_state(events);
}

/// The snapshot that a ready window set hands out holds a window if and only
/// if some window is on a known workspace, and on an active one if only
/// those are asked for.
pub proof fn lemma_ready_snapshot_nonempty(
    set: WindowSetView,
    only_current_workspace: bool,
    snapshot: Seq<WindowView>,
)
    requires
        set matches WindowSetView::Ready(model) && model.is_snapshot(
            only_current_workspace,
            snapshot,
        ),
    ensures
        snapshot.len() > 0 <==> exists|id: u64| (set->Ready_0).shows(id, only_current_workspace),
{
    lemma_snapshot_nonempty(set->Ready_0, only_current_workspace, snapshot);
}

/// Taking in the same window twice in a row leaves the window set as taking
/// it in once.
pub proof fn lemma_upsert_twice(set: WindowSetView, window: NiriWindowView)
    ensures
        ({
            let event = NiriEventView::WindowOpenedOrChanged { window };
            set.step(event).step(event) == set.step(event)
        }),
{
    if let WindowSetView::Ready(model) = set {
        lemma_upsert_idempotent(model, window);
    }
}

/// An event keeps it true that at most one window is focused, if it does not
/// itself bring several focused windows.
pub proof fn lemma_step_keeps_single_focus(set: WindowSetView, event: NiriEventView)
    requires
        set_wf(set),
        set_single_focus(set),
        brings_single_focus(event),
    ensures
        set_single_focus(set.step(event)),
{
    match set {
        WindowSetView::Ready(model) => {
            match event {
                NiriEventView::WindowFocusChanged { id } => {
                    lemma_set_focus_single(model, id);
                },
                NiriEventView::WindowLayoutsChanged { changes } => {
                    lemma_apply_layouts_keeps(model, changes);
                },
                _ => {},
            }
        },
        _ => {},
    }
}

/// After any events of which none brings several focused windows, at most
/// one window is focused.
pub proof fn lemma_run_single_focus(events: Seq<NiriEventView>)
    requires
        forall|i: int| 0 <= i < events.len() ==> brings_single_focus(#[trigger] events[i]),
    ensures
        set_single_focus(WindowSetView::Uninitialised.run(events)),
    decreases events.len(),
{
    if events.len() > 0 {
        let front = events.drop_last();
        assert forall|i: int| 0 <= i < front.len() implies brings_single_focus(
            #[trigger] front[i],
        ) by {
            assert(front[i] == events[i]);
        }
        lemma_run_single_focus(front);
        lemma_run_wf(front);
        lemma_step_keeps_single_focus(WindowSetView::Uninitialised.run(front), events.last());
    }
}

} // verus!
