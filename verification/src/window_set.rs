//! The window set: the state machine that takes in the compositor's events
//! and hands out a snapshot once it has seen both the windows and the
//! workspaces.
use crate::model::{window_views, workspace_views, Niri, NiriView};
use crate::window::{
    snapshot_view, NiriWindow, NiriWindowView, Snapshot, WindowLayout, Workspace, WorkspaceView,
};
use vstd::prelude::*;

verus! {

/// An event of the compositor's event stream.
#[derive(Debug)]
#[allow(inconsistent_fields)]
pub enum NiriEvent {
    /// All windows, replacing whatever was known of windows.
    WindowsChanged { windows: Vec<NiriWindow> },
    /// All workspaces, replacing whatever was known of workspaces.
    WorkspacesChanged { workspaces: Vec<Workspace> },
    WindowClosed { id: u64 },
    WindowOpenedOrChanged { window: NiriWindow },
    /// The window that now holds the focus, if any does.
    WindowFocusChanged { id: Option<u64> },
    WorkspaceActivated { id: u64 },
    /// New layouts, each with the identifier of its window.
    WindowLayoutsChanged { changes: Vec<(u64, WindowLayout)> },
    /// Any event that says nothing of windows or workspaces.
    Other,
}

/// The mathematical value of a [`NiriEvent`].
#[allow(inconsistent_fields)]
pub enum NiriEventView {
    WindowsChanged { windows: Seq<NiriWindowView> },
    WorkspacesChanged { workspaces: Seq<WorkspaceView> },
    WindowClosed { id: u64 },
    WindowOpenedOrChanged { window: NiriWindowView },
    WindowFocusChanged { id: Option<u64> },
    WorkspaceActivated { id: u64 },
    WindowLayoutsChanged { changes: Seq<(u64, WindowLayout)> },
    Other,
}

impl View for NiriEvent {
    type V = NiriEventView;

    open spec fn view(&self) -> NiriEventView {
        match *self {
            NiriEvent::WindowsChanged { windows } => NiriEventView::WindowsChanged {
                windows: window_views(windows@),
            },
            NiriEvent::WorkspacesChanged { workspaces } => NiriEventView::WorkspacesChanged {
                workspaces: workspace_views(workspaces@),
            },
            NiriEvent::WindowClosed { id } => NiriEventView::WindowClosed { id },
            NiriEvent::WindowOpenedOrChanged { window } => NiriEventView::WindowOpenedOrChanged {
                window: window@,
            },
            NiriEvent::WindowFocusChanged { id } => NiriEventView::WindowFocusChanged { id },
            NiriEvent::WorkspaceActivated { id } => NiriEventView::WorkspaceActivated { id },
            NiriEvent::WindowLayoutsChanged { changes } => NiriEventView::WindowLayoutsChanged {
                changes: changes@,
            },
            NiriEvent::Other => NiriEventView::Other,
        }
    }
}

/// The model after the layout changes of `changes` are made one after the
/// other.
pub open spec fn apply_layouts(model: NiriView, changes: Seq<(u64, WindowLayout)>) -> NiriView
    decreases changes.len(),
{
    if changes.len() == 0 {
        model
    } else {
        apply_layouts(model, changes.drop_last()).update_window_layout(
            changes.last().0,
            changes.last().1,
        )
    }
}

/// The mathematical value of a [`WindowSet`].
pub enum WindowSetView {
    /// Nothing was received yet.
    Uninitialised,
    /// The windows were received, the workspaces are awaited.
    WindowsOnly(Seq<NiriWindowView>),
    /// The workspaces were received, the windows are awaited.
    WorkspacesOnly(Seq<WorkspaceView>),
    /// Windows and workspaces were received.
    Ready(NiriView),
}

impl WindowSetView {
    /// The window set after `event`. Until windows and workspaces have both
    /// been received, every other event is dropped.
    pub open spec fn step(self, event: NiriEventView) -> WindowSetView {
        match event {
            NiriEventView::WindowsChanged { windows } => match self {
                WindowSetView::WorkspacesOnly(workspaces) => WindowSetView::Ready(
                    NiriView::from_lists(windows, workspaces),
                ),
                WindowSetView::WindowsOnly(_) | WindowSetView::Uninitialised => {
                    WindowSetView::WindowsOnly(windows)
                },
                WindowSetView::Ready(model) => WindowSetView::Ready(model.replace_windows(windows)),
            },
            NiriEventView::WorkspacesChanged { workspaces } => match self {
                WindowSetView::WindowsOnly(windows) => WindowSetView::Ready(
                    NiriView::from_lists(windows, workspaces),
                ),
                WindowSetView::WorkspacesOnly(_) | WindowSetView::Uninitialised => {
                    WindowSetView::WorkspacesOnly(workspaces)
                },
                WindowSetView::Ready(model) => WindowSetView::Ready(
                    model.replace_workspaces(workspaces),
                ),
            },
            _ => match self {
                WindowSetView::Ready(model) => WindowSetView::Ready(
                    match event {
                        NiriEventView::WindowClosed { id } => model.remove_window(id),
                        NiriEventView::WindowOpenedOrChanged { window } => model.upsert_window(
                            window,
                        ),
                        NiriEventView::WindowFocusChanged { id } => model.set_focus(id),
                        NiriEventView::WorkspaceActivated { id } => model.set_active_workspace(id),
                        NiriEventView::WindowLayoutsChanged { changes } => apply_layouts(
                            model,
                            changes,
                        ),
                        _ => model,
                    },
                ),
                _ => self,
            },
        }
    }

    /// What the window set has received, in words.
    pub open spec fn description(self) -> Seq<char> {
        match self {
            WindowSetView::Ready(_) => "ready"@,
            WindowSetView::WindowsOnly(_) => "windows only"@,
            WindowSetView::WorkspacesOnly(_) => "workspaces only"@,
            WindowSetView::Uninitialised => "uninitialised"@,
        }
    }

    /// The window set after the events of `events`, one after the other.
    pub open spec fn run(self, events: Seq<NiriEventView>) -> WindowSetView
        decreases events.len(),
    {
        if events.len() == 0 {
            self
        } else {
            self.run(events.drop_last()).step(events.last())
        }
    }

    /// Whether `event` is one that the compositor may send in this state: any
    /// event that replaces all windows or all workspaces, and any other event
    /// once both were received, but a new layout only for windows that are
    /// known.
    pub open spec fn expects(self, event: NiriEventView) -> bool {
        match event {
            NiriEventView::WindowsChanged { .. } | NiriEventView::WorkspacesChanged { .. } => true,
            NiriEventView::WindowLayoutsChanged { changes } => match self {
                WindowSetView::Ready(model) => forall|i: int|
                    0 <= i < changes.len() ==> model.windows.contains_key(
                        (#[trigger] changes[i]).0,
                    ),
                _ => false,
            },
            _ => self is Ready,
        }
    }
}

/// What was received so far.
#[derive(Debug)]
enum Inner {
    WindowsOnly(Vec<NiriWindow>),
    WorkspacesOnly(Vec<Workspace>),
    Ready(Niri),
}

/// The toplevel windows of the compositor, kept up to date by its events.
#[derive(Debug)]
pub struct WindowSet(Option<Inner>);

impl View for WindowSet {
    type V = WindowSetView;

    closed spec fn view(&self) -> WindowSetView {
        match self.0 {
            None => WindowSetView::Uninitialised,
            Some(Inner::WindowsOnly(windows)) => WindowSetView::WindowsOnly(window_views(windows@)),
            Some(Inner::WorkspacesOnly(workspaces)) => WindowSetView::WorkspacesOnly(
                workspace_views(workspaces@),
            ),
            Some(Inner::Ready(niri)) => WindowSetView::Ready(niri@),
        }
    }
}

impl WindowSet {
    /// A window set that has received nothing.
    pub fn new() -> (set: WindowSet)
        ensures
            set@ is Uninitialised,
    {
        WindowSet(None)
    }

    /// Whether windows and workspaces were both received.
    pub fn is_ready(&self) -> (ready: bool)
        ensures
            ready == (self@ is Ready),
    {
        match &self.0 {
            Some(Inner::Ready(_)) => true,
            _ => false,
        }
    }

    /// What the window set has received, in words.
    pub fn describe(&self) -> (text: &'static str)
        ensures
            text@ == self@.description(),
    {
        match &self.0 {
            Some(Inner::Ready(_)) => "ready",
            Some(Inner::WindowsOnly(_)) => "windows only",
            Some(Inner::WorkspacesOnly(_)) => "workspaces only",
            None => "uninitialised",
        }
    }

    /// Whether `event` is one that the compositor may send in this state. The
    /// window set takes in every event; one that it does not expect changes
    /// nothing, or nothing for the windows that it does not know.
    #[verifier::loop_isolation(false)]
    pub fn expects(&self, event: &NiriEvent) -> (expected: bool)
        ensures
            expected == self@.expects(event@),
    {
        match event {
            NiriEvent::WindowsChanged { .. } | NiriEvent::WorkspacesChanged { .. } => true,
            NiriEvent::WindowLayoutsChanged { changes } => {
                match &self.0 {
                    Some(Inner::Ready(state)) => {
                        let mut n: usize = 0;
                        while n < changes.len()
                            invariant
                                n <= changes.len(),
                                forall|i: int|
                                    0 <= i < n ==> state@.windows.contains_key(
                                        (#[trigger] changes@[i]).0,
                                    ),
                            decreases changes.len() - n,
                        {
                            if !state.has_window(changes[n].0) {
                                proof {
                                    let unknown = NiriEventView::WindowLayoutsChanged {
                                        changes: changes@,
                                    };
                                    assert(!state@.windows.contains_key(
                                        (unknown->changes)[n as int].0,
                                    ));
                                    assert(!WindowSetView::Ready(state@).expects(unknown));
                                }
                                return false;
                            }
                            n += 1;
                        }
                        true
                    },
                    _ => false,
                }
            },
            _ => self.is_ready(),
        }
    }

    /// Takes in `event` and returns the snapshot of the windows as they are
    /// after it, once windows and workspaces were both received.
    pub fn with_event(&mut self, event: NiriEvent, only_current_workspace: bool) -> (snapshot:
        Option<Snapshot>)
        ensures
            final(self)@ == old(self)@.step(event@),
            match snapshot {
                Some(snapshot) => final(self)@ matches WindowSetView::Ready(model)
                    && model.is_snapshot(only_current_workspace, snapshot_view(snapshot@)),
                None => !(final(self)@ is Ready),
            },
    {
        match event {
            NiriEvent::WindowsChanged { windows } => match self.0.take() {
                Some(Inner::WorkspacesOnly(workspaces)) => {
                    self.0 = Some(Inner::Ready(Niri::new(windows, workspaces)));
                },
                Some(Inner::WindowsOnly(_)) | None => {
                    self.0 = Some(Inner::WindowsOnly(windows));
                },
                Some(Inner::Ready(mut state)) => {
                    state.replace_windows(windows);
                    self.0 = Some(Inner::Ready(state));
                },
            },
            NiriEvent::WorkspacesChanged { workspaces } => match self.0.take() {
                Some(Inner::WindowsOnly(windows)) => {
                    self.0 = Some(Inner::Ready(Niri::new(windows, workspaces)));
                },
                Some(Inner::WorkspacesOnly(_)) | None => {
                    self.0 = Some(Inner::WorkspacesOnly(workspaces));
                },
                Some(Inner::Ready(mut state)) => {
                    state.replace_workspaces(workspaces);
                    self.0 = Some(Inner::Ready(state));
                },
            },
            NiriEvent::WindowClosed { id } => {
                if let Some(Inner::Ready(state)) = &mut self.0 {
                    state.remove_window(id);
                }
            },
            NiriEvent::WindowOpenedOrChanged { window } => {
                if let Some(Inner::Ready(state)) = &mut self.0 {
                    state.upsert_window(window);
                }
            },
            NiriEvent::WindowFocusChanged { id } => {
                if let Some(Inner::Ready(state)) = &mut self.0 {
                    state.set_focus(id);
                }
            },
            NiriEvent::WorkspaceActivated { id } => {
                if let Some(Inner::Ready(state)) = &mut self.0 {
                    state.set_active_workspace(id);
                }
            },
            NiriEvent::WindowLayoutsChanged { changes } => {
                if let Some(Inner::Ready(state)) = &mut self.0 {
                    let ghost all = changes@;
                    let ghost before = state@;
                    for change in it: changes
                        invariant
                            it.seq() == all,
                            state@ == apply_layouts(before, all.take(it.index())),
                    {
                        assert(all.take(it.index() + 1).drop_last() =~= all.take(it.index()));
                        state.update_window_layout(change.0, change.1);
                    }
                    assert(all.take(all.len() as int) == all);
                }
            },
            NiriEvent::Other => {},
        }
        if let Some(Inner::Ready(state)) = &self.0 {
            Some(state.snapshot(only_current_workspace))
        } else {
            None
        }
    }
}

} // verus!
