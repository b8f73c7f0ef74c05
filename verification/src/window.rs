//! Toplevel windows and workspaces as the compositor reports them, and the
//! entries of a snapshot.
use vstd::prelude::*;

verus! {

/// The characters of an optional string.
pub open spec fn text_of(s: Option<String>) -> Option<Seq<char>> {
    match s {
        Some(s) => Some(s@),
        None => None,
    }
}

/// Copies an optional string.
pub fn clone_text(s: &Option<String>) -> (copy: Option<String>)
    ensures
        copy == *s,
{
    match s {
        Some(s) => Some(s.clone()),
        None => None,
    }
}

/// Where a window sits in the scrolling layout.
#[derive(Debug)]
pub struct WindowLayout {
    /// Column index, then index within the column. Absent for windows outside
    /// the scrolling layout.
    pub pos_in_scrolling_layout: Option<(usize, usize)>,
}

impl Clone for WindowLayout {
    fn clone(&self) -> (copy: Self)
        ensures
            copy == *self,
    {
        WindowLayout { pos_in_scrolling_layout: self.pos_in_scrolling_layout }
    }
}

impl WindowLayout {
    /// The position that orders a window within its workspace: the reported
    /// one, or the origin where none is reported.
    pub open spec fn position(self) -> (usize, usize) {
        match self.pos_in_scrolling_layout {
            Some(pos) => pos,
            None => (0usize, 0usize),
        }
    }

    /// Computes [`WindowLayout::position`].
    pub fn pos(&self) -> (pos: (usize, usize))
        ensures
            pos == self.position(),
    {
        match self.pos_in_scrolling_layout {
            Some(pos) => pos,
            None => (0, 0),
        }
    }
}

/// A toplevel window as the compositor reports it.
#[derive(Debug)]
pub struct NiriWindow {
    /// Identifier, stable for as long as the window is open.
    pub id: u64,
    pub title: Option<String>,
    pub app_id: Option<String>,
    /// Process that created the window's connection, if known.
    pub pid: Option<i32>,
    pub workspace_id: Option<u64>,
    pub is_focused: bool,
    pub layout: WindowLayout,
}

/// The mathematical value of a [`NiriWindow`].
pub struct NiriWindowView {
    pub id: u64,
    pub title: Option<Seq<char>>,
    pub app_id: Option<Seq<char>>,
    pub pid: Option<i32>,
    pub workspace_id: Option<u64>,
    pub is_focused: bool,
    pub layout: WindowLayout,
}

impl NiriWindowView {
    /// The same window with its focus flag set to `focused`.
    pub open spec fn with_focus(self, focused: bool) -> NiriWindowView {
        NiriWindowView { is_focused: focused, ..self }
    }

    /// The same window with its layout replaced.
    pub open spec fn with_layout(self, layout: WindowLayout) -> NiriWindowView {
        NiriWindowView { layout, ..self }
    }
}

impl View for NiriWindow {
    type V = NiriWindowView;

    open spec fn view(&self) -> NiriWindowView {
        NiriWindowView {
            id: self.id,
            title: text_of(self.title),
            app_id: text_of(self.app_id),
            pid: self.pid,
            workspace_id: self.workspace_id,
            is_focused: self.is_focused,
            layout: self.layout,
        }
    }
}

impl Clone for NiriWindow {
    fn clone(&self) -> (copy: Self)
        ensures
            copy == *self,
    {
        NiriWindow {
            id: self.id,
            title: clone_text(&self.title),
            app_id: clone_text(&self.app_id),
            pid: self.pid,
            workspace_id: self.workspace_id,
            is_focused: self.is_focused,
            layout: self.layout.clone(),
        }
    }
}

/// A workspace as the compositor reports it.
#[derive(Debug)]
pub struct Workspace {
    pub id: u64,
    /// Position of the workspace on its output.
    pub idx: u8,
    /// Name of the output that shows the workspace, if any is connected.
    pub output: Option<String>,
    pub is_active: bool,
}

/// The mathematical value of a [`Workspace`].
pub struct WorkspaceView {
    pub id: u64,
    pub idx: u8,
    pub output: Option<Seq<char>>,
    pub is_active: bool,
}

impl WorkspaceView {
    /// The same workspace with its active flag set to `active`.
    pub open spec fn with_active(self, active: bool) -> WorkspaceView {
        WorkspaceView { is_active: active, ..self }
    }
}

impl View for Workspace {
    type V = WorkspaceView;

    open spec fn view(&self) -> WorkspaceView {
        WorkspaceView {
            id: self.id,
            idx: self.idx,
            output: text_of(self.output),
            is_active: self.is_active,
        }
    }
}

impl Clone for Workspace {
    fn clone(&self) -> (copy: Self)
        ensures
            copy == *self,
    {
        Workspace {
            id: self.id,
            idx: self.idx,
            output: clone_text(&self.output),
            is_active: self.is_active,
        }
    }
}

/// One entry of a snapshot: a window and the output that shows it.
#[derive(Debug)]
pub struct Window {
    window: NiriWindow,
    output: Option<String>,
}

/// The mathematical value of a [`Window`].
pub struct WindowView {
    pub window: NiriWindowView,
    pub output: Option<Seq<char>>,
}

impl View for Window {
    type V = WindowView;

    closed spec fn view(&self) -> WindowView {
        WindowView { window: self.window@, output: text_of(self.output) }
    }
}

impl Window {
    /// Pairs a window with the name of the output that shows it.
    pub fn new(window: NiriWindow, output: Option<String>) -> (entry: Window)
        ensures
            entry@ == (WindowView { window: window@, output: text_of(output) }),
    {
        Window { window, output }
    }

    /// The name of the output that shows the window, if it is known.
    pub fn output(&self) -> (name: Option<&str>)
        ensures
            match name {
                Some(name) => self@.output == Some(name@),
                None => self@.output is None,
            },
    {
        match &self.output {
            Some(name) => Some(name.as_str()),
            None => None,
        }
    }

    /// The window itself.
    pub fn window(&self) -> (window: &NiriWindow)
        ensures
            window@ == self@.window,
    {
        &self.window
    }
}

impl std::ops::Deref for Window {
    type Target = NiriWindow;

    fn deref(&self) -> (window: &NiriWindow)
        ensures
            window@ == self@.window,
    {
        &self.window
    }
}

impl Clone for Window {
    fn clone(&self) -> (copy: Self)
        ensures
            copy@ == self@,
    {
        Window { window: self.window.clone(), output: clone_text(&self.output) }
    }
}

/// The views of a sequence of snapshot entries.
pub open spec fn snapshot_view(s: Seq<Window>) -> Seq<WindowView> {
    s.map_values(|w: Window| w@)
}

/// A snapshot of the toplevel windows, in display order.
pub type Snapshot = Vec<Window>;

} // verus!
