//! The compositor's windows and workspaces, as far as the event stream lets
//! them be reconstructed, and the snapshot taken of them.
use crate::order::{lemma_precedes_total, lemma_precedes_transitive, strictly_ordered, SortKey};
use crate::window::{
    clone_text, snapshot_view, NiriWindow, NiriWindowView, Snapshot, Window, WindowLayout, WindowView, Workspace,
    WorkspaceView,
};
use std::collections::BTreeMap;
use vstd::prelude::*;
use vstd::std_specs::btree::spec_keys_iter;
use vstd::std_specs::iter::IteratorSpec;

verus! {

/// The windows of a list by identifier. Of two windows with one identifier the
/// later one stays.
pub open spec fn windows_by_id(list: Seq<NiriWindowView>) -> Map<u64, NiriWindowView>
    decreases list.len(),
{
    if list.len() == 0 {
        Map::empty()
    } else {
        windows_by_id(list.drop_last()).insert(list.last().id, list.last())
    }
}

/// The workspaces of a list by identifier. Of two workspaces with one
/// identifier the later one stays.
pub open spec fn workspaces_by_id(list: Seq<WorkspaceView>) -> Map<u64, WorkspaceView>
    decreases list.len(),
{
    if list.len() == 0 {
        Map::empty()
    } else {
        workspaces_by_id(list.drop_last()).insert(list.last().id, list.last())
    }
}

/// The views of a list of windows.
pub open spec fn window_views(list: Seq<NiriWindow>) -> Seq<NiriWindowView> {
    list.map_values(|w: NiriWindow| w@)
}

/// The views of a list of workspaces.
pub open spec fn workspace_views(list: Seq<Workspace>) -> Seq<WorkspaceView> {
    list.map_values(|w: Workspace| w@)
}

/// The mathematical value of a [`Niri`]: windows and workspaces by identifier.
pub struct NiriView {
    pub windows: Map<u64, NiriWindowView>,
    pub workspaces: Map<u64, WorkspaceView>,
}

impl NiriView {
    /// Every window and every workspace is filed under its own identifier.
    pub open spec fn wf(self) -> bool {
        &&& forall|id: u64| #[trigger] self.windows.contains_key(id) ==> self.windows[id].id == id
        &&& forall|id: u64| #[trigger]
            self.workspaces.contains_key(id) ==> self.workspaces[id].id == id
    }

    /// The model that holds the given windows and workspaces.
    pub open spec fn from_lists(
        windows: Seq<NiriWindowView>,
        workspaces: Seq<WorkspaceView>,
    ) -> NiriView {
        NiriView { windows: windows_by_id(windows), workspaces: workspaces_by_id(workspaces) }
    }

    /// The model after all windows are replaced by those of `windows`.
    pub open spec fn replace_windows(self, windows: Seq<NiriWindowView>) -> NiriView {
        NiriView { windows: windows_by_id(windows), ..self }
    }

    /// The model after all workspaces are replaced by those of `workspaces`.
    pub open spec fn replace_workspaces(self, workspaces: Seq<WorkspaceView>) -> NiriView {
        NiriView { workspaces: workspaces_by_id(workspaces), ..self }
    }

    /// The model without the window `id`.
    pub open spec fn remove_window(self, id: u64) -> NiriView {
        NiriView { windows: self.windows.remove(id), ..self }
    }

    /// The model in which the window `id`, if there is one, is the only
    /// focused window.
    pub open spec fn set_focus(self, id: Option<u64>) -> NiriView {
        NiriView {
            windows: self.windows.map_values(|w: NiriWindowView| w.with_focus(Some(w.id) == id)),
            ..self
        }
    }

    /// The model in which no window is focused.
    pub open spec fn clear_focus(self) -> NiriView {
        NiriView {
            windows: self.windows.map_values(|w: NiriWindowView| w.with_focus(false)),
            ..self
        }
    }

    /// The model in which the workspace `id`, if there is one, is the only
    /// active workspace.
    pub open spec fn set_active_workspace(self, id: u64) -> NiriView {
        NiriView {
            workspaces: self.workspaces.map_values(|w: WorkspaceView| w.with_active(w.id == id)),
            ..self
        }
    }

    /// The model after the layout of the window `id` is replaced. A model that
    /// has no such window stays as it is.
    pub open spec fn update_window_layout(self, id: u64, layout: WindowLayout) -> NiriView {
        if self.windows.contains_key(id) {
            NiriView { windows: self.windows.insert(id, self.windows[id].with_layout(layout)), ..self }
        } else {
            self
        }
    }

    /// The model after `window` is opened or replaces the window with its
    /// identifier. A focused `window` takes the focus from all other windows.
    pub open spec fn upsert_window(self, window: NiriWindowView) -> NiriView {
        let cleared = if window.is_focused {
            self.clear_focus()
        } else {
            self
        };
        NiriView { windows: cleared.windows.insert(window.id, window), ..cleared }
    }

    /// At most one window is focused.
    pub open spec fn single_focus(self) -> bool {
        forall|a: u64, b: u64|
            #![trigger self.windows[a], self.windows[b]]
            self.windows.contains_key(a) && self.windows.contains_key(b)
                && self.windows[a].is_focused && self.windows[b].is_focused ==> a == b
    }

    /// Whether the window `id` has a place in a snapshot: it is on a known
    /// workspace, and on an active one if only those are asked for.
    pub open spec fn shows(self, id: u64, only_current_workspace: bool) -> bool {
        &&& self.windows.contains_key(id)
        &&& self.windows[id].workspace_id matches Some(ws)
        &&& self.workspaces.contains_key(ws)
        &&& only_current_workspace ==> self.workspaces[ws].is_active
    }

    /// The workspace of the window `id`.
    pub open spec fn workspace_of(self, id: u64) -> WorkspaceView
        recommends
            self.shows(id, false),
    {
        self.workspaces[self.windows[id].workspace_id->0]
    }

    /// The snapshot entry of the window `id`.
    pub open spec fn entry(self, id: u64) -> WindowView
        recommends
            self.shows(id, false),
    {
        WindowView { window: self.windows[id], output: self.workspace_of(id).output }
    }

    /// What the window `id` is ordered by.
    pub open spec fn sort_key(self, id: u64) -> SortKey
        recommends
            self.shows(id, false),
    {
        let pos = self.windows[id].layout.position();
        SortKey {
            workspace_idx: self.workspace_of(id).idx,
            column: pos.0,
            row: pos.1,
            id: self.windows[id].id,
        }
    }

    /// Whether `snapshot` is the snapshot of this model: it holds the entry of
    /// each window that has a place in it, once, and nothing else, in display
    /// order.
    pub open spec fn is_snapshot(
        self,
        only_current_workspace: bool,
        snapshot: Seq<WindowView>,
    ) -> bool {
        &&& forall|i: int|
            0 <= i < snapshot.len() ==> {
                &&& self.shows((#[trigger] snapshot[i]).window.id, only_current_workspace)
                &&& snapshot[i] == self.entry(snapshot[i].window.id)
            }
        &&& forall|id: u64| #[trigger]
            self.shows(id, only_current_workspace) ==> exists|i: int|
                0 <= i < snapshot.len() && (#[trigger] snapshot[i]).window.id == id
        &&& forall|i: int, j: int|
            0 <= i < j < snapshot.len() ==> self.sort_key((#[trigger] snapshot[i]).window.id).precedes(
                self.sort_key((#[trigger] snapshot[j]).window.id),
            )
    }
}


/// The views of the windows of a map.
pub open spec fn window_map_view(m: Map<u64, NiriWindow>) -> Map<u64, NiriWindowView> {
    m.map_values(|w: NiriWindow| w@)
}

/// The views of the workspaces of a map.
pub open spec fn workspace_map_view(m: Map<u64, Workspace>) -> Map<u64, WorkspaceView> {
    m.map_values(|w: Workspace| w@)
}

/// The keys of a map, each once.
fn ids_of<V>(m: &BTreeMap<u64, V>) -> (ids: Vec<u64>)
    ensures
        ids@.no_duplicates(),
        forall|id: u64| ids@.contains(id) <==> m@.contains_key(id),
{
    let mut ids: Vec<u64> = Vec::new();
    for id in it: m.keys()
        invariant
            it.seq() == spec_keys_iter(m).remaining(),
            ids@ == it.seq().take(it.index() as int).map_values(|id: &u64| *id),
    {
        ids.push(*id);
    }
    proof {
        let r = spec_keys_iter(m).remaining();
        assert(r.take(r.len() as int) == r);
        assert(ids@ =~= r.unref());
        assert forall|i: int, j: int| 0 <= i < j < ids@.len() implies ids@[i] != ids@[j] by {
            assert(r[i] != r[j]);
        }
        assert forall|id: u64| ids@.contains(id) <==> m@.contains_key(id) by {
            assert(ids@.to_set().contains(id) <==> m@.dom().contains(id));
        }
    }
    ids
}

/// Files the windows of a list under their identifiers.
fn index_windows(list: Vec<NiriWindow>) -> (map: BTreeMap<u64, NiriWindow>)
    ensures
        window_map_view(map@) == windows_by_id(window_views(list@)),
        forall|id: u64| #[trigger] map@.contains_key(id) ==> map@[id].id == id,
{
    let mut map: BTreeMap<u64, NiriWindow> = BTreeMap::new();
    let ghost all = list@;
    assert(window_map_view(map@) =~= windows_by_id(window_views(all.take(0))));
    for window in it: list
        invariant
            it.seq() == all,
            window_map_view(map@) == windows_by_id(window_views(all.take(it.index()))),
            forall|id: u64| #[trigger] map@.contains_key(id) ==> map@[id].id == id,
    {
        proof {
            let done = window_views(all.take(it.index() + 1));
            assert(done.drop_last() =~= window_views(all.take(it.index())));
            assert(done.last() == window@);
            assert(window_map_view(map@.insert(window.id, window)) =~= window_map_view(
                map@,
            ).insert(window.id, window@));
        }
        map.insert(window.id, window);
    }
    assert(all.take(all.len() as int) == all);
    map
}

/// Files the workspaces of a list under their identifiers.
fn index_workspaces(list: Vec<Workspace>) -> (map: BTreeMap<u64, Workspace>)
    ensures
        workspace_map_view(map@) == workspaces_by_id(workspace_views(list@)),
        forall|id: u64| #[trigger] map@.contains_key(id) ==> map@[id].id == id,
{
    let mut map: BTreeMap<u64, Workspace> = BTreeMap::new();
    let ghost all = list@;
    assert(workspace_map_view(map@) =~= workspaces_by_id(workspace_views(all.take(0))));
    for workspace in it: list
        invariant
            it.seq() == all,
            workspace_map_view(map@) == workspaces_by_id(workspace_views(all.take(it.index()))),
            forall|id: u64| #[trigger] map@.contains_key(id) ==> map@[id].id == id,
    {
        proof {
            let done = workspace_views(all.take(it.index() + 1));
            assert(done.drop_last() =~= workspace_views(all.take(it.index())));
            assert(done.last() == workspace@);
            assert(workspace_map_view(map@.insert(workspace.id, workspace))
                =~= workspace_map_view(map@).insert(workspace.id, workspace@));
        }
        map.insert(workspace.id, workspace);
    }
    assert(all.take(all.len() as int) == all);
    map
}


/// Whether `id` names the window `window`.
fn names(id: Option<u64>, window: u64) -> (same: bool)
    ensures
        same == (Some(window) == id),
{
    match id {
        Some(id) => id == window,
        None => false,
    }
}

/// Sets the focus flag of the window `id`, if there is one, and clears that
/// of every other window.
fn focus_only(windows: &mut BTreeMap<u64, NiriWindow>, id: Option<u64>)
    ensures
        final(windows)@.dom() == old(windows)@.dom(),
        forall|k: u64| #[trigger]
            final(windows)@.contains_key(k) ==> final(windows)@[k] == (NiriWindow {
                is_focused: Some(old(windows)@[k].id) == id,
                ..old(windows)@[k]
            }),
{
    let ids = ids_of(windows);
    let ghost before = windows@;
    let mut i: usize = 0;
    while i < ids.len()
        invariant
            i <= ids.len(),
            ids@.no_duplicates(),
            forall|k: u64| ids@.contains(k) <==> before.contains_key(k),
            windows@.dom() == before.dom(),
            forall|j: int|
                0 <= j < i ==> windows@[#[trigger] ids@[j]] == (NiriWindow {
                    is_focused: Some(before[ids@[j]].id) == id,
                    ..before[ids@[j]]
                }),
            forall|j: int| i <= j < ids.len() ==> windows@[#[trigger] ids@[j]] == before[ids@[j]],
        decreases ids.len() - i,
    {
        let k = ids[i];
        assert(ids@.contains(ids@[i as int]));
        match windows.remove(&k) {
            Some(mut window) => {
                window.is_focused = names(id, window.id);
                windows.insert(k, window);
            },
            None => {},
        }
        assert(windows@.dom() =~= before.dom());
        i += 1;
    }
    assert forall|k: u64| #[trigger] windows@.contains_key(k) implies windows@[k] == (NiriWindow {
        is_focused: Some(before[k].id) == id,
        ..before[k]
    }) by {
        let j = choose|j: int| 0 <= j < ids@.len() && ids@[j] == k;
        assert(windows@[ids@[j]] == (NiriWindow {
            is_focused: Some(before[ids@[j]].id) == id,
            ..before[ids@[j]]
        }));
    }
}

/// Sets the active flag of the workspace `id`, if there is one, and clears
/// that of every other workspace.
fn activate_only(workspaces: &mut BTreeMap<u64, Workspace>, id: u64)
    ensures
        final(workspaces)@.dom() == old(workspaces)@.dom(),
        forall|k: u64| #[trigger]
            final(workspaces)@.contains_key(k) ==> final(workspaces)@[k] == (Workspace {
                is_active: old(workspaces)@[k].id == id,
                ..old(workspaces)@[k]
            }),
{
    let ids = ids_of(workspaces);
    let ghost before = workspaces@;
    let mut i: usize = 0;
    while i < ids.len()
        invariant
            i <= ids.len(),
            ids@.no_duplicates(),
            forall|k: u64| ids@.contains(k) <==> before.contains_key(k),
            workspaces@.dom() == before.dom(),
            forall|j: int|
                0 <= j < i ==> workspaces@[#[trigger] ids@[j]] == (Workspace {
                    is_active: before[ids@[j]].id == id,
                    ..before[ids@[j]]
                }),
            forall|j: int|
                i <= j < ids.len() ==> workspaces@[#[trigger] ids@[j]] == before[ids@[j]],
        decreases ids.len() - i,
    {
        let k = ids[i];
        assert(ids@.contains(ids@[i as int]));
        match workspaces.remove(&k) {
            Some(mut workspace) => {
                workspace.is_active = workspace.id == id;
                workspaces.insert(k, workspace);
            },
            None => {},
        }
        assert(workspaces@.dom() =~= before.dom());
        i += 1;
    }
    assert forall|k: u64| #[trigger] workspaces@.contains_key(k) implies workspaces@[k] == (
    Workspace { is_active: before[k].id == id, ..before[k] }) by {
        let j = choose|j: int| 0 <= j < ids@.len() && ids@[j] == k;
        assert(workspaces@[ids@[j]] == (Workspace {
            is_active: before[ids@[j]].id == id,
            ..before[ids@[j]]
        }));
    }
}


/// Puts `key` at its place among `keys`.
fn insert_ordered(keys: &mut Vec<SortKey>, key: SortKey)
    requires
        strictly_ordered(old(keys)@),
        forall|i: int| 0 <= i < old(keys)@.len() ==> (#[trigger] old(keys)@[i]).id != key.id,
    ensures
        strictly_ordered(final(keys)@),
        exists|at: int| 0 <= at <= old(keys)@.len() && final(keys)@ == old(keys)@.insert(at, key),
{
    // The place is found by halving: the keys before `low` precede `key`,
    // and `key` precedes those from `high` on.
    let mut low: usize = 0;
    let mut high: usize = keys.len();
    while low < high
        invariant
            low <= high <= keys.len(),
            keys@ == old(keys)@,
            strictly_ordered(keys@),
            forall|i: int| 0 <= i < keys@.len() ==> (#[trigger] keys@[i]).id != key.id,
            forall|i: int| 0 <= i < low ==> (#[trigger] keys@[i]).precedes(key),
            forall|i: int| high <= i < keys@.len() ==> key.precedes(#[trigger] keys@[i]),
        decreases high - low,
    {
        let middle: usize = low + (high - low) / 2;
        if keys[middle].before(&key) {
            assert forall|i: int| 0 <= i < middle + 1 implies (#[trigger] keys@[i]).precedes(
                key,
            ) by {
                if i < middle {
                    lemma_precedes_transitive(keys@[i], keys@[middle as int], key);
                }
            }
            low = middle + 1;
        } else {
            assert forall|i: int| middle <= i < keys@.len() implies key.precedes(
                #[trigger] keys@[i],
            ) by {
                lemma_precedes_total(key, keys@[middle as int]);
                if i > middle {
                    lemma_precedes_transitive(key, keys@[middle as int], keys@[i]);
                }
            }
            high = middle;
        }
    }
    proof {
        let after = keys@.insert(low as int, key);
        assert forall|i: int, j: int| 0 <= i < j < after.len() implies (#[trigger] after[i]).precedes(
            #[trigger] after[j],
        ) by {
            if i != low && j != low {
                let oi = if i < low { i } else { i - 1 };
                let oj = if j < low { j } else { j - 1 };
                assert(keys@[oi].precedes(keys@[oj]));
            } else if j == low {
                assert(keys@[i].precedes(key));
            } else {
                assert(key.precedes(keys@[j - 1]));
            }
        }
    }
    keys.insert(low, key);
}


/// The compositor's state, as far as it can be reconstructed from the events.
#[derive(Debug)]
pub struct Niri {
    windows: BTreeMap<u64, NiriWindow>,
    workspaces: BTreeMap<u64, Workspace>,
}

impl View for Niri {
    type V = NiriView;

    closed spec fn view(&self) -> NiriView {
        NiriView {
            windows: window_map_view(self.windows@),
            workspaces: workspace_map_view(self.workspaces@),
        }
    }
}

impl Niri {
    #[verifier::type_invariant]
    spec fn filed_by_id(self) -> bool {
        self@.wf()
    }

    /// Moves the windows out, leaving none behind.
    fn take_windows(&mut self) -> (windows: BTreeMap<u64, NiriWindow>)
        ensures
            windows == old(self).windows,
            final(self).windows@ == Map::<u64, NiriWindow>::empty(),
            final(self).workspaces == old(self).workspaces,
    {
        proof {
            use_type_invariant(&*self);
        }
        let mut windows: BTreeMap<u64, NiriWindow> = BTreeMap::new();
        core::mem::swap(&mut self.windows, &mut windows);
        windows
    }

    /// Moves the workspaces out, leaving none behind.
    fn take_workspaces(&mut self) -> (workspaces: BTreeMap<u64, Workspace>)
        ensures
            workspaces == old(self).workspaces,
            final(self).workspaces@ == Map::<u64, Workspace>::empty(),
            final(self).windows == old(self).windows,
    {
        proof {
            use_type_invariant(&*self);
        }
        let mut workspaces: BTreeMap<u64, Workspace> = BTreeMap::new();
        core::mem::swap(&mut self.workspaces, &mut workspaces);
        workspaces
    }

    /// The model that holds the given windows and workspaces.
    pub fn new(windows: Vec<NiriWindow>, workspaces: Vec<Workspace>) -> (niri: Niri)
        ensures
            niri@ == NiriView::from_lists(window_views(windows@), workspace_views(workspaces@)),
            niri@.wf(),
    {
        let workspaces = index_workspaces(workspaces);
        let windows = index_windows(windows);
        Niri { windows, workspaces }
    }

    /// Whether the model holds the window `id`.
    pub fn has_window(&self, id: u64) -> (known: bool)
        ensures
            known == self@.windows.contains_key(id),
    {
        self.windows.contains_key(&id)
    }

    /// Forgets the window `id`. Without such a window nothing changes.
    pub fn remove_window(&mut self, id: u64)
        ensures
            final(self)@ == old(self)@.remove_window(id),
            final(self)@.wf(),
    {
        proof {
            use_type_invariant(&*self);
        }
        let mut windows = self.take_windows();
        windows.remove(&id);
        assert(window_map_view(windows@) =~= window_map_view(old(self).windows@).remove(id));
        self.windows = windows;
    }

    /// Replaces all windows by those of `windows`.
    pub fn replace_windows(&mut self, windows: Vec<NiriWindow>)
        ensures
            final(self)@ == old(self)@.replace_windows(window_views(windows@)),
            final(self)@.wf(),
    {
        proof {
            use_type_invariant(&*self);
        }
        self.windows = index_windows(windows);
    }

    /// Replaces all workspaces by those of `workspaces`.
    pub fn replace_workspaces(&mut self, workspaces: Vec<Workspace>)
        ensures
            final(self)@ == old(self)@.replace_workspaces(workspace_views(workspaces@)),
            final(self)@.wf(),
    {
        proof {
            use_type_invariant(&*self);
        }
        self.workspaces = index_workspaces(workspaces);
    }

    /// Makes the window `id`, if there is one, the only focused window.
    pub fn set_focus(&mut self, id: Option<u64>)
        ensures
            final(self)@ == old(self)@.set_focus(id),
            final(self)@.wf(),
    {
        proof {
            use_type_invariant(&*self);
        }
        let mut windows = self.take_windows();
        focus_only(&mut windows, id);
        assert(window_map_view(windows@) =~= old(self)@.set_focus(id).windows);
        self.windows = windows;
    }

    /// Makes the workspace `id`, if there is one, the only active workspace.
    pub fn set_active_workspace(&mut self, id: u64)
        ensures
            final(self)@ == old(self)@.set_active_workspace(id),
            final(self)@.wf(),
    {
        proof {
            use_type_invariant(&*self);
        }
        let mut workspaces = self.take_workspaces();
        activate_only(&mut workspaces, id);
        assert(workspace_map_view(workspaces@) =~= old(self)@.set_active_workspace(id).workspaces);
        self.workspaces = workspaces;
    }

    /// Replaces the layout of the window `id` and says whether there is such
    /// a window. Without one nothing changes.
    pub fn update_window_layout(&mut self, window_id: u64, layout: WindowLayout) -> (known: bool)
        ensures
            final(self)@ == old(self)@.update_window_layout(window_id, layout),
            known == old(self)@.windows.contains_key(window_id),
            final(self)@.wf(),
    {
        proof {
            use_type_invariant(&*self);
        }
        let mut windows = self.take_windows();
        let known = match windows.remove(&window_id) {
            Some(mut window) => {
                window.layout = layout;
                windows.insert(window_id, window);
                true
            },
            None => false,
        };
        assert(window_map_view(windows@) =~= old(self)@.update_window_layout(
            window_id,
            layout,
        ).windows);
        self.windows = windows;
        known
    }

    /// Takes in a window that was opened or has changed. A focused window
    /// takes the focus from all other windows.
    pub fn upsert_window(&mut self, window: NiriWindow)
        ensures
            final(self)@ == old(self)@.upsert_window(window@),
            final(self)@.wf(),
    {
        proof {
            use_type_invariant(&*self);
        }
        let mut windows = self.take_windows();
        if window.is_focused {
            focus_only(&mut windows, None);
            assert(window_map_view(windows@) =~= old(self)@.clear_focus().windows);
        }
        let ghost cleared = windows@;
        windows.insert(window.id, window);
        assert(window_map_view(windows@) =~= window_map_view(cleared).insert(window.id, window@));
        self.windows = windows;
    }
}


impl Niri {
    /// What the window `id` is ordered by, if it has a place in a snapshot.
    fn place(&self, id: u64, only_current_workspace: bool) -> (key: Option<SortKey>)
        ensures
            match key {
                Some(key) => self@.shows(id, only_current_workspace) && key == self@.sort_key(id),
                None => !self@.shows(id, only_current_workspace),
            },
    {
        let window = match self.windows.get(&id) {
            Some(window) => window,
            None => { return None; },
        };
        let workspace_id = match window.workspace_id {
            Some(workspace_id) => workspace_id,
            None => { return None; },
        };
        let workspace = match self.workspaces.get(&workspace_id) {
            Some(workspace) => workspace,
            None => { return None; },
        };
        if only_current_workspace && !workspace.is_active {
            return None;
        }
        let pos = window.layout.pos();
        Some(SortKey { workspace_idx: workspace.idx, column: pos.0, row: pos.1, id: window.id })
    }

    /// The keys of the windows that have a place in a snapshot, in display
    /// order.
    fn ordered_keys(&self, only_current_workspace: bool) -> (keys: Vec<SortKey>)
        ensures
            strictly_ordered(keys@),
            forall|i: int|
                0 <= i < keys@.len() ==> {
                    &&& self@.shows((#[trigger] keys@[i]).id, only_current_workspace)
                    &&& keys@[i] == self@.sort_key(keys@[i].id)
                },
            forall|id: u64| #[trigger]
                self@.shows(id, only_current_workspace) ==> exists|i: int|
                    0 <= i < keys@.len() && (#[trigger] keys@[i]).id == id,
    {
        proof {
            use_type_invariant(self);
        }
        let ids = ids_of(&self.windows);
        let mut keys: Vec<SortKey> = Vec::new();
        let mut n: usize = 0;
        while n < ids.len()
            invariant
                n <= ids.len(),
                self@.wf(),
                ids@.no_duplicates(),
                forall|id: u64| ids@.contains(id) <==> self.windows@.contains_key(id),
                strictly_ordered(keys@),
                forall|i: int|
                    0 <= i < keys@.len() ==> {
                        &&& self@.shows((#[trigger] keys@[i]).id, only_current_workspace)
                        &&& keys@[i] == self@.sort_key(keys@[i].id)
                        &&& exists|j: int| 0 <= j < n && ids@[j] == keys@[i].id
                    },
                forall|j: int|
                    0 <= j < n && self@.shows(#[trigger] ids@[j], only_current_workspace)
                        ==> exists|i: int|
                        0 <= i < keys@.len() && (#[trigger] keys@[i]).id == ids@[j],
            decreases ids.len() - n,
        {
            let id = ids[n];
            match self.place(id, only_current_workspace) {
                Some(key) => {
                    let ghost before = keys@;
                    assert(key.id == id);
                    assert forall|i: int| 0 <= i < before.len() implies (#[trigger] before[i]).id
                        != key.id by {
                        let j = choose|j: int| 0 <= j < n && ids@[j] == before[i].id;
                        assert(ids@[j] != ids@[n as int]);
                    }
                    insert_ordered(&mut keys, key);
                    proof {
                        let at = choose|at: int|
                            0 <= at <= before.len() && keys@ == before.insert(at, key);
                        assert forall|i: int| 0 <= i < keys@.len() implies {
                            &&& self@.shows((#[trigger] keys@[i]).id, only_current_workspace)
                            &&& keys@[i] == self@.sort_key(keys@[i].id)
                            &&& exists|j: int| 0 <= j < n + 1 && ids@[j] == keys@[i].id
                        } by {
                            if i == at {
                                assert(ids@[n as int] == keys@[i].id);
                            } else {
                                let oi = if i < at { i } else { i - 1 };
                                assert(keys@[i] == before[oi]);
                                let j = choose|j: int| 0 <= j < n && ids@[j] == before[oi].id;
                                assert(ids@[j] == keys@[i].id);
                            }
                        }
                        assert forall|j: int|
                            0 <= j < n + 1 && self@.shows(
                                #[trigger] ids@[j],
                                only_current_workspace,
                            ) implies exists|i: int|
                            0 <= i < keys@.len() && (#[trigger] keys@[i]).id == ids@[j] by {
                            if j == n {
                                assert(keys@[at].id == ids@[j]);
                            } else {
                                let oi = choose|i: int|
                                    0 <= i < before.len() && (#[trigger] before[i]).id == ids@[j];
                                let i = if oi < at { oi } else { oi + 1 };
                                assert(keys@[i] == before[oi]);
                            }
                        }
                    }
                },
                None => {},
            }
            n += 1;
        }
        proof {
            assert forall|id: u64| #[trigger]
                self@.shows(id, only_current_workspace) implies exists|i: int|
                0 <= i < keys@.len() && (#[trigger] keys@[i]).id == id by {
                assert(self.windows@.contains_key(id));
                assert(ids@.contains(id));
                let j = choose|j: int| 0 <= j < ids@.len() && ids@[j] == id;
                assert(self@.shows(ids@[j], only_current_workspace));
            }
        }
        keys
    }

    /// The windows that are on a known workspace, and on an active one if
    /// `only_current_workspace` is set, each with the output of its
    /// workspace. They come ordered by workspace index, then by column, then
    /// by index within the column, then by identifier.
    pub fn snapshot(&self, only_current_workspace: bool) -> (snapshot: Snapshot)
        ensures
            self@.is_snapshot(only_current_workspace, snapshot_view(snapshot@)),
    {
        proof {
            use_type_invariant(self);
        }
        let keys = self.ordered_keys(only_current_workspace);
        let mut snapshot: Vec<Window> = Vec::new();
        let mut n: usize = 0;
        while n < keys.len()
            invariant
                n <= keys.len(),
                self@.wf(),
                snapshot@.len() == n,
                forall|i: int|
                    0 <= i < keys@.len() ==> {
                        &&& self@.shows((#[trigger] keys@[i]).id, only_current_workspace)
                        &&& keys@[i] == self@.sort_key(keys@[i].id)
                    },
                forall|i: int| 0 <= i < n ==> (#[trigger] snapshot@[i])@ == self@.entry(keys@[i].id),
            decreases keys.len() - n,
        {
            let id = keys[n].id;
            assert(self@.shows(keys@[n as int].id, only_current_workspace));
            let window = self.windows.get(&id).unwrap();
            let workspace = self.workspaces.get(&window.workspace_id.unwrap()).unwrap();
            snapshot.push(Window::new(window.clone(), clone_text(&workspace.output)));
            n += 1;
        }
        proof {
            let s = snapshot_view(snapshot@);
            assert forall|i: int| 0 <= i < s.len() implies (#[trigger] s[i]).window.id
                == keys@[i].id && s[i] == self@.entry(keys@[i].id) by {
                assert(s[i] == snapshot@[i]@);
                assert(self@.shows(keys@[i].id, only_current_workspace));
            }
            assert forall|id: u64| #[trigger]
                self@.shows(id, only_current_workspace) implies exists|i: int|
                0 <= i < s.len() && (#[trigger] s[i]).window.id == id by {
                let i = choose|i: int| 0 <= i < keys@.len() && (#[trigger] keys@[i]).id == id;
                assert(s[i].window.id == id);
            }
            assert forall|i: int, j: int| 0 <= i < j < s.len() implies self@.sort_key(
                (#[trigger] s[i]).window.id,
            ).precedes(self@.sort_key((#[trigger] s[j]).window.id)) by {
                assert(keys@[i].precedes(keys@[j]));
            }
        }
        snapshot
    }
}

} // verus!
