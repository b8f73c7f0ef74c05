//! What a bar keeps between events: which windows have a button, and the
//! last snapshot.
use crate::config::Config;
use crate::notify::{Correlation, Notification, Progress, ProgressView};
use crate::output::{Filter, FilterView};
use crate::window::{snapshot_view, Snapshot, Window, WindowView};
use std::collections::BTreeSet;
use vstd::prelude::*;
use vstd::std_specs::btree::spec_btree_keys_iter;
use vstd::std_specs::iter::IteratorSpec;

verus! {

/// The name of the output that shows a window; empty where it is not known.
pub open spec fn output_name(window: WindowView) -> Seq<char> {
    match window.output {
        Some(name) => name,
        None => Seq::empty(),
    }
}

/// The windows of a snapshot that a bar with the filter `filter` shows.
pub open spec fn shown_ids(windows: Seq<WindowView>, filter: FilterView) -> Set<u64> {
    Set::new(
        |id: u64|
            exists|i: int|
                0 <= i < windows.len() && (#[trigger] windows[i]).window.id == id && filter.shows(
                    output_name(windows[i]),
                ),
    )
}

/// A button of the bar after a snapshot was taken in.
#[derive(Debug, Clone, Copy)]
pub struct Shown {
    /// Where the button's window stands in the snapshot.
    pub index: usize,
    /// Whether the window had no button before.
    pub created: bool,
}

/// The buttons of a bar after it has taken in the snapshot `windows`, in
/// their order, which is that of their windows in the snapshot. `buttons`
/// holds the windows that had a button before.
pub open spec fn shown(buttons: Set<u64>, windows: Seq<WindowView>, filter: FilterView) -> Seq<
    Shown,
>
    decreases windows.len(),
{
    if windows.len() == 0 {
        Seq::empty()
    } else {
        let front = shown(buttons, windows.drop_last(), filter);
        let last = windows.last();
        if filter.shows(output_name(last)) {
            front.push(
                Shown {
                    index: (windows.len() - 1) as usize,
                    created: !buttons.contains(last.window.id) && !shown_ids(
                        windows.drop_last(),
                        filter,
                    ).contains(last.window.id),
                },
            )
        } else {
            front
        }
    }
}

/// What a snapshot changes on a bar.
#[derive(Debug)]
pub struct Refresh {
    /// The buttons that the bar now has, in their order.
    pub shown: Vec<Shown>,
    /// The windows whose buttons leave the bar.
    pub removed: Vec<u64>,
}

/// What a bar keeps between events.
#[derive(Debug)]
pub struct Instance {
    buttons: BTreeSet<u64>,
    last_snapshot: Option<Snapshot>,
}

/// The mathematical value of an [`Instance`].
pub struct InstanceView {
    /// The windows that have a button.
    pub buttons: Set<u64>,
    pub last_snapshot: Option<Seq<WindowView>>,
}

impl View for Instance {
    type V = InstanceView;

    closed spec fn view(&self) -> InstanceView {
        InstanceView {
            buttons: self.buttons@,
            last_snapshot: match self.last_snapshot {
                Some(windows) => Some(snapshot_view(windows@)),
                None => None,
            },
        }
    }
}

/// The members of a set, each once.
fn members(set: &BTreeSet<u64>) -> (ids: Vec<u64>)
    ensures
        ids@.no_duplicates(),
        forall|id: u64| ids@.contains(id) <==> set@.contains(id),
{
    let mut ids: Vec<u64> = Vec::new();
    for id in it: set.iter()
        invariant
            it.seq() == spec_btree_keys_iter(set).remaining(),
            ids@ == it.seq().take(it.index() as int).map_values(|id: &u64| *id),
    {
        ids.push(*id);
    }
    proof {
        let r = spec_btree_keys_iter(set).remaining();
        assert(r.take(r.len() as int) == r);
        assert(ids@ =~= r.unref());
        assert forall|i: int, j: int| 0 <= i < j < ids@.len() implies ids@[i] != ids@[j] by {
            assert(r[i] != r[j]);
        }
        assert forall|id: u64| ids@.contains(id) <==> set@.contains(id) by {
            assert(ids@.to_set().contains(id) <==> set@.contains(id));
        }
    }
    ids
}

impl Instance {
    /// A bar without buttons that has seen no snapshot.
    pub fn new() -> (instance: Instance)
        ensures
            instance@ == (InstanceView { buttons: Set::empty(), last_snapshot: None }),
    {
        Instance { buttons: BTreeSet::new(), last_snapshot: None }
    }

    /// The last snapshot that the bar has taken in, if it has taken one in.
    pub fn last_snapshot(&self) -> (windows: Option<&Snapshot>)
        ensures
            match windows {
                Some(windows) => self@.last_snapshot == Some(snapshot_view(windows@)),
                None => self@.last_snapshot is None,
            },
    {
        self.last_snapshot.as_ref()
    }

    /// Whether the window `id` has a button.
    pub fn has_button(&self, id: u64) -> (has: bool)
        ensures
            has == self@.buttons.contains(id),
    {
        self.buttons.contains(&id)
    }

    /// Takes in a snapshot. Each window that the filter lets pass has a
    /// button afterwards, and no other window has one. The bar keeps the
    /// whole snapshot as its last.
    pub fn process_window_snapshot(&mut self, windows: Snapshot, filter: &Filter) -> (refresh:
        Refresh)
        ensures
            refresh.shown@ == shown(old(self)@.buttons, snapshot_view(windows@), filter@),
            refresh.removed@.no_duplicates(),
            forall|id: u64|
                refresh.removed@.contains(id) <==> old(self)@.buttons.contains(id) && !shown_ids(
                    snapshot_view(windows@),
                    filter@,
                ).contains(id),
            final(self)@.buttons == shown_ids(snapshot_view(windows@), filter@),
            final(self)@.last_snapshot == Some(snapshot_view(windows@)),
    {
        let ghost all = snapshot_view(windows@);
        let mut kept: BTreeSet<u64> = BTreeSet::new();
        let mut shown_now: Vec<Shown> = Vec::new();
        let mut n: usize = 0;
        assert(kept@ =~= shown_ids(all.take(0), filter@));
        while n < windows.len()
            invariant
                n <= windows.len(),
                all == snapshot_view(windows@),
                self.buttons@ == old(self)@.buttons,
                kept@ == shown_ids(all.take(n as int), filter@),
                shown_now@ == shown(old(self)@.buttons, all.take(n as int), filter@),
            decreases windows.len() - n,
        {
            let window = &windows[n];
            let ghost front = all.take(n as int);
            let ghost next = all.take(n + 1);
            assert(next.drop_last() == front);
            assert(next.last() == window@);
            let name = match window.output() {
                Some(name) => name,
                None => {
                    proof {
                        reveal_strlit("");
                    }
                    assert(""@ =~= Seq::<char>::empty());
                    ""
                },
            };
            if filter.should_show(name) {
                let created = !self.buttons.contains(&window.id) && !kept.contains(&window.id);
                kept.insert(window.id);
                shown_now.push(Shown { index: n, created });
                assert(next[n as int].window.id == window@.window.id);
            }
            assert(kept@ =~= shown_ids(next, filter@)) by {
                assert forall|id: u64| shown_ids(next, filter@).contains(id) implies #[trigger]
                    kept@.contains(id) by {
                    let i = choose|i: int|
                        0 <= i < next.len() && (#[trigger] next[i]).window.id == id
                            && filter@.shows(output_name(next[i]));
                    if i < n {
                        assert(front[i] == next[i]);
                    }
                }
                assert forall|id: u64| #[trigger] kept@.contains(id) implies shown_ids(
                    next,
                    filter@,
                ).contains(id) by {
                    if shown_ids(front, filter@).contains(id) {
                        let i = choose|i: int|
                            0 <= i < front.len() && (#[trigger] front[i]).window.id == id
                                && filter@.shows(output_name(front[i]));
                        assert(next[i] == front[i]);
                    }
                }
            }
            n += 1;
        }
        assert(all.take(all.len() as int) == all);
        let before = members(&self.buttons);
        let mut removed: Vec<u64> = Vec::new();
        let mut m: usize = 0;
        while m < before.len()
            invariant
                m <= before.len(),
                before@.no_duplicates(),
                removed@.no_duplicates(),
                forall|id: u64|
                    removed@.contains(id) <==> !kept@.contains(id) && exists|j: int|
                        0 <= j < m && before@[j] == id,
            decreases before.len() - m,
        {
            let id = before[m];
            let ghost earlier = removed@;
            if !kept.contains(&id) {
                removed.push(id);
                assert forall|id2: u64| removed@.contains(id2) <==> !kept@.contains(id2)
                    && exists|j: int| 0 <= j < m + 1 && before@[j] == id2 by {
                    if removed@.contains(id2) {
                        let at = choose|at: int| 0 <= at < removed@.len() && removed@[at] == id2;
                        if at < earlier.len() {
                            assert(earlier[at] == id2);
                            assert(earlier.contains(id2));
                        } else {
                            assert(before@[m as int] == id2);
                        }
                    }
                    if !kept@.contains(id2) && exists|j: int|
                        0 <= j < m + 1 && before@[j] == id2 {
                        let j = choose|j: int| 0 <= j < m + 1 && before@[j] == id2;
                        if j < m {
                            assert(earlier.contains(id2));
                            let at = choose|at: int|
                                0 <= at < earlier.len() && earlier[at] == id2;
                            assert(removed@[at] == id2);
                        } else {
                            assert(removed@[earlier.len() as int] == id2);
                        }
                    }
                }
                assert(removed@.no_duplicates()) by {
                    assert forall|a: int, b: int| 0 <= a < b < removed@.len() implies removed@[a]
                        != removed@[b] by {
                        if b == earlier.len() {
                            assert(earlier.contains(earlier[a]));
                        }
                    }
                }
            } else {
                assert forall|id2: u64| removed@.contains(id2) <==> !kept@.contains(id2)
                    && exists|j: int| 0 <= j < m + 1 && before@[j] == id2 by {
                    if !kept@.contains(id2) && exists|j: int|
                        0 <= j < m + 1 && before@[j] == id2 {
                        let j = choose|j: int| 0 <= j < m + 1 && before@[j] == id2;
                        assert(j < m);
                    }
                }
            }
            m += 1;
        }
        proof {
            assert forall|id: u64|
                removed@.contains(id) <==> old(self)@.buttons.contains(id) && !kept@.contains(
                    id,
                ) by {
                if old(self)@.buttons.contains(id) {
                    assert(before@.contains(id));
                    let j = choose|j: int| 0 <= j < before@.len() && before@[j] == id;
                    assert(before@[j] == id);
                }
                if removed@.contains(id) {
                    let j = choose|j: int| 0 <= j < m && before@[j] == id;
                    assert(before@.contains(id));
                }
            }
        }
        self.buttons = kept;
        self.last_snapshot = Some(windows);
        Refresh { shown: shown_now, removed }
    }

    /// Begins to match a notification to the windows of the last snapshot.
    pub fn process_notification<'a>(
        &'a self,
        notification: &'a Notification,
        config: &'a Config,
    ) -> (progress: Progress<'a>)
        ensures
            progress@ == ProgressView::start(
                self@.last_snapshot,
                notification@,
                config@.notifications,
            ),
    {
        Correlation::start(self.last_snapshot.as_ref(), notification, config)
    }
}

} // verus!
