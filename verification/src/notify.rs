//! Finding the windows that a desktop notification belongs to: by the
//! ancestry of the process that sent it, else by its desktop entry.
use crate::config::{Config, NotificationsView};
use crate::matching::{Target, TargetView};
use crate::window::{snapshot_view, text_of, Window, WindowView};
use std::collections::HashMap;
use vstd::prelude::*;

verus! {

/// A desktop notification, as far as it says where it came from.
#[derive(Debug)]
pub struct Notification {
    /// The process that sent the notification, if it is known.
    pub pid: Option<i64>,
    /// The desktop entry that the notification names, if it names one.
    pub desktop_entry: Option<String>,
}

/// The mathematical value of a [`Notification`].
pub struct NotificationView {
    pub pid: Option<i64>,
    pub desktop_entry: Option<Seq<char>>,
}

impl View for Notification {
    type V = NotificationView;

    open spec fn view(&self) -> NotificationView {
        NotificationView { pid: self.pid, desktop_entry: text_of(self.desktop_entry) }
    }
}

impl Notification {
    /// The notification of a sender that names the desktop entry
    /// `desktop_entry`. The process that the notification itself names as
    /// its sender counts before the one that the bus knows to own the
    /// sender's connection.
    pub fn new(named_pid: Option<i64>, connection_pid: Option<i64>, desktop_entry: Option<String>) -> (notification:
        Notification)
        ensures
            notification.pid == if named_pid is Some {
                named_pid
            } else {
                connection_pid
            },
            notification.desktop_entry == desktop_entry,
    {
        let pid = match named_pid {
            Some(pid) => Some(pid),
            None => connection_pid,
        };
        Notification { pid, desktop_entry }
    }
}

/// The windows of a snapshot by process. Windows of an unknown process are
/// left out; of two windows of one process the later one stays.
pub open spec fn pid_index(toplevels: Seq<WindowView>) -> Map<i64, WindowView>
    decreases toplevels.len(),
{
    if toplevels.len() == 0 {
        Map::empty()
    } else {
        let front = pid_index(toplevels.drop_last());
        match toplevels.last().window.pid {
            Some(pid) => front.insert(pid as i64, toplevels.last()),
            None => front,
        }
    }
}

/// The windows of a snapshot by process.
pub struct PidWindowMap<'a>(HashMap<i64, &'a Window>);

impl<'a> View for PidWindowMap<'a> {
    type V = Map<i64, WindowView>;

    closed spec fn view(&self) -> Map<i64, WindowView> {
        self.0@.map_values(|w: &Window| w@)
    }
}

impl<'a> PidWindowMap<'a> {
    /// Files the windows of `toplevels` under their processes.
    pub fn new(toplevels: &'a Vec<Window>) -> (pids: Self)
        ensures
            pids@ == pid_index(snapshot_view(toplevels@)),
    {
        let ghost all = snapshot_view(toplevels@);
        let mut map: HashMap<i64, &'a Window> = HashMap::new();
        let mut n: usize = 0;
        assert(map@.map_values(|w: &Window| w@) =~= pid_index(all.take(0)));
        while n < toplevels.len()
            invariant
                n <= toplevels.len(),
                all == snapshot_view(toplevels@),
                map@.map_values(|w: &Window| w@) == pid_index(all.take(n as int)),
            decreases toplevels.len() - n,
        {
            assert(all.take(n + 1).drop_last() == all.take(n as int));
            let window = &toplevels[n];
            match window.pid {
                Some(pid) => {
                    let ghost before = map@;
                    map.insert(pid as i64, window);
                    assert(map@.map_values(|w: &Window| w@) =~= before.map_values(
                        |w: &Window| w@,
                    ).insert(pid as i64, window@));
                },
                None => {},
            }
            n += 1;
        }
        assert(all.take(all.len() as int) == all);
        PidWindowMap(map)
    }

    /// The window of the process `pid`, if it has one.
    pub fn get(&self, pid: i64) -> (window: Option<&'a Window>)
        ensures
            match window {
                Some(window) => self@.contains_key(pid) && self@[pid] == window@,
                None => !self@.contains_key(pid),
            },
    {
        match self.0.get(&pid) {
            Some(window) => Some(*window),
            None => None,
        }
    }
}


/// What the lookup of a process's parent gave.
#[derive(Debug, Clone, Copy)]
pub enum Lookup {
    /// The process has this parent.
    Parent(i64),
    /// The process has no parent.
    NoParent,
    /// The process could not be looked up; it has probably exited.
    Failed,
}

/// The window that the process `pid` marks: its own, unless that window holds
/// the focus.
pub open spec fn pid_match(index: Map<i64, WindowView>, pid: i64) -> Option<u64> {
    if index.contains_key(pid) && !index[pid].window.is_focused {
        Some(index[pid].window.id)
    } else {
        None
    }
}

/// `found` and, behind it, the window that the process `pid` marks.
pub open spec fn with_pid_match(found: Seq<u64>, index: Map<i64, WindowView>, pid: i64) -> Seq<
    u64,
> {
    match pid_match(index, pid) {
        Some(id) => found.push(id),
        None => found,
    }
}

/// The windows that the processes of `ancestry` mark, in the order of the
/// processes.
pub open spec fn pid_matches(index: Map<i64, WindowView>, ancestry: Seq<i64>) -> Seq<u64>
    decreases ancestry.len(),
{
    if ancestry.len() == 0 {
        Seq::empty()
    } else {
        with_pid_match(pid_matches(index, ancestry.drop_last()), index, ancestry.last())
    }
}

/// The windows that a notification marks by its desktop entry: none if the
/// settings do not let desktop entries count or the notification names none,
/// else those that match the application identifier that the desktop entry
/// stands for.
pub open spec fn desktop_entry_matches(
    toplevels: Seq<WindowView>,
    notification: NotificationView,
    settings: NotificationsView,
) -> Seq<u64> {
    if !settings.use_desktop_entry {
        Seq::empty()
    } else {
        match notification.desktop_entry {
            Some(desktop_entry) => TargetView::of(settings.target(desktop_entry)).marks(
                toplevels,
                settings.use_fuzzy_matching,
            ),
            None => Seq::empty(),
        }
    }
}

/// The windows that a notification marks, given those that the ancestry of
/// its sender marks: these, if there are any, else those that its desktop
/// entry marks.
pub open spec fn conclusion(
    found: Seq<u64>,
    toplevels: Seq<WindowView>,
    notification: NotificationView,
    settings: NotificationsView,
) -> Seq<u64> {
    if found.len() > 0 {
        found
    } else {
        desktop_entry_matches(toplevels, notification, settings)
    }
}

/// The windows that a notification marks as urgent, where `ancestry` holds
/// the sender of the notification and, behind it, each ancestor of it that
/// was found. Without a snapshot it marks none.
pub open spec fn urgent_windows(
    toplevels: Option<Seq<WindowView>>,
    notification: NotificationView,
    settings: NotificationsView,
    ancestry: Seq<i64>,
) -> Seq<u64> {
    match toplevels {
        Some(toplevels) => conclusion(
            if notification.pid is Some {
                pid_matches(pid_index(toplevels), ancestry)
            } else {
                Seq::empty()
            },
            toplevels,
            notification,
            settings,
        ),
        None => Seq::empty(),
    }
}

/// A notification that is being matched to windows, while the ancestry of its
/// sender is walked.
pub struct Correlation<'a> {
    toplevels: &'a Vec<Window>,
    notification: &'a Notification,
    config: &'a Config,
    pids: PidWindowMap<'a>,
    pid: i64,
    found: Vec<u64>,
}

/// The mathematical value of a [`Correlation`].
pub struct CorrelationView {
    pub toplevels: Seq<WindowView>,
    pub notification: NotificationView,
    pub settings: NotificationsView,
    /// The windows by process.
    pub index: Map<i64, WindowView>,
    /// The process that the walk has reached.
    pub pid: i64,
    /// The windows that the processes marked that the walk has passed.
    pub found: Seq<u64>,
}

/// How far the matching of a notification has come.
pub enum Progress<'a> {
    /// The parent of the process that the walk has reached is to be looked
    /// up.
    Pending(Correlation<'a>),
    /// These windows are to be marked as urgent.
    Done(Vec<u64>),
}

/// The mathematical value of a [`Progress`].
pub enum ProgressView {
    Pending(CorrelationView),
    Done(Seq<u64>),
}

impl CorrelationView {
    /// The matching after the lookup of the reached process's parent gave
    /// `outcome`: the walk goes on to a parent, and ends where there is none
    /// or none can be found.
    pub open spec fn step(self, outcome: Lookup) -> ProgressView {
        match outcome {
            Lookup::Parent(parent) => ProgressView::Pending(
                CorrelationView {
                    pid: parent,
                    found: with_pid_match(self.found, self.index, parent),
                    ..self
                },
            ),
            _ => ProgressView::Done(
                conclusion(self.found, self.toplevels, self.notification, self.settings),
            ),
        }
    }
}

impl ProgressView {
    /// Where the matching of a notification begins: without a snapshot it is
    /// done at once and marks nothing; without a sender it is done at once
    /// with what the desktop entry marks; else the walk begins at the sender.
    pub open spec fn start(
        toplevels: Option<Seq<WindowView>>,
        notification: NotificationView,
        settings: NotificationsView,
    ) -> ProgressView {
        match toplevels {
            Some(toplevels) => match notification.pid {
                Some(pid) => ProgressView::Pending(
                    CorrelationView {
                        toplevels,
                        notification,
                        settings,
                        index: pid_index(toplevels),
                        pid,
                        found: with_pid_match(Seq::empty(), pid_index(toplevels), pid),
                    },
                ),
                None => ProgressView::Done(
                    desktop_entry_matches(toplevels, notification, settings),
                ),
            },
            None => ProgressView::Done(Seq::empty()),
        }
    }

    /// The matching after one more lookup. What is done stays as it is.
    pub open spec fn step(self, outcome: Lookup) -> ProgressView {
        match self {
            ProgressView::Pending(correlation) => correlation.step(outcome),
            ProgressView::Done(_) => self,
        }
    }

    /// The matching after the lookups of `outcomes`, one after the other.
    pub open spec fn run(self, outcomes: Seq<Lookup>) -> ProgressView
        decreases outcomes.len(),
    {
        if outcomes.len() == 0 {
            self
        } else {
            self.run(outcomes.drop_last()).step(outcomes.last())
        }
    }
}

impl<'a> View for Correlation<'a> {
    type V = CorrelationView;

    closed spec fn view(&self) -> CorrelationView {
        CorrelationView {
            toplevels: snapshot_view(self.toplevels@),
            notification: self.notification@,
            settings: self.config@.notifications,
            index: self.pids@,
            pid: self.pid,
            found: self.found@,
        }
    }
}

impl<'a> View for Progress<'a> {
    type V = ProgressView;

    open spec fn view(&self) -> ProgressView {
        match *self {
            Progress::Pending(correlation) => ProgressView::Pending(correlation@),
            Progress::Done(urgent) => ProgressView::Done(urgent@),
        }
    }
}

/// The windows that a notification's desktop entry marks.
pub fn desktop_entry_marks(toplevels: &Vec<Window>, notification: &Notification, config: &Config) -> (marked:
    Vec<u64>)
    ensures
        marked@ == desktop_entry_matches(
            snapshot_view(toplevels@),
            notification@,
            config@.notifications,
        ),
{
    if !config.notifications_use_desktop_entry() {
        return Vec::new();
    }
    let desktop_entry = match &notification.desktop_entry {
        Some(desktop_entry) => desktop_entry.as_str(),
        None => { return Vec::new(); },
    };
    let mapped = match config.notifications_app_map(desktop_entry) {
        Some(mapped) => mapped,
        None => desktop_entry,
    };
    Target::new(mapped).marks(toplevels, config.notifications_use_fuzzy_matching())
}

impl<'a> Correlation<'a> {
    /// Begins to match a notification to the windows of the last snapshot, if
    /// there is one.
    pub fn start(
        toplevels: Option<&'a Vec<Window>>,
        notification: &'a Notification,
        config: &'a Config,
    ) -> (progress: Progress<'a>)
        ensures
            progress@ == ProgressView::start(
                match toplevels {
                    Some(toplevels) => Some(snapshot_view(toplevels@)),
                    None => None,
                },
                notification@,
                config@.notifications,
            ),
    {
        let toplevels = match toplevels {
            Some(toplevels) => toplevels,
            None => { return Progress::Done(Vec::new()); },
        };
        match notification.pid {
            Some(pid) => {
                let mut walk = Correlation {
                    toplevels,
                    notification,
                    config,
                    pids: PidWindowMap::new(toplevels),
                    pid,
                    found: Vec::new(),
                };
                walk.visit(pid);
                Progress::Pending(walk)
            },
            None => Progress::Done(desktop_entry_marks(toplevels, notification, config)),
        }
    }

    /// Moves the walk to the process `pid` and notes the window that it
    /// marks.
    fn visit(&mut self, pid: i64)
        ensures
            final(self)@ == (CorrelationView {
                pid,
                found: with_pid_match(old(self)@.found, old(self)@.index, pid),
                ..old(self)@
            }),
    {
        match self.pids.get(pid) {
            Some(window) => {
                if !window.is_focused {
                    self.found.push(window.id);
                }
            },
            None => {},
        }
        self.pid = pid;
    }

    /// The process whose parent is to be looked up.
    pub fn pid(&self) -> (pid: i64)
        ensures
            pid == self@.pid,
    {
        self.pid
    }

    /// Goes on with what the lookup of the parent of [`Correlation::pid`]
    /// gave.
    pub fn step(self, outcome: Lookup) -> (progress: Progress<'a>)
        ensures
            progress@ == self@.step(outcome),
    {
        match outcome {
            Lookup::Parent(parent) => {
                let mut walk = self;
                walk.visit(parent);
                Progress::Pending(walk)
            },
            _ => {
                if self.found.len() > 0 {
                    Progress::Done(self.found)
                } else {
                    Progress::Done(
                        desktop_entry_marks(self.toplevels, self.notification, self.config),
                    )
                }
            },
        }
    }
}

impl<'a> Progress<'a> {
    /// Goes on with the outcome of one more lookup. What is done stays as it
    /// is.
    pub fn step(self, outcome: Lookup) -> (progress: Progress<'a>)
        ensures
            progress@ == self@.step(outcome),
    {
        match self {
            Progress::Pending(correlation) => correlation.step(outcome),
            Progress::Done(urgent) => Progress::Done(urgent),
        }
    }

    /// Goes on with the outcomes of several lookups, one after the other.
    pub fn run(self, outcomes: &Vec<Lookup>) -> (progress: Progress<'a>)
        ensures
            progress@ == self@.run(outcomes@),
    {
        let ghost begin = self@;
        let mut progress = self;
        let mut n: usize = 0;
        while n < outcomes.len()
            invariant
                n <= outcomes.len(),
                progress@ == begin.run(outcomes@.take(n as int)),
            decreases outcomes.len() - n,
        {
            assert(outcomes@.take(n + 1).drop_last() == outcomes@.take(n as int));
            progress = progress.step(outcomes[n]);
            n += 1;
        }
        assert(outcomes@.take(outcomes@.len() as int) == outcomes@);
        progress
    }
}

} // verus!
