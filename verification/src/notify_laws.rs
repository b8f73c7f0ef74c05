//! What holds of the matching of notifications to windows.
use crate::config::NotificationsView;
use crate::matching::{IdMatch, TargetView};
use crate::notify::{
    conclusion, desktop_entry_matches, pid_index, pid_match, pid_matches, urgent_windows,
    with_pid_match, CorrelationView, Lookup, NotificationView, ProgressView,
};
use crate::window::WindowView;
use vstd::prelude::*;

verus! {

/// The lookups of a walk that passes the processes of `parents` and then
/// ends with `end`.
pub open spec fn walk(parents: Seq<i64>, end: Lookup) -> Seq<Lookup> {
    parents.map_values(|parent: i64| Lookup::Parent(parent)).push(end)
}

/// While the lookups give parents, the walk goes on and has found what the
/// processes mark that it has passed.
pub proof fn lemma_walk_goes_on(begin: CorrelationView, parents: Seq<i64>)
    requires
        begin.found == pid_matches(begin.index, seq![begin.pid]),
    ensures
        ProgressView::Pending(begin).run(parents.map_values(|parent: i64| Lookup::Parent(parent)))
            == ProgressView::Pending(
            CorrelationView {
                pid: (seq![begin.pid] + parents).last(),
                found: pid_matches(begin.index, seq![begin.pid] + parents),
                ..begin
            },
        ),
    decreases parents.len(),
{
    let lookups = parents.map_values(|parent: i64| Lookup::Parent(parent));
    if parents.len() == 0 {
        assert(seq![begin.pid] + parents == seq![begin.pid]);
    } else {
        let front = parents.drop_last();
        lemma_walk_goes_on(begin, front);
        assert(lookups.drop_last() == front.map_values(|parent: i64| Lookup::Parent(parent)));
        assert((seq![begin.pid] + parents).drop_last() == seq![begin.pid] + front);
    }
}

/// A walk that ends, because a process has no parent or cannot be looked up,
/// finishes the matching, and the windows to mark are those that the
/// notification marks with the ancestry that the walk has passed.
pub proof fn lemma_walk_ends(
    toplevels: Seq<WindowView>,
    notification: NotificationView,
    settings: NotificationsView,
    parents: Seq<i64>,
    end: Lookup,
)
    requires
        notification.pid is Some,
        !(end is Parent),
    ensures
        ProgressView::start(Some(toplevels), notification, settings).run(walk(parents, end))
            == ProgressView::Done(
            urgent_windows(
                Some(toplevels),
                notification,
                settings,
                seq![notification.pid->0] + parents,
            ),
        ),
{
    let pid = notification.pid->0;
    let begin = ProgressView::start(Some(toplevels), notification, settings)->Pending_0;
    assert(pid_matches(begin.index, seq![pid]) == begin.found) by {
        assert(seq![pid].drop_last() =~= Seq::<i64>::empty());
        assert(seq![pid].last() == pid);
        assert(pid_matches(begin.index, Seq::<i64>::empty()) == Seq::<u64>::empty());
    }
    lemma_walk_goes_on(begin, parents);
    assert(walk(parents, end).drop_last() == parents.map_values(
        |parent: i64| Lookup::Parent(parent),
    ));
}

/// Without a snapshot a notification marks nothing, and without a sender it
/// marks what its desktop entry marks; neither needs a lookup.
pub proof fn lemma_no_walk(
    toplevels: Option<Seq<WindowView>>,
    notification: NotificationView,
    settings: NotificationsView,
    ancestry: Seq<i64>,
)
    requires
        toplevels is None || notification.pid is None,
    ensures
        ProgressView::start(toplevels, notification, settings) == ProgressView::Done(
            urgent_windows(toplevels, notification, settings, ancestry),
        ),
        toplevels is None ==> urgent_windows(toplevels, notification, settings, ancestry)
            == Seq::<u64>::empty(),
{
}

/// A match by process takes precedence: where the ancestry of the sender
/// marks a window, the notification marks what the ancestry marks, whatever
/// its desktop entry would match.
pub proof fn lemma_pid_match_takes_precedence(
    toplevels: Seq<WindowView>,
    notification: NotificationView,
    settings: NotificationsView,
    ancestry: Seq<i64>,
)
    requires
        notification.pid is Some,
        pid_matches(pid_index(toplevels), ancestry).len() > 0,
    ensures
        urgent_windows(Some(toplevels), notification, settings, ancestry) == pid_matches(
            pid_index(toplevels),
            ancestry,
        ),
{
}

/// The ancestry marks a window if and only if one of its processes does.
pub proof fn lemma_pid_matches_members(index: Map<i64, WindowView>, ancestry: Seq<i64>, id: u64)
    ensures
        pid_matches(index, ancestry).contains(id) <==> exists|i: int|
            0 <= i < ancestry.len() && pid_match(index, #[trigger] ancestry[i]) == Some(id),
    decreases ancestry.len(),
{
    if ancestry.len() > 0 {
        let front = ancestry.drop_last();
        let found = pid_matches(index, front);
        lemma_pid_matches_members(index, front, id);
        if found.contains(id) {
            let i = choose|i: int|
                0 <= i < front.len() && pid_match(index, #[trigger] front[i]) == Some(id);
            assert(pid_match(index, ancestry[i]) == Some(id));
            let at = choose|at: int| 0 <= at < found.len() && found[at] == id;
            assert(pid_matches(index, ancestry)[at] == id);
        }
        if pid_match(index, ancestry.last()) == Some(id) {
            assert(pid_matches(index, ancestry) == found.push(id));
            assert(found.push(id)[found.len() as int] == id);
        }
        if pid_matches(index, ancestry).contains(id) {
            let at = choose|at: int|
                0 <= at < pid_matches(index, ancestry).len() && pid_matches(index, ancestry)[at]
                    == id;
            if at < found.len() {
                assert(found[at] == id);
            } else {
                assert(pid_match(index, ancestry[ancestry.len() - 1]) == Some(id));
            }
        }
        if exists|i: int|
            0 <= i < ancestry.len() && pid_match(index, #[trigger] ancestry[i]) == Some(id) {
            let i = choose|i: int|
                0 <= i < ancestry.len() && pid_match(index, #[trigger] ancestry[i]) == Some(id);
            if i < front.len() {
                assert(pid_match(index, front[i]) == Some(id));
            }
        }
    }
}

/// Where no process of the ancestry has a window that is not focused, the
/// ancestry marks nothing: the notification marks what its desktop entry
/// marks, and nothing where desktop entries do not count or it names none.
pub proof fn lemma_walk_without_match(
    toplevels: Seq<WindowView>,
    notification: NotificationView,
    settings: NotificationsView,
    ancestry: Seq<i64>,
)
    requires
        forall|i: int|
            0 <= i < ancestry.len() ==> pid_match(pid_index(toplevels), #[trigger] ancestry[i])
                is None,
    ensures
        pid_matches(pid_index(toplevels), ancestry) == Seq::<u64>::empty(),
        urgent_windows(Some(toplevels), notification, settings, ancestry) == desktop_entry_matches(
            toplevels,
            notification,
            settings,
        ),
        !settings.use_desktop_entry || notification.desktop_entry is None ==> urgent_windows(
            Some(toplevels),
            notification,
            settings,
            ancestry,
        ) == Seq::<u64>::empty(),
    decreases ancestry.len(),
{
    if ancestry.len() > 0 {
        let front = ancestry.drop_last();
        assert forall|i: int| 0 <= i < front.len() implies pid_match(
            pid_index(toplevels),
            #[trigger] front[i],
        ) is None by {
            assert(front[i] == ancestry[i]);
        }
        lemma_walk_without_match(toplevels, notification, settings, front);
        assert(pid_match(pid_index(toplevels), ancestry[ancestry.len() - 1]) is None);
    }
}

/// The windows that match in one way are those of the snapshot's windows
/// that do.
pub proof fn lemma_windows_matching_members(
    target: TargetView,
    toplevels: Seq<WindowView>,
    use_fuzzy: bool,
    how: IdMatch,
    id: u64,
)
    ensures
        target.windows_matching(toplevels, use_fuzzy, how).contains(id) <==> exists|i: int|
            0 <= i < toplevels.len() && (#[trigger] toplevels[i]).window.id == id
                && target.matches_window(toplevels[i], use_fuzzy) == how,
    decreases toplevels.len(),
{
    if toplevels.len() > 0 {
        let front = toplevels.drop_last();
        let found = target.windows_matching(front, use_fuzzy, how);
        let all = target.windows_matching(toplevels, use_fuzzy, how);
        lemma_windows_matching_members(target, front, use_fuzzy, how, id);
        let last = toplevels.last();
        if found.contains(id) {
            let i = choose|i: int|
                0 <= i < front.len() && (#[trigger] front[i]).window.id == id
                    && target.matches_window(front[i], use_fuzzy) == how;
            assert(toplevels[i] == front[i]);
            let at = choose|at: int| 0 <= at < found.len() && found[at] == id;
            assert(all[at] == id);
        }
        if last.window.id == id && target.matches_window(last, use_fuzzy) == how {
            assert(all == found.push(id));
            assert(all[found.len() as int] == id);
        }
        if all.contains(id) {
            let at = choose|at: int| 0 <= at < all.len() && all[at] == id;
            if at < found.len() {
                assert(found[at] == id);
            } else {
                assert(toplevels[toplevels.len() - 1] == last);
            }
        }
        if exists|i: int|
            0 <= i < toplevels.len() && (#[trigger] toplevels[i]).window.id == id
                && target.matches_window(toplevels[i], use_fuzzy) == how {
            let i = choose|i: int|
                0 <= i < toplevels.len() && (#[trigger] toplevels[i]).window.id == id
                    && target.matches_window(toplevels[i], use_fuzzy) == how;
            if i < front.len() {
                assert(front[i] == toplevels[i]);
            }
        }
    }
}

/// An exact match excludes the fuzzy ones: where a window matches the target
/// exactly, the target marks the windows that match exactly and no others.
pub proof fn lemma_exact_match_excludes_fuzzy(
    target: TargetView,
    toplevels: Seq<WindowView>,
    use_fuzzy: bool,
    i: int,
)
    requires
        0 <= i < toplevels.len(),
        target.matches_window(toplevels[i], use_fuzzy) == IdMatch::Exact,
    ensures
        target.marks(toplevels, use_fuzzy) == target.windows_matching(
            toplevels,
            use_fuzzy,
            IdMatch::Exact,
        ),
        forall|id: u64| #[trigger]
            target.marks(toplevels, use_fuzzy).contains(id) <==> exists|j: int|
                0 <= j < toplevels.len() && (#[trigger] toplevels[j]).window.id == id
                    && target.matches_window(toplevels[j], use_fuzzy) == IdMatch::Exact,
{
    let exact = target.windows_matching(toplevels, use_fuzzy, IdMatch::Exact);
    lemma_windows_matching_members(
        target,
        toplevels,
        use_fuzzy,
        IdMatch::Exact,
        toplevels[i].window.id,
    );
    assert(exact.contains(toplevels[i].window.id));
    assert forall|id: u64| #[trigger]
        target.marks(toplevels, use_fuzzy).contains(id) <==> exists|j: int|
            0 <= j < toplevels.len() && (#[trigger] toplevels[j]).window.id == id
                && target.matches_window(toplevels[j], use_fuzzy) == IdMatch::Exact by {
        lemma_windows_matching_members(target, toplevels, use_fuzzy, IdMatch::Exact, id);
    }
}

/// Without an exact match, fuzzy matching marks every window that matches
/// fuzzily, however many there are.
pub proof fn lemma_fuzzy_matches_all(target: TargetView, toplevels: Seq<WindowView>, i: int)
    requires
        0 <= i < toplevels.len(),
        target.matches_window(toplevels[i], true) == IdMatch::Fuzzy,
        forall|j: int|
            0 <= j < toplevels.len() ==> target.matches_window(#[trigger] toplevels[j], true)
                != IdMatch::Exact,
    ensures
        target.marks(toplevels, true).contains(toplevels[i].window.id),
{
    let exact = target.windows_matching(toplevels, true, IdMatch::Exact);
    if exact.len() > 0 {
        lemma_windows_matching_members(target, toplevels, true, IdMatch::Exact, exact[0]);
        assert(exact.contains(exact[0]));
    }
    lemma_windows_matching_members(target, toplevels, true, IdMatch::Fuzzy, toplevels[i].window.id);
}

} // verus!
