use niri_taskbar::window::{NiriWindow, Window, WindowLayout, Workspace};
use niri_taskbar::window_set::{NiriEvent, WindowSet};

fn window(id: u64, workspace: Option<u64>, pos: Option<(usize, usize)>, focused: bool) -> NiriWindow {
    NiriWindow {
        id,
        title: Some(format!("window {id}")),
        app_id: Some(format!("app.{id}")),
        pid: Some(1000 + id as i32),
        workspace_id: workspace,
        is_focused: focused,
        layout: WindowLayout { pos_in_scrolling_layout: pos },
    }
}

fn workspace(id: u64, idx: u8, output: Option<&str>, active: bool) -> Workspace {
    Workspace { id, idx, output: output.map(str::to_owned), is_active: active }
}

fn ids(snapshot: &[Window]) -> Vec<u64> {
    snapshot.iter().map(|w| w.id).collect()
}

fn focused(snapshot: &[Window]) -> Vec<u64> {
    snapshot.iter().filter(|w| w.is_focused).map(|w| w.id).collect()
}

/// A window set that has received three windows on two workspaces.
fn ready_set() -> WindowSet {
    let mut set = WindowSet::new();
    set.with_event(
        NiriEvent::WorkspacesChanged {
            workspaces: vec![
                workspace(1, 1, Some("DP-1"), true),
                workspace(2, 2, Some("DP-1"), false),
            ],
        },
        false,
    );
    set.with_event(
        NiriEvent::WindowsChanged {
            windows: vec![
                window(10, Some(1), Some((1, 1)), true),
                window(11, Some(1), Some((2, 1)), false),
                window(12, Some(2), Some((1, 1)), false),
            ],
        },
        false,
    );
    set
}

#[test]
fn new_set_is_not_ready() {
    let set = WindowSet::new();
    assert!(!set.is_ready());
    assert_eq!(set.describe(), "uninitialised");
}

#[test]
fn other_event_before_anything_yields_nothing() {
    let mut set = WindowSet::new();
    assert!(set.with_event(NiriEvent::Other, false).is_none());
    assert!(!set.is_ready());
}

#[test]
fn windows_then_workspaces_reaches_ready() {
    let mut set = WindowSet::new();
    let first = set.with_event(
        NiriEvent::WindowsChanged { windows: vec![window(1, Some(5), None, false)] },
        false,
    );
    assert!(first.is_none());
    assert_eq!(set.describe(), "windows only");
    let second = set.with_event(
        NiriEvent::WorkspacesChanged { workspaces: vec![workspace(5, 1, Some("eDP-1"), true)] },
        false,
    );
    assert!(set.is_ready());
    assert_eq!(set.describe(), "ready");
    let snapshot = second.expect("a snapshot once both were received");
    assert_eq!(ids(&snapshot), vec![1]);
    assert_eq!(snapshot[0].output(), Some("eDP-1"));
}

#[test]
fn workspaces_then_windows_reaches_ready() {
    let mut set = WindowSet::new();
    let first = set.with_event(
        NiriEvent::WorkspacesChanged { workspaces: vec![workspace(5, 1, None, true)] },
        false,
    );
    assert!(first.is_none());
    assert_eq!(set.describe(), "workspaces only");
    let second = set.with_event(
        NiriEvent::WindowsChanged { windows: vec![window(1, Some(5), None, false)] },
        false,
    );
    let snapshot = second.expect("a snapshot once both were received");
    assert_eq!(ids(&snapshot), vec![1]);
    assert_eq!(snapshot[0].output(), None);
}

#[test]
fn repeated_full_replace_before_ready_keeps_the_last() {
    let mut set = WindowSet::new();
    set.with_event(
        NiriEvent::WindowsChanged { windows: vec![window(1, Some(5), None, false)] },
        false,
    );
    set.with_event(
        NiriEvent::WindowsChanged { windows: vec![window(2, Some(5), None, false)] },
        false,
    );
    assert_eq!(set.describe(), "windows only");
    let snapshot = set
        .with_event(
            NiriEvent::WorkspacesChanged { workspaces: vec![workspace(5, 1, None, true)] },
            false,
        )
        .unwrap();
    assert_eq!(ids(&snapshot), vec![2]);
}

#[test]
fn delta_events_before_ready_are_dropped() {
    let mut set = WindowSet::new();
    set.with_event(
        NiriEvent::WorkspacesChanged { workspaces: vec![workspace(5, 1, None, true)] },
        false,
    );
    let upsert = NiriEvent::WindowOpenedOrChanged { window: window(9, Some(5), None, true) };
    assert!(!set.expects(&upsert));
    assert!(set.with_event(upsert, false).is_none());
    assert!(set.with_event(NiriEvent::WindowClosed { id: 9 }, false).is_none());
    assert!(set.with_event(NiriEvent::WindowFocusChanged { id: Some(9) }, false).is_none());
    assert!(set.with_event(NiriEvent::WorkspaceActivated { id: 5 }, false).is_none());
    assert!(set
        .with_event(
            NiriEvent::WindowLayoutsChanged {
                changes: vec![(9, WindowLayout { pos_in_scrolling_layout: Some((1, 1)) })],
            },
            false,
        )
        .is_none());
    assert_eq!(set.describe(), "workspaces only");
    // The dropped window is not there once the set is ready.
    let snapshot = set.with_event(NiriEvent::WindowsChanged { windows: vec![] }, false).unwrap();
    assert!(snapshot.is_empty());
}

#[test]
fn snapshot_is_empty_without_placeable_windows() {
    let mut set = WindowSet::new();
    set.with_event(
        NiriEvent::WorkspacesChanged { workspaces: vec![workspace(5, 1, None, true)] },
        false,
    );
    // One window without a workspace, one on a workspace that is not known.
    let snapshot = set
        .with_event(
            NiriEvent::WindowsChanged {
                windows: vec![window(1, None, None, false), window(2, Some(6), None, false)],
            },
            false,
        )
        .unwrap();
    assert!(snapshot.is_empty());
}

#[test]
fn snapshot_orders_by_workspace_then_column_then_row_then_id() {
    let mut set = WindowSet::new();
    set.with_event(
        NiriEvent::WorkspacesChanged {
            workspaces: vec![workspace(100, 2, None, true), workspace(200, 1, None, false)],
        },
        false,
    );
    let snapshot = set
        .with_event(
            NiriEvent::WindowsChanged {
                windows: vec![
                    window(1, Some(100), Some((1, 1)), false),
                    window(2, Some(200), Some((3, 1)), false),
                    window(3, Some(200), Some((1, 2)), false),
                    window(4, Some(200), Some((1, 1)), false),
                    window(6, Some(200), None, false),
                    window(5, Some(200), None, false),
                    window(7, Some(100), Some((1, 1)), false),
                ],
            },
            false,
        )
        .unwrap();
    // Workspace 200 has index 1 and comes first. Windows without a position
    // count as (0, 0) and are told apart by identifier.
    assert_eq!(ids(&snapshot), vec![5, 6, 4, 3, 2, 1, 7]);
}

#[test]
fn snapshot_has_no_two_entries_of_one_window() {
    let mut set = WindowSet::new();
    set.with_event(
        NiriEvent::WorkspacesChanged { workspaces: vec![workspace(1, 1, None, true)] },
        false,
    );
    let mut later = window(4, Some(1), Some((2, 2)), false);
    later.title = Some("later".to_owned());
    let snapshot = set
        .with_event(
            NiriEvent::WindowsChanged {
                windows: vec![window(4, Some(1), Some((1, 1)), false), later],
            },
            false,
        )
        .unwrap();
    assert_eq!(snapshot.len(), 1);
    assert_eq!(snapshot[0].title.as_deref(), Some("later"));
    assert_eq!(snapshot[0].layout.pos_in_scrolling_layout, Some((2, 2)));
}

#[test]
fn only_current_workspace_excludes_inactive_workspaces() {
    let mut set = ready_set();
    let all = set.with_event(NiriEvent::Other, false).unwrap();
    assert_eq!(ids(&all), vec![10, 11, 12]);
    let current = set.with_event(NiriEvent::Other, true).unwrap();
    assert_eq!(ids(&current), vec![10, 11]);
}

#[test]
fn workspace_activated_moves_the_active_flag() {
    let mut set = ready_set();
    let snapshot = set.with_event(NiriEvent::WorkspaceActivated { id: 2 }, true).unwrap();
    assert_eq!(ids(&snapshot), vec![12]);
    // An unknown workspace leaves none active.
    let snapshot = set.with_event(NiriEvent::WorkspaceActivated { id: 77 }, true).unwrap();
    assert!(snapshot.is_empty());
    let snapshot = set.with_event(NiriEvent::Other, false).unwrap();
    assert_eq!(ids(&snapshot), vec![10, 11, 12]);
}

#[test]
fn window_closed_removes_the_window() {
    let mut set = ready_set();
    let snapshot = set.with_event(NiriEvent::WindowClosed { id: 11 }, false).unwrap();
    assert_eq!(ids(&snapshot), vec![10, 12]);
    // Closing a window that is not there changes nothing.
    let snapshot = set.with_event(NiriEvent::WindowClosed { id: 11 }, false).unwrap();
    assert_eq!(ids(&snapshot), vec![10, 12]);
}

#[test]
fn upsert_of_focused_window_clears_other_focus() {
    let mut set = ready_set();
    let snapshot = set
        .with_event(
            NiriEvent::WindowOpenedOrChanged { window: window(13, Some(2), Some((2, 1)), true) },
            false,
        )
        .unwrap();
    assert_eq!(ids(&snapshot), vec![10, 11, 12, 13]);
    assert_eq!(focused(&snapshot), vec![13]);
}

#[test]
fn upsert_of_unfocused_window_keeps_the_focus() {
    let mut set = ready_set();
    let snapshot = set
        .with_event(
            NiriEvent::WindowOpenedOrChanged { window: window(11, Some(2), Some((5, 1)), false) },
            false,
        )
        .unwrap();
    // Window 11 has moved to workspace 2.
    assert_eq!(ids(&snapshot), vec![10, 12, 11]);
    assert_eq!(focused(&snapshot), vec![10]);
}

#[test]
fn upsert_twice_is_upsert_once() {
    let mut once = ready_set();
    let mut twice = ready_set();
    let first = once
        .with_event(
            NiriEvent::WindowOpenedOrChanged { window: window(11, Some(2), Some((3, 1)), true) },
            false,
        )
        .unwrap();
    twice.with_event(
        NiriEvent::WindowOpenedOrChanged { window: window(11, Some(2), Some((3, 1)), true) },
        false,
    );
    let second = twice
        .with_event(
            NiriEvent::WindowOpenedOrChanged { window: window(11, Some(2), Some((3, 1)), true) },
            false,
        )
        .unwrap();
    assert_eq!(ids(&first), ids(&second));
    assert_eq!(focused(&first), focused(&second));
    assert_eq!(ids(&second), vec![10, 12, 11]);
    assert_eq!(focused(&second), vec![11]);
    for (a, b) in first.iter().zip(second.iter()) {
        assert_eq!(a.title, b.title);
        assert_eq!(a.app_id, b.app_id);
        assert_eq!(a.pid, b.pid);
        assert_eq!(a.workspace_id, b.workspace_id);
        assert_eq!(a.layout.pos_in_scrolling_layout, b.layout.pos_in_scrolling_layout);
        assert_eq!(a.output(), b.output());
    }
}

#[test]
fn focus_changed_sets_exactly_one_focus() {
    let mut set = ready_set();
    let snapshot = set.with_event(NiriEvent::WindowFocusChanged { id: Some(12) }, false).unwrap();
    assert_eq!(focused(&snapshot), vec![12]);
    let snapshot = set.with_event(NiriEvent::WindowFocusChanged { id: None }, false).unwrap();
    assert!(focused(&snapshot).is_empty());
    // A window that is not there takes the focus from all.
    set.with_event(NiriEvent::WindowFocusChanged { id: Some(10) }, false);
    let snapshot = set.with_event(NiriEvent::WindowFocusChanged { id: Some(99) }, false).unwrap();
    assert!(focused(&snapshot).is_empty());
}

#[test]
fn at_most_one_window_is_focused_after_many_events() {
    let mut set = ready_set();
    let events = vec![
        NiriEvent::WindowOpenedOrChanged { window: window(20, Some(1), None, true) },
        NiriEvent::WindowOpenedOrChanged { window: window(21, Some(2), None, true) },
        NiriEvent::WindowFocusChanged { id: Some(10) },
        NiriEvent::WindowOpenedOrChanged { window: window(22, Some(2), None, false) },
        NiriEvent::WindowClosed { id: 21 },
        NiriEvent::WorkspaceActivated { id: 2 },
        NiriEvent::WindowOpenedOrChanged { window: window(11, Some(1), None, true) },
    ];
    for event in events {
        let snapshot = set.with_event(event, false).unwrap();
        assert!(focused(&snapshot).len() <= 1);
    }
    let snapshot = set.with_event(NiriEvent::Other, false).unwrap();
    assert_eq!(focused(&snapshot), vec![11]);
}

#[test]
fn full_replace_with_two_focused_windows_keeps_both() {
    let mut set = ready_set();
    let snapshot = set
        .with_event(
            NiriEvent::WindowsChanged {
                windows: vec![window(1, Some(1), None, true), window(2, Some(1), None, true)],
            },
            false,
        )
        .unwrap();
    assert_eq!(focused(&snapshot), vec![1, 2]);
}

#[test]
fn layout_changes_reorder_the_snapshot() {
    let mut set = ready_set();
    let changes = NiriEvent::WindowLayoutsChanged {
        changes: vec![
            (10, WindowLayout { pos_in_scrolling_layout: Some((3, 1)) }),
            (11, WindowLayout { pos_in_scrolling_layout: Some((1, 1)) }),
        ],
    };
    assert!(set.expects(&changes));
    let snapshot = set.with_event(changes, false).unwrap();
    assert_eq!(ids(&snapshot), vec![11, 10, 12]);
    assert_eq!(snapshot[0].layout.pos_in_scrolling_layout, Some((1, 1)));
    assert_eq!(snapshot[1].layout.pos_in_scrolling_layout, Some((3, 1)));
}

#[test]
fn later_layout_change_of_one_window_wins() {
    let mut set = ready_set();
    let snapshot = set
        .with_event(
            NiriEvent::WindowLayoutsChanged {
                changes: vec![
                    (10, WindowLayout { pos_in_scrolling_layout: Some((9, 9)) }),
                    (10, WindowLayout { pos_in_scrolling_layout: None }),
                ],
            },
            false,
        )
        .unwrap();
    assert_eq!(ids(&snapshot), vec![10, 11, 12]);
    assert_eq!(snapshot[0].layout.pos_in_scrolling_layout, None);
}

#[test]
fn layout_change_of_unknown_window_is_ignored() {
    let mut set = ready_set();
    let changes = NiriEvent::WindowLayoutsChanged {
        changes: vec![
            (99, WindowLayout { pos_in_scrolling_layout: Some((1, 1)) }),
            (11, WindowLayout { pos_in_scrolling_layout: Some((1, 1)) }),
        ],
    };
    assert!(!set.expects(&changes));
    let snapshot = set.with_event(changes, false).unwrap();
    assert_eq!(ids(&snapshot), vec![10, 11, 12]);
    assert_eq!(snapshot[1].layout.pos_in_scrolling_layout, Some((1, 1)));
}

#[test]
fn full_replace_when_ready_replaces_one_side_only() {
    let mut set = ready_set();
    let snapshot = set
        .with_event(
            NiriEvent::WorkspacesChanged {
                workspaces: vec![workspace(2, 1, Some("HDMI-1"), true)],
            },
            false,
        )
        .unwrap();
    // Workspace 1 is gone, so its windows have no place.
    assert_eq!(ids(&snapshot), vec![12]);
    assert_eq!(snapshot[0].output(), Some("HDMI-1"));
    let snapshot = set
        .with_event(
            NiriEvent::WindowsChanged { windows: vec![window(30, Some(2), None, false)] },
            false,
        )
        .unwrap();
    assert_eq!(ids(&snapshot), vec![30]);
}

#[test]
fn every_event_yields_a_snapshot_once_ready() {
    let mut set = ready_set();
    assert!(set.expects(&NiriEvent::Other));
    assert!(set.with_event(NiriEvent::Other, false).is_some());
    assert!(set.with_event(NiriEvent::WindowClosed { id: 999 }, false).is_some());
    assert!(set.is_ready());
}

#[test]
fn snapshot_entries_carry_the_window_and_its_output() {
    let mut set = ready_set();
    let snapshot = set.with_event(NiriEvent::Other, false).unwrap();
    let entry = &snapshot[1];
    assert_eq!(entry.id, 11);
    assert_eq!(entry.window().id, 11);
    assert_eq!(entry.title.as_deref(), Some("window 11"));
    assert_eq!(entry.app_id.as_deref(), Some("app.11"));
    assert_eq!(entry.pid, Some(1011));
    assert_eq!(entry.workspace_id, Some(1));
    assert_eq!(entry.output(), Some("DP-1"));
    let copy = entry.clone();
    assert_eq!(copy.id, 11);
    assert_eq!(copy.output(), Some("DP-1"));
}
