use niri_taskbar::config::{Config, Notifications};
use niri_taskbar::matching::{IdMatch, Target};
use niri_taskbar::notify::{Correlation, Lookup, Notification, PidWindowMap, Progress};
use niri_taskbar::window::{NiriWindow, Window, WindowLayout};

fn toplevel(id: u64, pid: Option<i32>, app_id: Option<&str>, focused: bool) -> Window {
    Window::new(
        NiriWindow {
            id,
            title: None,
            app_id: app_id.map(str::to_owned),
            pid,
            workspace_id: Some(1),
            is_focused: focused,
            layout: WindowLayout { pos_in_scrolling_layout: None },
        },
        Some("DP-1".to_owned()),
    )
}

fn settings(map: Vec<(&str, &str)>, use_desktop_entry: bool, use_fuzzy_matching: bool) -> Config {
    let map = map.into_iter().map(|(k, v)| (k.to_owned(), v.to_owned())).collect();
    Config::new(
        Vec::new(),
        Notifications::new(true, map, use_desktop_entry, use_fuzzy_matching),
        false,
        false,
    )
}

fn notification(pid: Option<i64>, desktop_entry: Option<&str>) -> Notification {
    Notification { pid, desktop_entry: desktop_entry.map(str::to_owned) }
}

/// Runs the matching of a notification whose sender has the ancestors
/// `parents` and whose walk ends with `end`.
fn urgent(
    toplevels: Option<&Vec<Window>>,
    notification: &Notification,
    config: &Config,
    parents: &[i64],
    end: Lookup,
) -> Vec<u64> {
    let mut outcomes: Vec<Lookup> = parents.iter().map(|p| Lookup::Parent(*p)).collect();
    outcomes.push(end);
    match Correlation::start(toplevels, notification, config).run(&outcomes) {
        Progress::Done(urgent) => urgent,
        Progress::Pending(_) => panic!("the walk has not ended"),
    }
}

#[test]
fn no_snapshot_marks_nothing() {
    let config = settings(vec![], true, true);
    let n = notification(Some(42), Some("org.App"));
    match Correlation::start(None, &n, &config) {
        Progress::Done(urgent) => assert!(urgent.is_empty()),
        Progress::Pending(_) => panic!("nothing to walk without a snapshot"),
    }
}

#[test]
fn sender_pid_of_a_window_marks_that_window() {
    let toplevels = vec![toplevel(1, Some(100), Some("a"), false), toplevel(2, Some(200), Some("b"), false)];
    let config = settings(vec![], true, false);
    let n = notification(Some(200), None);
    assert_eq!(urgent(Some(&toplevels), &n, &config, &[], Lookup::NoParent), vec![2]);
}

#[test]
fn walk_asks_for_the_parent_of_the_sender_first() {
    let toplevels = vec![toplevel(1, Some(100), None, false)];
    let config = settings(vec![], true, false);
    let n = notification(Some(555), None);
    let progress = Correlation::start(Some(&toplevels), &n, &config);
    let walk = match progress {
        Progress::Pending(walk) => walk,
        Progress::Done(_) => panic!("the sender's parent is to be looked up"),
    };
    assert_eq!(walk.pid(), 555);
    let walk = match walk.step(Lookup::Parent(100)) {
        Progress::Pending(walk) => walk,
        Progress::Done(_) => panic!("the walk goes on while there are parents"),
    };
    assert_eq!(walk.pid(), 100);
    match walk.step(Lookup::NoParent) {
        Progress::Done(urgent) => assert_eq!(urgent, vec![1]),
        Progress::Pending(_) => panic!("the walk ends where there is no parent"),
    }
}

#[test]
fn ancestor_of_the_sender_marks_its_window() {
    let toplevels = vec![toplevel(1, Some(100), Some("a"), false), toplevel(2, Some(200), Some("b"), false)];
    let config = settings(vec![], true, false);
    let n = notification(Some(999), None);
    assert_eq!(urgent(Some(&toplevels), &n, &config, &[500, 100, 1], Lookup::NoParent), vec![1]);
}

#[test]
fn walk_goes_on_behind_a_match() {
    let toplevels = vec![toplevel(1, Some(100), None, false), toplevel(2, Some(200), None, false)];
    let config = settings(vec![], true, false);
    let n = notification(Some(200), None);
    assert_eq!(urgent(Some(&toplevels), &n, &config, &[100], Lookup::NoParent), vec![2, 1]);
}

#[test]
fn failed_lookup_ends_the_walk_and_keeps_the_matches() {
    let toplevels = vec![toplevel(1, Some(100), None, false), toplevel(2, Some(200), None, false)];
    let config = settings(vec![], true, false);
    let n = notification(Some(200), None);
    assert_eq!(urgent(Some(&toplevels), &n, &config, &[], Lookup::Failed), vec![2]);
    // What comes behind the end of the walk changes nothing.
    let outcomes = vec![Lookup::Failed, Lookup::Parent(100), Lookup::NoParent];
    match Correlation::start(Some(&toplevels), &n, &config).run(&outcomes) {
        Progress::Done(urgent) => assert_eq!(urgent, vec![2]),
        Progress::Pending(_) => panic!("the walk has ended"),
    }
}

#[test]
fn focused_window_is_not_marked_but_the_walk_goes_on() {
    let toplevels = vec![toplevel(1, Some(100), None, true), toplevel(2, Some(200), None, false)];
    let config = settings(vec![], false, false);
    let n = notification(Some(100), None);
    assert_eq!(urgent(Some(&toplevels), &n, &config, &[200], Lookup::NoParent), vec![2]);
    assert!(urgent(Some(&toplevels), &n, &config, &[], Lookup::NoParent).is_empty());
}

#[test]
fn pid_match_takes_precedence_over_desktop_entry() {
    let toplevels = vec![
        toplevel(1, Some(100), Some("org.Sender"), false),
        toplevel(2, Some(200), Some("org.App"), false),
        toplevel(3, Some(300), Some("io.app"), false),
    ];
    let config = settings(vec![], true, true);
    let n = notification(Some(100), Some("App"));
    assert_eq!(urgent(Some(&toplevels), &n, &config, &[], Lookup::NoParent), vec![1]);
    // Without the sender the desktop entry decides.
    let n = notification(None, Some("App"));
    assert_eq!(urgent(Some(&toplevels), &n, &config, &[], Lookup::NoParent), vec![2, 3]);
}

#[test]
fn fuzzy_fallback_marks_every_candidate() {
    let toplevels = vec![
        toplevel(1, None, Some("org.App"), false),
        toplevel(2, None, Some("io.App"), false),
        toplevel(3, None, Some("io.Other"), false),
        toplevel(4, None, None, false),
    ];
    let config = settings(vec![], true, true);
    let n = notification(None, Some("App"));
    assert_eq!(urgent(Some(&toplevels), &n, &config, &[], Lookup::NoParent), vec![1, 2]);
}

#[test]
fn fuzzy_matching_is_off_unless_enabled() {
    let toplevels = vec![toplevel(1, None, Some("org.App"), false), toplevel(2, None, Some("APP"), false)];
    let config = settings(vec![], true, false);
    let n = notification(None, Some("App"));
    assert!(urgent(Some(&toplevels), &n, &config, &[], Lookup::NoParent).is_empty());
}

#[test]
fn exact_match_excludes_fuzzy_candidates() {
    let toplevels = vec![
        toplevel(1, None, Some("io.Firefox"), false),
        toplevel(2, None, Some("org.mozilla.firefox"), false),
        toplevel(3, None, Some("ORG.MOZILLA.FIREFOX"), false),
    ];
    let config = settings(vec![("firefox", "org.mozilla.firefox")], true, true);
    let n = notification(None, Some("firefox"));
    assert_eq!(urgent(Some(&toplevels), &n, &config, &[], Lookup::NoParent), vec![2]);
}

#[test]
fn every_exact_match_is_marked() {
    let toplevels = vec![
        toplevel(1, None, Some("kitty"), false),
        toplevel(2, None, Some("Kitty"), false),
        toplevel(3, None, Some("kitty"), true),
    ];
    let config = settings(vec![], true, true);
    let n = notification(None, Some("kitty"));
    // Matching by identifier does not look at the focus.
    assert_eq!(urgent(Some(&toplevels), &n, &config, &[], Lookup::NoParent), vec![1, 3]);
}

#[test]
fn walk_without_match_marks_nothing() {
    let toplevels = vec![toplevel(1, Some(100), Some("a"), false)];
    let config = settings(vec![], true, true);
    let n = notification(Some(7), None);
    assert!(urgent(Some(&toplevels), &n, &config, &[6, 5, 1], Lookup::NoParent).is_empty());
    let config = settings(vec![], false, true);
    let n = notification(Some(7), Some("a"));
    assert!(urgent(Some(&toplevels), &n, &config, &[6, 5, 1], Lookup::NoParent).is_empty());
}

#[test]
fn walk_without_match_falls_back_to_the_desktop_entry() {
    let toplevels = vec![toplevel(1, Some(100), Some("a"), false)];
    let config = settings(vec![], true, false);
    let n = notification(Some(7), Some("a"));
    assert_eq!(urgent(Some(&toplevels), &n, &config, &[6], Lookup::Failed), vec![1]);
}

#[test]
fn desktop_entry_is_ignored_when_disabled() {
    let toplevels = vec![toplevel(1, None, Some("a"), false)];
    let config = settings(vec![], false, true);
    let n = notification(None, Some("a"));
    assert!(urgent(Some(&toplevels), &n, &config, &[], Lookup::NoParent).is_empty());
}

#[test]
fn remap_replaces_the_desktop_entry() {
    let toplevels = vec![toplevel(1, None, Some("a"), false), toplevel(2, None, Some("b"), false)];
    let config = settings(vec![("a", "b")], true, false);
    let n = notification(None, Some("a"));
    assert_eq!(urgent(Some(&toplevels), &n, &config, &[], Lookup::NoParent), vec![2]);
}

#[test]
fn pending_walk_stays_pending_without_an_end() {
    let toplevels = vec![toplevel(1, Some(100), None, false)];
    let config = settings(vec![], true, false);
    let n = notification(Some(3), None);
    match Correlation::start(Some(&toplevels), &n, &config).run(&vec![Lookup::Parent(2)]) {
        Progress::Pending(walk) => assert_eq!(walk.pid(), 2),
        Progress::Done(_) => panic!("the walk has not ended"),
    }
}

#[test]
fn pid_map_skips_windows_without_pid_and_keeps_the_later_window() {
    let toplevels = vec![
        toplevel(1, Some(100), None, false),
        toplevel(2, None, None, false),
        toplevel(3, Some(100), None, false),
        toplevel(4, Some(-5), None, false),
    ];
    let pids = PidWindowMap::new(&toplevels);
    assert_eq!(pids.get(100).map(|w| w.id), Some(3));
    assert_eq!(pids.get(-5).map(|w| w.id), Some(4));
    assert!(pids.get(0).is_none());
    assert!(pids.get(i64::MAX).is_none());
}

#[test]
fn target_matches_exactly_before_anything_else() {
    let target = Target::new("org.App");
    assert_eq!(target.matches("org.App", true), IdMatch::Exact);
    assert_eq!(target.matches("org.App", false), IdMatch::Exact);
}

#[test]
fn target_matches_case_insensitively_when_fuzzy() {
    let target = Target::new("FireFox");
    assert_eq!(target.matches("firefox", true), IdMatch::Fuzzy);
    assert_eq!(target.matches("FIREFOX", true), IdMatch::Fuzzy);
    assert_eq!(target.matches("firefox", false), IdMatch::NoMatch);
    assert_eq!(target.matches("firefux", true), IdMatch::NoMatch);
}

#[test]
fn target_lowercases_beyond_ascii() {
    let target = Target::new("ÄPFEL");
    assert_eq!(target.matches("äpfel", true), IdMatch::Fuzzy);
    assert_eq!(target.matches("apfel", true), IdMatch::NoMatch);
}

#[test]
fn target_matches_last_component_only_for_dotted_identifiers() {
    let target = Target::new("com.vendor.App");
    assert_eq!(target.matches("org.app", true), IdMatch::Fuzzy);
    // An identifier without a separator is compared as a whole.
    assert_eq!(target.matches("app", true), IdMatch::NoMatch);
    assert_eq!(target.matches("org.app.", true), IdMatch::NoMatch);
    let plain = Target::new("App");
    assert_eq!(plain.matches("org.APP", true), IdMatch::Fuzzy);
    assert_eq!(plain.matches("org.App.Nightly", true), IdMatch::NoMatch);
}

#[test]
fn classify_takes_the_lowercase_forms_as_given() {
    let target = Target::with_forms("Org.App".to_owned(), "org.app".to_owned(), "app".to_owned());
    assert_eq!(target.classify("Org.App", "", "", true), IdMatch::Exact);
    assert_eq!(target.classify("io.APP", "io.app", "app", true), IdMatch::Fuzzy);
    assert_eq!(target.classify("io.APP", "io.app", "app", false), IdMatch::NoMatch);
    assert_eq!(target.classify("ORG.APP", "org.app", "x", true), IdMatch::Fuzzy);
    assert_eq!(target.classify("APP", "x", "app", true), IdMatch::NoMatch);
    assert_eq!(target.classify("io.APP", "io.app", "apps", true), IdMatch::NoMatch);
}

#[test]
fn target_marks_in_snapshot_order() {
    let toplevels = vec![
        toplevel(9, None, Some("b.App"), false),
        toplevel(3, None, Some("a.App"), false),
        toplevel(5, None, None, false),
    ];
    let target = Target::new("app");
    assert_eq!(target.marks(&toplevels, true), vec![9, 3]);
    assert!(target.marks(&toplevels, false).is_empty());
    assert_eq!(target.matches_window(&toplevels[2], true), IdMatch::NoMatch);
}

#[test]
fn named_sender_counts_before_the_connection_owner() {
    let n = Notification::new(Some(5), Some(9), Some("app".to_owned()));
    assert_eq!(n.pid, Some(5));
    assert_eq!(n.desktop_entry.as_deref(), Some("app"));
    assert_eq!(Notification::new(None, Some(9), None).pid, Some(9));
    assert_eq!(Notification::new(Some(5), None, None).pid, Some(5));
    assert_eq!(Notification::new(None, None, None).pid, None);
}
