use niri_taskbar::order::SortKey;
use niri_taskbar::text::{find_last_component, same_text, split_last};

#[test]
fn last_component_follows_the_last_separator() {
    assert_eq!(split_last("org.mozilla.firefox"), (true, "firefox"));
    assert_eq!(split_last("firefox"), (false, "firefox"));
    assert_eq!(split_last(""), (false, ""));
    assert_eq!(split_last("trailing."), (true, ""));
    assert_eq!(split_last(".hidden"), (true, "hidden"));
    assert_eq!(split_last("."), (true, ""));
    assert_eq!(split_last("a..b"), (true, "b"));
}

#[test]
fn last_component_counts_characters_not_bytes() {
    assert_eq!(split_last("große.äpfel"), (true, "äpfel"));
    assert_eq!(find_last_component("große.äpfel"), 6);
    assert_eq!(find_last_component("äöü"), 0);
    assert_eq!(find_last_component("ä.ö.ü"), 4);
}

#[test]
fn same_text_compares_all_characters() {
    assert!(same_text("", ""));
    assert!(same_text("abc", "abc"));
    assert!(!same_text("abc", "abd"));
    assert!(!same_text("abc", "ab"));
    assert!(!same_text("ab", "abc"));
    assert!(!same_text("", "a"));
    assert!(!same_text("abc", "ABC"));
    assert!(same_text("äpfel", "äpfel"));
}

fn key(workspace_idx: u8, column: usize, row: usize, id: u64) -> SortKey {
    SortKey { workspace_idx, column, row, id }
}

#[test]
fn sort_key_orders_lexicographically() {
    assert!(key(1, 9, 9, 9).before(&key(2, 0, 0, 0)));
    assert!(!key(2, 0, 0, 0).before(&key(1, 9, 9, 9)));
    assert!(key(1, 1, 9, 9).before(&key(1, 2, 0, 0)));
    assert!(!key(1, 2, 0, 0).before(&key(1, 1, 9, 9)));
    assert!(key(1, 1, 1, 9).before(&key(1, 1, 2, 0)));
    assert!(!key(1, 1, 2, 0).before(&key(1, 1, 1, 9)));
    assert!(key(1, 1, 1, 1).before(&key(1, 1, 1, 2)));
    assert!(!key(1, 1, 1, 2).before(&key(1, 1, 1, 1)));
}

#[test]
fn sort_key_does_not_precede_itself() {
    assert!(!key(3, 2, 1, 7).before(&key(3, 2, 1, 7)));
}

#[test]
fn exactly_one_of_two_keys_precedes_the_other() {
    let keys = vec![key(1, 0, 0, 5), key(1, 0, 0, 6), key(0, 5, 5, 7), key(1, 0, 1, 1)];
    for a in keys.iter() {
        for b in keys.iter() {
            if a.id != b.id {
                assert_ne!(a.before(b), b.before(a));
            }
        }
    }
}
