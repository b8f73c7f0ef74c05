use niri_taskbar::config::{default_true, AppConfig, Config, ConfigError, Notifications};

fn rule(pattern: &str, class: &str) -> AppConfig {
    match AppConfig::new(pattern, class.to_owned()) {
        Ok(rule) => rule,
        Err(_) => panic!("the pattern compiles"),
    }
}

fn config_with_rules() -> Config {
    Config::new(
        vec![
            ("firefox".to_owned(), vec![rule("^Old", "old")]),
            ("kitty".to_owned(), vec![rule("vim", "editor"), rule("^ssh ", "remote"), rule("(?i)VIM$", "vim-last")]),
            ("firefox".to_owned(), vec![rule("YouTube", "video"), rule(".*", "browser")]),
        ],
        Notifications::default(),
        true,
        true,
    )
}

#[test]
fn default_true_is_true() {
    assert!(default_true());
}

#[test]
fn default_config_values() {
    let config = Config::default();
    assert!(config.notifications_enabled());
    assert!(config.notifications_use_desktop_entry());
    assert!(!config.notifications_use_fuzzy_matching());
    assert!(!config.show_all_outputs());
    assert!(!config.only_current_workspace());
    assert_eq!(config.notifications_app_map("anything"), None);
    assert!(config.app_classes("anything").is_empty());
    assert!(config.app_matches("anything", "title").is_empty());
}

#[test]
fn config_getters_return_what_was_given() {
    let config = Config::new(
        Vec::new(),
        Notifications::new(false, Vec::new(), false, true),
        true,
        true,
    );
    assert!(!config.notifications_enabled());
    assert!(!config.notifications_use_desktop_entry());
    assert!(config.notifications_use_fuzzy_matching());
    assert!(config.show_all_outputs());
    assert!(config.only_current_workspace());
}

#[test]
fn app_map_gives_the_later_of_two_entries() {
    let config = Config::new(
        Vec::new(),
        Notifications::new(
            true,
            vec![
                ("a".to_owned(), "first".to_owned()),
                ("b".to_owned(), "other".to_owned()),
                ("a".to_owned(), "second".to_owned()),
            ],
            true,
            false,
        ),
        false,
        false,
    );
    assert_eq!(config.notifications_app_map("a"), Some("second"));
    assert_eq!(config.notifications_app_map("b"), Some("other"));
    assert_eq!(config.notifications_app_map("c"), None);
    assert_eq!(config.notifications_app_map(""), None);
    assert_eq!(config.notifications_app_map("A"), None);
}

#[test]
fn app_classes_lists_every_class_of_the_app() {
    let config = config_with_rules();
    assert_eq!(config.app_classes("kitty"), vec!["editor", "remote", "vim-last"]);
    // Of two entries for one application the later one counts.
    assert_eq!(config.app_classes("firefox"), vec!["video", "browser"]);
    assert!(config.app_classes("unknown").is_empty());
}

#[test]
fn app_matches_lists_the_classes_whose_pattern_matches() {
    let config = config_with_rules();
    assert_eq!(config.app_matches("kitty", "ssh host: vim"), vec!["editor", "remote", "vim-last"]);
    assert_eq!(config.app_matches("kitty", "neovim session"), vec!["editor"]);
    assert_eq!(config.app_matches("kitty", "NVIM"), vec!["vim-last"]);
    assert!(config.app_matches("kitty", "bash").is_empty());
    assert_eq!(config.app_matches("firefox", "Old YouTube"), vec!["video", "browser"]);
    assert_eq!(config.app_matches("firefox", ""), vec!["browser"]);
    assert!(config.app_matches("unknown", "vim").is_empty());
}

#[test]
fn rule_matches_by_its_pattern() {
    let rule = rule("^a+b$", "ab");
    assert_eq!(rule.class(), "ab");
    assert!(rule.matches("aaab"));
    assert!(!rule.matches("aaabc"));
    assert!(!rule.matches(""));
}

#[test]
fn invalid_pattern_is_rejected() {
    match AppConfig::new("foo(bar", "class".to_owned()) {
        Err(ConfigError::InvalidPattern { pattern, message }) => {
            assert_eq!(pattern, "foo(bar");
            assert!(!message.is_empty());
        }
        Ok(_) => panic!("an unclosed group is no pattern"),
    }
}

#[test]
fn from_compiled_follows_the_compilation() {
    let rule = AppConfig::from_compiled(regex::Regex::new("x"), "x", "c".to_owned());
    match rule {
        Ok(rule) => {
            assert_eq!(rule.class(), "c");
            assert!(rule.matches("axb"));
        }
        Err(_) => panic!("a compiled expression gives a rule"),
    }
    let rule = AppConfig::from_compiled(regex::Regex::new("("), "(", "c".to_owned());
    assert!(matches!(rule, Err(ConfigError::InvalidPattern { .. })));
}

#[test]
fn select_classes_follows_the_marks() {
    let rules = vec![rule("a", "one"), rule("b", "two"), rule("c", "three")];
    assert_eq!(
        niri_taskbar::config::select_classes(&rules, &vec![true, false, true]),
        vec!["one", "three"]
    );
    // Rules that the marks do not reach are not selected.
    assert_eq!(niri_taskbar::config::select_classes(&rules, &vec![false, true]), vec!["two"]);
    assert!(niri_taskbar::config::select_classes(&rules, &vec![]).is_empty());
    assert_eq!(
        niri_taskbar::config::select_classes(&rules, &vec![true, true, true, true]),
        vec!["one", "two", "three"]
    );
}
