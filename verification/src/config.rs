//! The taskbar configuration.
use crate::text::same_text;
use regex::Regex;
use vstd::prelude::*;

verus! {

/// `regex::Regex`, a compiled regular expression.
#[verifier::external_type_specification]
#[verifier::external_body]
pub struct ExRegex(regex::Regex);

/// `regex::Error`, the reason why a pattern was not compiled.
#[verifier::external_type_specification]
#[verifier::external_body]
pub struct ExRegexError(regex::Error);

/// Whether the regular expression matches somewhere in the text, as
/// `Regex::is_match` decides it.
pub uninterp spec fn regex_is_match(re: Regex, text: Seq<char>) -> bool;

/// `Regex::new` of the regex crate: compiles a pattern, or says why it cannot
/// be compiled. Nothing is claimed of the outcome.
#[verifier::external_body]
fn compile(pattern: &str) -> (compiled: Result<Regex, regex::Error>) {
    Regex::new(pattern)
}

/// `Regex::is_match` of the regex crate: whether the expression matches
/// anywhere in the text. Nothing is proved of it; the contract gives its
/// result the name [`regex_is_match`].
#[verifier::external_body]
fn is_match(re: &Regex, text: &str) -> (found: bool)
    ensures
        found == regex_is_match(*re, text@),
{
    re.is_match(text)
}

/// The message of a `regex::Error`, from its `Display` impl. Nothing is
/// claimed of the text.
#[verifier::external_body]
fn error_message(error: &regex::Error) -> (message: String) {
    format!("{}", error)
}

/// The setting that is on unless the configuration says otherwise.
pub fn default_true() -> (value: bool)
    ensures
        value,
{
    true
}

/// The map that a list of pairs describes. Of two pairs with one key the
/// later one stays.
pub open spec fn table<T>(pairs: Seq<(Seq<char>, T)>) -> Map<Seq<char>, T>
    decreases pairs.len(),
{
    if pairs.len() == 0 {
        Map::empty()
    } else {
        table(pairs.drop_last()).insert(pairs.last().0, pairs.last().1)
    }
}

/// The value of the last pair with the given key.
pub open spec fn lookup<T>(pairs: Seq<(Seq<char>, T)>, key: Seq<char>) -> Option<T>
    decreases pairs.len(),
{
    if pairs.len() == 0 {
        None
    } else if pairs.last().0 == key {
        Some(pairs.last().1)
    } else {
        lookup(pairs.drop_last(), key)
    }
}

/// The map of a list holds under a key the value of the last pair with that
/// key, and nothing under a key that no pair has.
pub proof fn lemma_table_lookup<T>(pairs: Seq<(Seq<char>, T)>, key: Seq<char>)
    ensures
        table(pairs).contains_key(key) <==> lookup(pairs, key) is Some,
        table(pairs).contains_key(key) ==> lookup(pairs, key) == Some(table(pairs)[key]),
    decreases pairs.len(),
{
    if pairs.len() > 0 {
        lemma_table_lookup(pairs.drop_last(), key);
    }
}


/// Why a configuration was not accepted.
#[derive(Debug)]
pub enum ConfigError {
    /// A pattern is no regular expression, or too large a one.
    InvalidPattern { pattern: String, message: String },
}

/// A rule for the windows of one application: the class that a window gets
/// whose title matches the expression.
#[derive(Debug)]
pub struct AppConfig {
    re: Regex,
    class: String,
}

/// The mathematical value of an [`AppConfig`].
pub struct AppConfigView {
    pub re: Regex,
    pub class: Seq<char>,
}

impl View for AppConfig {
    type V = AppConfigView;

    closed spec fn view(&self) -> AppConfigView {
        AppConfigView { re: self.re, class: self.class@ }
    }
}

impl AppConfig {
    /// The rule that gives `class` to the titles that `pattern` matches, if
    /// `pattern` compiles.
    pub fn new(pattern: &str, class: String) -> (rule: Result<AppConfig, ConfigError>)
        ensures
            match rule {
                Ok(rule) => rule@.class == class@,
                Err(ConfigError::InvalidPattern { pattern: rejected, .. }) => rejected@
                    == pattern@,
            },
    {
        AppConfig::from_compiled(compile(pattern), pattern, class)
    }

    /// The rule that gives `class` to the titles that a compiled expression
    /// matches, or the error that says why `pattern` did not compile.
    pub fn from_compiled(
        compiled: Result<Regex, regex::Error>,
        pattern: &str,
        class: String,
    ) -> (rule: Result<AppConfig, ConfigError>)
        ensures
            match compiled {
                Ok(re) => rule matches Ok(rule) && rule@ == (AppConfigView { re, class: class@ }),
                Err(_) => rule matches Err(ConfigError::InvalidPattern { pattern: rejected, .. })
                    && rejected@ == pattern@,
            },
    {
        match compiled {
            Ok(re) => Ok(AppConfig { re, class }),
            Err(error) => Err(
                ConfigError::InvalidPattern {
                    pattern: pattern.to_owned(),
                    message: error_message(&error),
                },
            ),
        }
    }

    /// The class that the rule gives.
    pub fn class(&self) -> (class: &str)
        ensures
            class@ == self@.class,
    {
        self.class.as_str()
    }

    /// Whether the rule applies to a window with this title.
    pub fn matches(&self, title: &str) -> (found: bool)
        ensures
            found == regex_is_match(self@.re, title@),
    {
        is_match(&self.re, title)
    }
}

/// The views of a list of rules.
pub open spec fn rule_views(rules: Seq<AppConfig>) -> Seq<AppConfigView> {
    rules.map_values(|r: AppConfig| r@)
}

/// The strings that a list of string slices holds.
pub open spec fn texts(list: Seq<&str>) -> Seq<Seq<char>> {
    list.map_values(|s: &str| s@)
}

/// The classes of all rules.
pub open spec fn classes(rules: Seq<AppConfigView>) -> Seq<Seq<char>> {
    rules.map_values(|r: AppConfigView| r.class)
}

/// The classes of the rules that `hits` marks, in the order of the rules. A
/// rule that `hits` does not reach is not marked.
pub open spec fn classes_where(rules: Seq<AppConfigView>, hits: Seq<bool>) -> Seq<Seq<char>>
    decreases rules.len(),
{
    if rules.len() == 0 {
        Seq::empty()
    } else {
        let front = classes_where(rules.drop_last(), hits);
        if rules.len() <= hits.len() && hits[rules.len() - 1] {
            front.push(rules.last().class)
        } else {
            front
        }
    }
}

/// For each rule, whether it applies to a window with this title.
pub open spec fn hits(rules: Seq<AppConfigView>, title: Seq<char>) -> Seq<bool> {
    Seq::new(rules.len(), |i: int| regex_is_match(rules[i].re, title))
}

/// The classes of the rules that apply to a window with this title.
pub open spec fn matching_classes(rules: Seq<AppConfigView>, title: Seq<char>) -> Seq<Seq<char>> {
    classes_where(rules, hits(rules, title))
}

/// The classes of the rules that `hits` marks, in the order of the rules.
pub fn select_classes<'a>(rules: &'a Vec<AppConfig>, hits: &Vec<bool>) -> (selected: Vec<&'a str>)
    ensures
        texts(selected@) == classes_where(rule_views(rules@), hits@),
{
    let mut selected: Vec<&'a str> = Vec::new();
    let mut n: usize = 0;
    assert(texts(selected@) =~= classes_where(rule_views(rules@).take(0), hits@));
    while n < rules.len()
        invariant
            n <= rules.len(),
            texts(selected@) == classes_where(rule_views(rules@).take(n as int), hits@),
        decreases rules.len() - n,
    {
        let ghost before = selected@;
        let ghost views = rule_views(rules@);
        assert(views.take(n + 1).drop_last() == views.take(n as int));
        if n < hits.len() && hits[n] {
            selected.push(rules[n].class());
            assert(texts(selected@) =~= texts(before).push(views[n as int].class));
        }
        n += 1;
    }
    assert(rule_views(rules@).take(rules@.len() as int) == rule_views(rules@));
    selected
}


/// The views of a list of pairs of strings.
pub open spec fn pair_views(pairs: Seq<(String, String)>) -> Seq<(Seq<char>, Seq<char>)> {
    pairs.map_values(|p: (String, String)| (p.0@, p.1@))
}

/// How notifications are matched to windows.
#[derive(Debug)]
pub struct Notifications {
    enabled: bool,
    map_app_ids: Vec<(String, String)>,
    use_desktop_entry: bool,
    use_fuzzy_matching: bool,
}

/// The mathematical value of a [`Notifications`].
pub struct NotificationsView {
    pub enabled: bool,
    /// The application identifier to look for, by desktop entry.
    pub map_app_ids: Map<Seq<char>, Seq<char>>,
    pub use_desktop_entry: bool,
    pub use_fuzzy_matching: bool,
}

impl NotificationsView {
    /// The application identifier to look for when a notification names the
    /// desktop entry `desktop_entry`: what the map gives, else the desktop
    /// entry itself.
    pub open spec fn target(self, desktop_entry: Seq<char>) -> Seq<char> {
        if self.map_app_ids.contains_key(desktop_entry) {
            self.map_app_ids[desktop_entry]
        } else {
            desktop_entry
        }
    }
}

impl View for Notifications {
    type V = NotificationsView;

    closed spec fn view(&self) -> NotificationsView {
        NotificationsView {
            enabled: self.enabled,
            map_app_ids: table(pair_views(self.map_app_ids@)),
            use_desktop_entry: self.use_desktop_entry,
            use_fuzzy_matching: self.use_fuzzy_matching,
        }
    }
}

impl Default for Notifications {
    /// Notifications are matched, by process and by desktop entry, without
    /// fuzzy matching and without a map.
    fn default() -> (notifications: Self)
        ensures
            notifications@ == (NotificationsView {
                enabled: true,
                map_app_ids: Map::empty(),
                use_desktop_entry: true,
                use_fuzzy_matching: false,
            }),
    {
        Notifications {
            enabled: default_true(),
            map_app_ids: Vec::new(),
            use_desktop_entry: default_true(),
            use_fuzzy_matching: false,
        }
    }
}

impl Notifications {
    /// The settings with the given values. Of two pairs of `map_app_ids`
    /// with one desktop entry the later one counts.
    pub fn new(
        enabled: bool,
        map_app_ids: Vec<(String, String)>,
        use_desktop_entry: bool,
        use_fuzzy_matching: bool,
    ) -> (notifications: Self)
        ensures
            notifications@ == (NotificationsView {
                enabled,
                map_app_ids: table(pair_views(map_app_ids@)),
                use_desktop_entry,
                use_fuzzy_matching,
            }),
    {
        Notifications { enabled, map_app_ids, use_desktop_entry, use_fuzzy_matching }
    }

    /// The application identifier that the map gives for `app_id`, if any.
    fn app_map(&self, app_id: &str) -> (mapped: Option<&str>)
        ensures
            match mapped {
                Some(mapped) => self@.map_app_ids.contains_key(app_id@)
                    && self@.map_app_ids[app_id@] == mapped@,
                None => !self@.map_app_ids.contains_key(app_id@),
            },
    {
        let ghost pairs = pair_views(self.map_app_ids@);
        let mut n: usize = self.map_app_ids.len();
        assert(pairs.take(n as int) == pairs);
        while n > 0
            invariant
                n <= self.map_app_ids.len(),
                pairs == pair_views(self.map_app_ids@),
                lookup(pairs, app_id@) == lookup(pairs.take(n as int), app_id@),
            decreases n,
        {
            n -= 1;
            assert(pairs.take(n + 1).drop_last() == pairs.take(n as int));
            if same_text(self.map_app_ids[n].0.as_str(), app_id) {
                proof {
                    lemma_table_lookup(pairs, app_id@);
                }
                return Some(self.map_app_ids[n].1.as_str());
            }
        }
        proof {
            lemma_table_lookup(pairs, app_id@);
        }
        None
    }
}


/// The views of a list of applications with their rules.
pub open spec fn app_views(apps: Seq<(String, Vec<AppConfig>)>) -> Seq<
    (Seq<char>, Seq<AppConfigView>),
> {
    apps.map_values(|a: (String, Vec<AppConfig>)| (a.0@, rule_views(a.1@)))
}

/// The taskbar configuration.
#[derive(Debug)]
pub struct Config {
    apps: Vec<(String, Vec<AppConfig>)>,
    notifications: Notifications,
    show_all_outputs: bool,
    only_current_workspace: bool,
}

/// The mathematical value of a [`Config`].
pub struct ConfigView {
    /// The rules of each application, by application identifier.
    pub apps: Map<Seq<char>, Seq<AppConfigView>>,
    pub notifications: NotificationsView,
    pub show_all_outputs: bool,
    pub only_current_workspace: bool,
}

impl ConfigView {
    /// The rules of the application `app_id`; none where the configuration
    /// does not name it.
    pub open spec fn rules(self, app_id: Seq<char>) -> Seq<AppConfigView> {
        if self.apps.contains_key(app_id) {
            self.apps[app_id]
        } else {
            Seq::empty()
        }
    }
}

impl View for Config {
    type V = ConfigView;

    closed spec fn view(&self) -> ConfigView {
        ConfigView {
            apps: table(app_views(self.apps@)),
            notifications: self.notifications@,
            show_all_outputs: self.show_all_outputs,
            only_current_workspace: self.only_current_workspace,
        }
    }
}

impl Default for Config {
    /// No rules, the default notification settings, and the windows of the
    /// bar's own output on all of its workspaces.
    fn default() -> (config: Self)
        ensures
            config@ == (ConfigView {
                apps: Map::empty(),
                notifications: NotificationsView {
                    enabled: true,
                    map_app_ids: Map::empty(),
                    use_desktop_entry: true,
                    use_fuzzy_matching: false,
                },
                show_all_outputs: false,
                only_current_workspace: false,
            }),
    {
        Config {
            apps: Vec::new(),
            notifications: Notifications::default(),
            show_all_outputs: false,
            only_current_workspace: false,
        }
    }
}

impl Config {
    /// The configuration with the given values. Of two entries of `apps` with
    /// one application identifier the later one counts.
    pub fn new(
        apps: Vec<(String, Vec<AppConfig>)>,
        notifications: Notifications,
        show_all_outputs: bool,
        only_current_workspace: bool,
    ) -> (config: Self)
        ensures
            config@ == (ConfigView {
                apps: table(app_views(apps@)),
                notifications: notifications@,
                show_all_outputs,
                only_current_workspace,
            }),
    {
        Config { apps, notifications, show_all_outputs, only_current_workspace }
    }

    /// The rules of the application `app_id`, if the configuration names it.
    fn app_rules(&self, app_id: &str) -> (rules: Option<&Vec<AppConfig>>)
        ensures
            match rules {
                Some(rules) => self@.apps.contains_key(app_id@) && self@.apps[app_id@]
                    == rule_views(rules@),
                None => !self@.apps.contains_key(app_id@),
            },
    {
        let ghost pairs = app_views(self.apps@);
        let mut n: usize = self.apps.len();
        assert(pairs.take(n as int) == pairs);
        while n > 0
            invariant
                n <= self.apps.len(),
                pairs == app_views(self.apps@),
                lookup(pairs, app_id@) == lookup(pairs.take(n as int), app_id@),
            decreases n,
        {
            n -= 1;
            assert(pairs.take(n + 1).drop_last() == pairs.take(n as int));
            if same_text(self.apps[n].0.as_str(), app_id) {
                proof {
                    lemma_table_lookup(pairs, app_id@);
                }
                return Some(&self.apps[n].1);
            }
        }
        proof {
            lemma_table_lookup(pairs, app_id@);
        }
        None
    }

    /// All classes that a window of the application `app_id` might get.
    pub fn app_classes(&self, app_id: &str) -> (all: Vec<&str>)
        ensures
            texts(all@) == classes(self@.rules(app_id@)),
    {
        let mut all: Vec<&str> = Vec::new();
        match self.app_rules(app_id) {
            Some(rules) => {
                let mut n: usize = 0;
                while n < rules.len()
                    invariant
                        n <= rules.len(),
                        texts(all@) == classes(rule_views(rules@).take(n as int)),
                    decreases rules.len() - n,
                {
                    let ghost before = all@;
                    all.push(rules[n].class());
                    assert(texts(all@) =~= texts(before).push(rules@[n as int]@.class));
                    n += 1;
                }
                assert(rule_views(rules@).take(rules@.len() as int) == rule_views(rules@));
            },
            None => {},
        }
        all
    }

    /// The classes that a window of the application `app_id` gets when it
    /// has the title `title`: those of the rules whose expression matches
    /// the title, in the order of the rules.
    pub fn app_matches<'a>(&'a self, app_id: &str, title: &str) -> (matching: Vec<&'a str>)
        ensures
            texts(matching@) == matching_classes(self@.rules(app_id@), title@),
    {
        match self.app_rules(app_id) {
            Some(rules) => {
                let mut found: Vec<bool> = Vec::new();
                let mut n: usize = 0;
                while n < rules.len()
                    invariant
                        n <= rules.len(),
                        found@ == hits(rule_views(rules@), title@).take(n as int),
                    decreases rules.len() - n,
                {
                    found.push(rules[n].matches(title));
                    n += 1;
                }
                assert(found@ == hits(rule_views(rules@), title@));
                select_classes(rules, &found)
            },
            None => Vec::new(),
        }
    }

    /// Whether notifications are matched to windows at all.
    pub fn notifications_enabled(&self) -> (enabled: bool)
        ensures
            enabled == self@.notifications.enabled,
    {
        self.notifications.enabled
    }

    /// The application identifier that the configuration maps `app_id` to,
    /// if it maps it.
    pub fn notifications_app_map(&self, app_id: &str) -> (mapped: Option<&str>)
        ensures
            match mapped {
                Some(mapped) => self@.notifications.map_app_ids.contains_key(app_id@)
                    && self@.notifications.map_app_ids[app_id@] == mapped@,
                None => !self@.notifications.map_app_ids.contains_key(app_id@),
            },
    {
        self.notifications.app_map(app_id)
    }

    /// Whether a notification that no process leads to a window is matched by
    /// its desktop entry.
    pub fn notifications_use_desktop_entry(&self) -> (enabled: bool)
        ensures
            enabled == self@.notifications.use_desktop_entry,
    {
        self.notifications.use_desktop_entry
    }

    /// Whether a desktop entry also matches application identifiers that
    /// differ from it in case or in all but the last component.
    pub fn notifications_use_fuzzy_matching(&self) -> (enabled: bool)
        ensures
            enabled == self@.notifications.use_fuzzy_matching,
    {
        self.notifications.use_fuzzy_matching
    }

    /// Whether the bar shows the windows of all outputs.
    pub fn show_all_outputs(&self) -> (enabled: bool)
        ensures
            enabled == self@.show_all_outputs,
    {
        self.show_all_outputs
    }

    /// Whether the bar shows only the windows of active workspaces.
    pub fn only_current_workspace(&self) -> (enabled: bool)
        ensures
            enabled == self@.only_current_workspace,
    {
        self.only_current_workspace
    }
}

} // verus!
