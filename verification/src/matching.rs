//! Matching application identifiers against the identifier that a
//! notification's desktop entry stands for.
use crate::text::{has_separator, last_component, lowercase, same_text, split_last, to_lowercase};
use crate::window::{snapshot_view, Window, WindowView};
use vstd::prelude::*;

verus! {

/// How an application identifier matches a target.
#[derive(Debug, Clone, Copy, PartialEq, Eq, Structural)]
pub enum IdMatch {
    /// The identifier is the target.
    Exact,
    /// The identifier differs from the target, but not by more than fuzzy
    /// matching lets pass.
    Fuzzy,
    NoMatch,
}

/// The application identifier to look for, with the forms of it that fuzzy
/// matching compares.
#[derive(Debug)]
pub struct Target {
    id: String,
    lower: String,
    last_lower: String,
}

/// The mathematical value of a [`Target`].
pub struct TargetView {
    pub id: Seq<char>,
    /// What the lowercase form of a fuzzy match equals.
    pub lower: Seq<char>,
    /// What the lowercase form of the last component of a fuzzy match equals.
    pub last_lower: Seq<char>,
}

impl TargetView {
    /// The target for the identifier `id`.
    pub open spec fn of(id: Seq<char>) -> TargetView {
        TargetView { id, lower: lowercase(id), last_lower: lowercase(last_component(id)) }
    }

    /// How an application identifier matches, given its lowercase form and
    /// the lowercase form of its last component. It matches exactly if it is
    /// the target. Else, with fuzzy matching, it matches if its lowercase
    /// form is that of the target, or if it has more than one component and
    /// the lowercase form of its last one is that of the target's.
    pub open spec fn classify(
        self,
        app_id: Seq<char>,
        app_lower: Seq<char>,
        app_last_lower: Seq<char>,
        use_fuzzy: bool,
    ) -> IdMatch {
        if app_id == self.id {
            IdMatch::Exact
        } else if use_fuzzy && (app_lower == self.lower || (has_separator(app_id) && app_last_lower
            == self.last_lower)) {
            IdMatch::Fuzzy
        } else {
            IdMatch::NoMatch
        }
    }

    /// How the application identifier `app_id` matches.
    pub open spec fn matches(self, app_id: Seq<char>, use_fuzzy: bool) -> IdMatch {
        self.classify(app_id, lowercase(app_id), lowercase(last_component(app_id)), use_fuzzy)
    }

    /// How a window matches: by its application identifier, if it has one.
    pub open spec fn matches_window(self, window: WindowView, use_fuzzy: bool) -> IdMatch {
        match window.window.app_id {
            Some(app_id) => self.matches(app_id, use_fuzzy),
            None => IdMatch::NoMatch,
        }
    }

    /// The identifiers of the windows of `toplevels` that match in the way
    /// `how`, in their order.
    pub open spec fn windows_matching(
        self,
        toplevels: Seq<WindowView>,
        use_fuzzy: bool,
        how: IdMatch,
    ) -> Seq<u64>
        decreases toplevels.len(),
    {
        if toplevels.len() == 0 {
            Seq::empty()
        } else {
            let front = self.windows_matching(toplevels.drop_last(), use_fuzzy, how);
            if self.matches_window(toplevels.last(), use_fuzzy) == how {
                front.push(toplevels.last().window.id)
            } else {
                front
            }
        }
    }

    /// The windows that the target marks: those that match exactly, if there
    /// are any, else those that match fuzzily.
    pub open spec fn marks(self, toplevels: Seq<WindowView>, use_fuzzy: bool) -> Seq<u64> {
        let exact = self.windows_matching(toplevels, use_fuzzy, IdMatch::Exact);
        if exact.len() > 0 {
            exact
        } else {
            self.windows_matching(toplevels, use_fuzzy, IdMatch::Fuzzy)
        }
    }
}

impl View for Target {
    type V = TargetView;

    closed spec fn view(&self) -> TargetView {
        TargetView { id: self.id@, lower: self.lower@, last_lower: self.last_lower@ }
    }
}

impl Target {
    /// The target for the identifier `id`.
    pub fn new(id: &str) -> (target: Target)
        ensures
            target@ == TargetView::of(id@),
    {
        let lower = to_lowercase(id);
        let last_lower = to_lowercase(split_last(id).1);
        Target::with_forms(id.to_owned(), lower, last_lower)
    }

    /// The target for the identifier `id` that lets pass, as fuzzy matches,
    /// the identifiers whose lowercase form is `lower`, and those of several
    /// components whose last one has the lowercase form `last_lower`.
    pub fn with_forms(id: String, lower: String, last_lower: String) -> (target: Target)
        ensures
            target@ == (TargetView { id: id@, lower: lower@, last_lower: last_lower@ }),
    {
        Target { id, lower, last_lower }
    }

    /// How the application identifier `app_id` matches, where `app_lower` is
    /// its lowercase form and `app_last_lower` that of its last component.
    pub fn classify(&self, app_id: &str, app_lower: &str, app_last_lower: &str, use_fuzzy: bool) -> (how:
        IdMatch)
        ensures
            how == self@.classify(app_id@, app_lower@, app_last_lower@, use_fuzzy),
    {
        if same_text(app_id, self.id.as_str()) {
            IdMatch::Exact
        } else if !use_fuzzy {
            IdMatch::NoMatch
        } else if same_text(app_lower, self.lower.as_str()) {
            IdMatch::Fuzzy
        } else if split_last(app_id).0 && same_text(app_last_lower, self.last_lower.as_str()) {
            IdMatch::Fuzzy
        } else {
            IdMatch::NoMatch
        }
    }

    /// How the application identifier `app_id` matches.
    pub fn matches(&self, app_id: &str, use_fuzzy: bool) -> (how: IdMatch)
        ensures
            how == self@.matches(app_id@, use_fuzzy),
    {
        if same_text(app_id, self.id.as_str()) {
            IdMatch::Exact
        } else if !use_fuzzy {
            IdMatch::NoMatch
        } else {
            let lower = to_lowercase(app_id);
            let last_lower = to_lowercase(split_last(app_id).1);
            self.classify(app_id, lower.as_str(), last_lower.as_str(), use_fuzzy)
        }
    }

    /// How a window matches: by its application identifier, if it has one.
    pub fn matches_window(&self, window: &Window, use_fuzzy: bool) -> (how: IdMatch)
        ensures
            how == self@.matches_window(window@, use_fuzzy),
    {
        match &window.app_id {
            Some(app_id) => self.matches(app_id.as_str(), use_fuzzy),
            None => IdMatch::NoMatch,
        }
    }

    /// The windows that the target marks: those that match exactly, if there
    /// are any, else those that match fuzzily; in the order of `toplevels`.
    pub fn marks(&self, toplevels: &Vec<Window>, use_fuzzy: bool) -> (marked: Vec<u64>)
        ensures
            marked@ == self@.marks(snapshot_view(toplevels@), use_fuzzy),
    {
        let ghost all = snapshot_view(toplevels@);
        let mut exact: Vec<u64> = Vec::new();
        let mut fuzzy: Vec<u64> = Vec::new();
        let mut n: usize = 0;
        while n < toplevels.len()
            invariant
                n <= toplevels.len(),
                all == snapshot_view(toplevels@),
                exact@ == self@.windows_matching(all.take(n as int), use_fuzzy, IdMatch::Exact),
                fuzzy@ == self@.windows_matching(all.take(n as int), use_fuzzy, IdMatch::Fuzzy),
            decreases toplevels.len() - n,
        {
            assert(all.take(n + 1).drop_last() == all.take(n as int));
            match self.matches_window(&toplevels[n], use_fuzzy) {
                IdMatch::Exact => exact.push(toplevels[n].id),
                IdMatch::Fuzzy => fuzzy.push(toplevels[n].id),
                IdMatch::NoMatch => {},
            }
            n += 1;
        }
        assert(all.take(all.len() as int) == all);
        if exact.len() > 0 {
            exact
        } else {
            fuzzy
        }
    }
}

} // verus!
