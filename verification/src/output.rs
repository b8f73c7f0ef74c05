//! Which outputs' windows a bar shows.
use crate::text::same_text;
use crate::window::text_of;
use vstd::prelude::*;

verus! {

/// The outputs whose windows a bar shows.
#[derive(Debug)]
pub enum Filter {
    /// The windows of every output.
    ShowAll,
    /// Only the windows of the output with this name.
    Only(String),
}

/// The mathematical value of a [`Filter`].
pub enum FilterView {
    ShowAll,
    Only(Seq<char>),
}

impl FilterView {
    /// Whether the bar shows the windows of the output `output`.
    pub open spec fn shows(self, output: Seq<char>) -> bool {
        match self {
            FilterView::ShowAll => true,
            FilterView::Only(only) => only == output,
        }
    }

    /// The filter for a bar: every output, if the bar is to show them all or
    /// if the compositor's outputs are not known; every output too, if there
    /// is only one; else the first output that is the bar's own, and every
    /// output if none is. `outputs` holds the name of each output and whether
    /// it is the bar's own.
    pub open spec fn pick(show_all_outputs: bool, outputs: Option<Seq<(Seq<char>, bool)>>) -> FilterView {
        match outputs {
            Some(outputs) if !show_all_outputs && outputs.len() != 1 => first_own(outputs),
            _ => FilterView::ShowAll,
        }
    }
}

/// The filter for the first output that is the bar's own, or for every
/// output if none is.
pub open spec fn first_own(outputs: Seq<(Seq<char>, bool)>) -> FilterView
    decreases outputs.len(),
{
    if outputs.len() == 0 {
        FilterView::ShowAll
    } else if outputs[0].1 {
        FilterView::Only(outputs[0].0)
    } else {
        first_own(outputs.drop_first())
    }
}

/// The views of a list of outputs.
pub open spec fn output_views(outputs: Seq<(String, bool)>) -> Seq<(Seq<char>, bool)> {
    outputs.map_values(|o: (String, bool)| (o.0@, o.1))
}

impl View for Filter {
    type V = FilterView;

    open spec fn view(&self) -> FilterView {
        match *self {
            Filter::ShowAll => FilterView::ShowAll,
            Filter::Only(only) => FilterView::Only(only@),
        }
    }
}

impl Filter {
    /// Whether the bar shows the windows of the output `output`.
    pub fn should_show(&self, output: &str) -> (shown: bool)
        ensures
            shown == self@.shows(output@),
    {
        match self {
            Filter::ShowAll => true,
            Filter::Only(only) => same_text(only.as_str(), output),
        }
    }

    /// The filter for a bar, given whether it is to show every output and,
    /// if they are known, the compositor's outputs, each with whether it is
    /// the bar's own.
    pub fn pick(show_all_outputs: bool, outputs: Option<&Vec<(String, bool)>>) -> (filter: Filter)
        ensures
            filter@ == FilterView::pick(
                show_all_outputs,
                match outputs {
                    Some(outputs) => Some(output_views(outputs@)),
                    None => None,
                },
            ),
    {
        if show_all_outputs {
            return Filter::ShowAll;
        }
        let list = match outputs {
            Some(list) => list,
            None => { return Filter::ShowAll; },
        };
        if list.len() == 1 {
            return Filter::ShowAll;
        }
        let ghost all = output_views(list@);
        let mut n: usize = 0;
        assert(all.skip(0) == all);
        while n < list.len()
            invariant
                n <= list.len(),
                !show_all_outputs,
                outputs == Some(list),
                list.len() != 1,
                all == output_views(list@),
                first_own(all) == first_own(all.skip(n as int)),
            decreases list.len() - n,
        {
            assert(all.skip(n as int).drop_first() == all.skip(n + 1));
            assert(all.skip(n as int)[0] == all[n as int]);
            if list[n].1 {
                return Filter::Only(list[n].0.clone());
            }
            n += 1;
        }
        Filter::ShowAll
    }
}


/// Where a display lies and how large it is, in logical pixels.
#[derive(Debug, Clone, Copy, PartialEq, Eq, Structural)]
pub struct Geometry {
    pub x: i32,
    pub y: i32,
    pub width: i32,
    pub height: i32,
}

/// What is known of a display, be it a monitor of the toolkit or an output of
/// the compositor.
#[derive(Debug)]
pub struct Display {
    pub make: Option<String>,
    pub model: Option<String>,
    pub geometry: Option<Geometry>,
}

/// In which respects a monitor and an output agree.
#[derive(Debug, Clone, Copy, PartialEq, Eq, Structural)]
pub struct Matcher {
    pub geometry: bool,
    pub make: bool,
    pub model: bool,
}

/// Whether both values are known and the same.
pub open spec fn known_and_same<T>(a: Option<T>, b: Option<T>) -> bool {
    a is Some && a == b
}

/// Whether both strings are known and hold the same characters.
fn same_known_text(a: &Option<String>, b: &Option<String>) -> (same: bool)
    ensures
        same == known_and_same(text_of(*a), text_of(*b)),
{
    match (a, b) {
        (Some(a), Some(b)) => same_text(a.as_str(), b.as_str()),
        _ => false,
    }
}

impl Matcher {
    /// Compares a monitor with an output. They agree in a respect if both
    /// are known in it and are the same.
    pub fn new(monitor: &Display, output: &Display) -> (matcher: Matcher)
        ensures
            matcher == (Matcher {
                geometry: known_and_same(monitor.geometry, output.geometry),
                make: known_and_same(
                    text_of(monitor.make),
                    text_of(output.make),
                ),
                model: known_and_same(
                    text_of(monitor.model),
                    text_of(output.model),
                ),
            }),
    {
        let geometry = match (monitor.geometry, output.geometry) {
            (Some(a), Some(b)) => a.x == b.x && a.y == b.y && a.width == b.width && a.height
                == b.height,
            _ => false,
        };
        Matcher {
            geometry,
            make: same_known_text(&monitor.make, &output.make),
            model: same_known_text(&monitor.model, &output.model),
        }
    }

    /// Agreement in every respect.
    pub fn all() -> (matcher: Matcher)
        ensures
            matcher == (Matcher { geometry: true, make: true, model: true }),
    {
        Matcher { geometry: true, make: true, model: true }
    }
}

} // verus!
