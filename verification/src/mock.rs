//! Test doubles for the X11 backend: the calls a recording backend keeps,
//! and the builder of its initial state.

use vstd::prelude::*;

use crate::geometry::Point;
use crate::layout::Group;
use crate::monitors::{outputs_view, Output, OutputView};
use crate::registry::WindowId;

verus! {

broadcast use crate::layout::lemma_from_index_view;

/// A backend call, as a recording backend keeps it: the shape of the
/// call, not the pixel data.
#[derive(Debug, Clone)]
pub enum MockCall {
    /// `connect`.
    Connect,
    /// `set_group(group)`.
    SetGroup(Group),
    /// `place_main_indicator(name, point, size)`.
    PlaceMain(String, Point, u32),
    /// `place_window_indicator(wid, point, size)`.
    PlaceForWindow(WindowId, Point, u32),
    /// `remove_window_indicator(wid)`.
    RemoveForWindow(WindowId),
    /// `paint_main_indicator(name, width, height)`.
    PaintMain(String, u32, u32),
    /// `paint_window_indicator(wid, width, height)`.
    PaintForWindow(WindowId, u32, u32),
}

/// Abstract value of a [`MockCall`].
pub enum MockCallView {
    /// See [`MockCall::Connect`].
    Connect,
    /// See [`MockCall::SetGroup`].
    SetGroup(Group),
    /// See [`MockCall::PlaceMain`].
    PlaceMain(Seq<char>, Point, u32),
    /// See [`MockCall::PlaceForWindow`].
    PlaceForWindow(WindowId, Point, u32),
    /// See [`MockCall::RemoveForWindow`].
    RemoveForWindow(WindowId),
    /// See [`MockCall::PaintMain`].
    PaintMain(Seq<char>, u32, u32),
    /// See [`MockCall::PaintForWindow`].
    PaintForWindow(WindowId, u32, u32),
}

impl View for MockCall {
    type V = MockCallView;

    open spec fn view(&self) -> MockCallView {
        match self {
            MockCall::Connect => MockCallView::Connect,
            MockCall::SetGroup(g) => MockCallView::SetGroup(*g),
            MockCall::PlaceMain(n, p, s) => MockCallView::PlaceMain(n@, *p, *s),
            MockCall::PlaceForWindow(w, p, s) => MockCallView::PlaceForWindow(*w, *p, *s),
            MockCall::RemoveForWindow(w) => MockCallView::RemoveForWindow(*w),
            MockCall::PaintMain(n, w, h) => MockCallView::PaintMain(n@, *w, *h),
            MockCall::PaintForWindow(wid, w, h) => MockCallView::PaintForWindow(*wid, *w, *h),
        }
    }
}

impl PartialEq for MockCall {
    fn eq(&self, other: &Self) -> (r: bool) {
        match self {
            MockCall::Connect => match other {
                MockCall::Connect => true,
                _ => false,
            },
            MockCall::SetGroup(a) => match other {
                MockCall::SetGroup(b) => *a == *b,
                _ => false,
            },
            MockCall::PlaceMain(n, p, s) => match other {
                MockCall::PlaceMain(n2, p2, s2) => *n == *n2 && *p == *p2 && *s == *s2,
                _ => false,
            },
            MockCall::PlaceForWindow(w, p, s) => match other {
                MockCall::PlaceForWindow(w2, p2, s2) => w.0 == w2.0 && *p == *p2 && *s == *s2,
                _ => false,
            },
            MockCall::RemoveForWindow(w) => match other {
                MockCall::RemoveForWindow(w2) => w.0 == w2.0,
                _ => false,
            },
            MockCall::PaintMain(n, w, h) => match other {
                MockCall::PaintMain(n2, w2, h2) => *n == *n2 && *w == *w2 && *h == *h2,
                _ => false,
            },
            MockCall::PaintForWindow(wid, w, h) => match other {
                MockCall::PaintForWindow(wid2, w2, h2) => wid.0 == wid2.0 && *w == *w2 && *h
                    == *h2,
                _ => false,
            },
        }
    }
}

impl vstd::std_specs::cmp::PartialEqSpecImpl for MockCall {
    open spec fn obeys_eq_spec() -> bool {
        true
    }

    open spec fn eq_spec(&self, other: &Self) -> bool {
        self@ == other@
    }
}

impl Eq for MockCall {}

/// Initial state of a recording backend: the group the server starts
/// in and the outputs it reports.
pub struct MockBackendBuilder {
    initial_group: Group,
    outputs: Vec<Output>,
}

impl MockBackendBuilder {
    /// The group the backend starts in.
    pub closed spec fn spec_group(&self) -> Group {
        self.initial_group
    }

    /// The outputs the backend reports.
    pub closed spec fn spec_outputs(&self) -> Seq<OutputView> {
        outputs_view(self.outputs@)
    }

    /// Defaults: the first group, no outputs.
    pub fn new() -> (r: Self)
        ensures
            r.spec_group() == Group::spec_from_index(0),
            r.spec_outputs() == Seq::<OutputView>::empty(),
    {
        let g = match Group::new(0, 4) {
            Ok(g) => g,
            Err(_) => {
                proof {
                    assert(false);
                }
                Group::from_one_based(1, 4).unwrap()
            },
        };
        let r = MockBackendBuilder { initial_group: g, outputs: Vec::new() };
        proof {
            assert(outputs_view(r.outputs@) =~= Seq::<OutputView>::empty());
        }
        r
    }

    /// Starts in group `g`.
    pub fn with_group(self, g: Group) -> (r: Self)
        ensures
            r.spec_group() == g,
            r.spec_outputs() == self.spec_outputs(),
    {
        MockBackendBuilder { initial_group: g, outputs: self.outputs }
    }

    /// Reports `outputs`.
    pub fn with_outputs(self, outputs: Vec<Output>) -> (r: Self)
        ensures
            r.spec_group() == self.spec_group(),
            r.spec_outputs() == outputs_view(outputs@),
    {
        MockBackendBuilder { initial_group: self.initial_group, outputs }
    }

    /// The initial group and outputs, for building the backend.
    pub fn into_parts(self) -> (r: (Group, Vec<Output>))
        ensures
            r.0 == self.spec_group(),
            outputs_view(r.1@) == self.spec_outputs(),
    {
        (self.initial_group, self.outputs)
    }
}

impl Default for MockBackendBuilder {
    fn default() -> (r: Self)
        ensures
            r.spec_group() == Group::spec_from_index(0),
            r.spec_outputs() == Seq::<OutputView>::empty(),
    {
        MockBackendBuilder::new()
    }
}

} // verus!
