//! Multi-monitor bookkeeping.
//!
//! Indicator positions are stored keyed by RandR **output name** (e.g.
//! `DP-1`, `HDMI-1`), not by index: unplugging and replugging a monitor
//! restores its indicator position, reordering monitors does not move
//! flags, and a brand-new output gets a default position at its
//! bottom-right corner with a small inset.

use indexmap::IndexMap;
use vstd::prelude::*;

use crate::geometry::{Point, Rect};
use crate::ordered_map::{
    entries_insert, entries_lookup, position_entries, positions_get, positions_insert,
};

verus! {

/// Stable name of a RandR output.
#[derive(Debug, Clone, Hash)]
pub struct OutputName(pub String);

impl PartialEq for OutputName {
    fn eq(&self, other: &Self) -> (r: bool) {
        self.0 == other.0
    }
}

impl vstd::std_specs::cmp::PartialEqSpecImpl for OutputName {
    open spec fn obeys_eq_spec() -> bool {
        true
    }

    open spec fn eq_spec(&self, other: &Self) -> bool {
        self.0@ == other.0@
    }
}

impl Eq for OutputName {}

impl From<String> for OutputName {
    fn from(s: String) -> (r: Self) {
        OutputName(s)
    }
}

impl vstd::std_specs::convert::FromSpecImpl<String> for OutputName {
    open spec fn obeys_from_spec() -> bool {
        true
    }

    open spec fn from_spec(s: String) -> Self {
        OutputName(s)
    }
}

impl From<&str> for OutputName {
    fn from(s: &str) -> (r: Self) {
        OutputName(s.to_string())
    }
}

impl vstd::std_specs::convert::FromSpecImpl<&str> for OutputName {
    open spec fn obeys_from_spec() -> bool {
        false
    }

    open spec fn from_spec(s: &str) -> Self {
        OutputName(vstd::pervasive::arbitrary())
    }
}

/// Snapshot of a single monitor as reported by RandR.
#[derive(Debug, Clone)]
pub struct Output {
    /// Stable name (used as the persistence key).
    pub name: OutputName,
    /// Geometry in root coordinates.
    pub geometry: Rect,
    /// True for the RandR primary output.
    pub is_primary: bool,
    /// True if this output is currently connected and active.
    pub is_active: bool,
}

/// Abstract value of an [`Output`].
pub struct OutputView {
    /// Output name.
    pub name: Seq<char>,
    /// Geometry in root coordinates.
    pub geometry: Rect,
    /// True for the RandR primary output.
    pub is_primary: bool,
    /// True if connected and active.
    pub is_active: bool,
}

impl View for Output {
    type V = OutputView;

    open spec fn view(&self) -> OutputView {
        OutputView {
            name: self.name.0@,
            geometry: self.geometry,
            is_primary: self.is_primary,
            is_active: self.is_active,
        }
    }
}

impl PartialEq for Output {
    fn eq(&self, other: &Self) -> (r: bool) {
        self.name.0 == other.name.0 && self.geometry == other.geometry && self.is_primary
            == other.is_primary && self.is_active == other.is_active
    }
}

impl vstd::std_specs::cmp::PartialEqSpecImpl for Output {
    open spec fn obeys_eq_spec() -> bool {
        true
    }

    open spec fn eq_spec(&self, other: &Self) -> bool {
        self@ == other@
    }
}

impl Eq for Output {}

/// A copy of `o` (names are strings, so this is a deep copy).
pub fn clone_output(o: &Output) -> (r: Output)
    ensures
        r@ == o@,
{
    Output {
        name: OutputName(o.name.0.clone()),
        geometry: o.geometry,
        is_primary: o.is_primary,
        is_active: o.is_active,
    }
}

/// Index of the first output at or after `start` for which `p` holds, or -1.
pub open spec fn first_output_from(s: Seq<OutputView>, p: spec_fn(OutputView) -> bool, start: int) -> int
    decreases s.len() - start,
{
    if start < 0 || start >= s.len() {
        -1
    } else if p(s[start]) {
        start
    } else {
        first_output_from(s, p, start + 1)
    }
}

/// What [`first_output_from`] finds.
pub proof fn lemma_first_output_from(s: Seq<OutputView>, p: spec_fn(OutputView) -> bool, start: int)
    requires
        0 <= start,
    ensures
        ({
            let r = first_output_from(s, p, start);
            &&& -1 <= r < s.len()
            &&& r >= 0 ==> start <= r && p(s[r])
            &&& r >= 0 ==> forall|j: int| start <= j < r ==> !p(s[j])
            &&& r < 0 ==> forall|j: int| start <= j < s.len() ==> !p(s[j])
        }),
    decreases s.len() - start,
{
    if start < s.len() && !p(s[start]) {
        lemma_first_output_from(s, p, start + 1);
    }
}

/// The output at the first index satisfying `p`, if any.
pub open spec fn first_output(s: Seq<OutputView>, p: spec_fn(OutputView) -> bool) -> Option<OutputView> {
    let i = first_output_from(s, p, 0);
    if i >= 0 {
        Some(s[i])
    } else {
        None
    }
}

/// Views of a vector of outputs.
pub open spec fn outputs_view(v: Seq<Output>) -> Seq<OutputView> {
    v.map_values(|o: Output| o@)
}

/// Is this output the active primary one?
pub open spec fn is_active_primary() -> spec_fn(OutputView) -> bool {
    |o: OutputView| o.is_primary && o.is_active
}

/// Is this output active?
pub open spec fn is_active() -> spec_fn(OutputView) -> bool {
    |o: OutputView| o.is_active
}

/// Is this output active and does it contain `p`?
pub open spec fn active_containing(p: Point) -> spec_fn(OutputView) -> bool {
    |o: OutputView| o.is_active && o.geometry.spec_contains(p)
}

/// The 16-pixel inset of the default position.
pub const DEFAULT_INSET: i32 = 16;

/// Default indicator position on an output of geometry `g`:
/// bottom-right, minus the indicator size and the inset.
pub open spec fn spec_default_position(g: Rect, indicator_size: u32) -> (int, int) {
    let s: int = if indicator_size <= i32::MAX {
        indicator_size as int
    } else {
        48
    };
    (g.origin.x + g.width - s - DEFAULT_INSET, g.origin.y + g.height - s - DEFAULT_INSET)
}

/// Inputs for which the default position stays within `i32`.
pub open spec fn default_position_fits(g: Rect, indicator_size: u32) -> bool {
    let p = spec_default_position(g, indicator_size);
    let s: int = if indicator_size <= i32::MAX {
        indicator_size as int
    } else {
        48
    };
    &&& g.edges_fit()
    &&& i32::MIN <= g.origin.x + g.width - s
    &&& i32::MIN <= g.origin.y + g.height - s
    &&& i32::MIN <= p.0
    &&& i32::MIN <= p.1
}

/// Whether the default position of an indicator of side `indicator_size`
/// on an output of geometry `g` stays within `i32`: exactly
/// [`default_position_fits`], computed in 64 bits.
pub fn default_position_fits_check(g: Rect, indicator_size: u32) -> (r: bool)
    ensures
        r == default_position_fits(g, indicator_size),
{
    let s: i64 = if indicator_size <= 2147483647u32 {
        indicator_size as i64
    } else {
        48
    };
    let w = g.width as i64;
    let h = g.height as i64;
    let x = g.origin.x as i64;
    let y = g.origin.y as i64;
    let hi: i64 = 2147483647i64;
    let lo: i64 = -2147483648i64;
    let inset = DEFAULT_INSET as i64;
    w <= hi && h <= hi && x + w <= hi && y + h <= hi && lo <= x + w - s && lo <= y + h - s && lo
        <= x + w - s - inset && lo <= y + h - s - inset
}

/// Abstract contents of a [`MonitorLayout`].
pub struct MonitorModel {
    /// Saved positions, by output name, in insertion order.
    pub saved: Seq<(Seq<char>, Point)>,
    /// Outputs RandR reported last.
    pub current: Seq<OutputView>,
}

/// Persisted indicator positions plus the live set of outputs.
#[derive(Debug)]
pub struct MonitorLayout {
    saved_positions: IndexMap<String, Point>,
    current: Vec<Output>,
}

/// The virtual output that stands for the whole screen.
pub open spec fn screen_output(width: u16, height: u16) -> OutputView {
    OutputView {
        name: "screen"@,
        geometry: Rect { origin: Point { x: 0, y: 0 }, width: width as u32, height: height as u32 },
        is_primary: true,
        is_active: true,
    }
}

/// The outputs RandR reported; when none of them is active (as under
/// Xvfb, whose outputs may have no CRTC), followed by a virtual
/// `screen` output covering the root window.
pub fn with_screen_fallback(outputs: Vec<Output>, screen_width: u16, screen_height: u16) -> (r: Vec<
    Output,
>)
    ensures
        (exists|i: int| 0 <= i < outputs@.len() && #[trigger] outputs@[i].is_active) ==> outputs_view(
            r@,
        ) == outputs_view(outputs@),
        !(exists|i: int| 0 <= i < outputs@.len() && #[trigger] outputs@[i].is_active)
            ==> outputs_view(r@) == outputs_view(outputs@).push(
            screen_output(screen_width, screen_height),
        ),
{
    let n = outputs.len();
    let mut any = false;
    let mut i: usize = 0;
    while i < n
        invariant
            n == outputs@.len(),
            i <= n,
            any <==> exists|j: int| 0 <= j < i && #[trigger] outputs@[j].is_active,
        decreases n - i,
    {
        if outputs[i].is_active {
            any = true;
        }
        i += 1;
    }
    if any {
        return outputs;
    }
    let mut r = outputs;
    let ghost before = r@;
    r.push(
        Output {
            name: OutputName("screen".to_owned()),
            geometry: Rect::new(0, 0, screen_width as u32, screen_height as u32),
            is_primary: true,
            is_active: true,
        },
    );
    proof {
        assert(outputs_view(r@) =~= outputs_view(before).push(screen_output(screen_width, screen_height)));
    }
    r
}

/// A copy of a vector of outputs.
pub fn clone_outputs(v: &Vec<Output>) -> (r: Vec<Output>)
    ensures
        outputs_view(r@) == outputs_view(v@),
{
    let mut r: Vec<Output> = Vec::new();
    for i in 0..v.len()
        invariant
            r@.len() == i,
            forall|k: int| 0 <= k < i ==> #[trigger] r@[k]@ == v@[k]@,
    {
        r.push(clone_output(&v[i]));
    }
    proof {
        assert(outputs_view(r@) =~= outputs_view(v@));
    }
    r
}

impl Clone for MonitorLayout {
    fn clone(&self) -> (r: Self)
        ensures
            r@ == self@,
    {
        MonitorLayout {
            saved_positions: crate::ordered_map::positions_clone(&self.saved_positions),
            current: clone_outputs(&self.current),
        }
    }
}

impl Default for MonitorLayout {
    fn default() -> (r: Self)
        ensures
            r@.saved == Seq::<(Seq<char>, Point)>::empty(),
            r@.current == Seq::<OutputView>::empty(),
    {
        MonitorLayout::new(crate::ordered_map::positions_new())
    }
}

impl View for MonitorLayout {
    type V = MonitorModel;

    closed spec fn view(&self) -> MonitorModel {
        MonitorModel {
            saved: position_entries(self.saved_positions),
            current: outputs_view(self.current@),
        }
    }
}

impl MonitorLayout {
    /// Build with the given saved positions and no outputs known yet.
    pub fn new(saved_positions: IndexMap<String, Point>) -> (r: Self)
        ensures
            r@.saved == position_entries(saved_positions),
            r@.current == Seq::<OutputView>::empty(),
    {
        let r = MonitorLayout { saved_positions, current: Vec::new() };
        proof {
            assert(outputs_view(r.current@) =~= Seq::<OutputView>::empty());
        }
        r
    }

    /// Replace the live view with what RandR reports now.
    pub fn update_outputs(&mut self, outputs: Vec<Output>)
        ensures
            final(self)@.saved == old(self)@.saved,
            final(self)@.current == outputs_view(outputs@),
    {
        self.current = outputs;
    }

    /// The active outputs, in RandR order.
    pub fn active(&self) -> (r: Vec<Output>)
        ensures
            outputs_view(r@) == self@.current.filter(is_active()),
    {
        let mut r: Vec<Output> = Vec::new();
        let n = self.current.len();
        let ghost cur = self@.current;
        let ghost pred = is_active();
        for i in 0..n
            invariant
                n == self.current@.len(),
                cur == outputs_view(self.current@),
                pred == is_active(),
                outputs_view(r@) == cur.take(i as int).filter(pred),
        {
            let ghost old_r = r@;
            proof {
                reveal_with_fuel(Seq::<OutputView>::filter, 1);
                assert(cur.take(i + 1).drop_last() =~= cur.take(i as int));
                assert(cur.take(i + 1).last() == self.current@[i as int]@);
            }
            if self.current[i].is_active {
                r.push(clone_output(&self.current[i]));
                proof {
                    assert(outputs_view(r@) =~= outputs_view(old_r).push(self.current@[i as int]@));
                }
            }
            proof {
                assert(outputs_view(r@) =~= cur.take(i + 1).filter(pred));
            }
        }
        proof {
            assert(cur.take(n as int) =~= cur);
        }
        r
    }

    /// The active primary output, if any (the first one RandR lists).
    pub fn primary(&self) -> (r: Option<&Output>)
        ensures
            match r {
                Some(o) => first_output(self@.current, is_active_primary()) == Some(o@),
                None => first_output(self@.current, is_active_primary()) is None,
            },
    {
        let ghost p = is_active_primary();
        let n = self.current.len();
        for i in 0..n
            invariant
                n == self.current@.len(),
                p == is_active_primary(),
                first_output_from(self@.current, p, 0) == first_output_from(self@.current, p, i as int),
        {
            assert(self@.current[i as int] == self.current@[i as int]@);
            if self.current[i].is_primary && self.current[i].is_active {
                return Some(&self.current[i]);
            }
        }
        None
    }

    /// Where to draw the indicator on `output`: the saved position for
    /// its name, otherwise the default bottom-right position.
    pub fn position_for(&self, output: &Output, indicator_size: u32) -> (r: Point)
        requires
            entries_lookup(self@.saved, output.name.0@) is None ==> default_position_fits(
                output.geometry,
                indicator_size,
            ),
        ensures
            r == match entries_lookup(self@.saved, output.name.0@) {
                Some(p) => p,
                None => Point {
                    x: spec_default_position(output.geometry, indicator_size).0 as i32,
                    y: spec_default_position(output.geometry, indicator_size).1 as i32,
                },
            },
    {
        match positions_get(&self.saved_positions, output.name.0.as_str()) {
            Some(p) => p,
            None => Self::default_position(output, indicator_size),
        }
    }

    /// Default placement: bottom-right with a 16-pixel inset.
    pub fn default_position(output: &Output, indicator_size: u32) -> (r: Point)
        requires
            default_position_fits(output.geometry, indicator_size),
        ensures
            r.x == spec_default_position(output.geometry, indicator_size).0,
            r.y == spec_default_position(output.geometry, indicator_size).1,
    {
        let inset: i32 = DEFAULT_INSET;
        let s = crate::geometry::u32_to_i32_or(indicator_size, 48);
        Point::new(
            output.geometry.right() - s - inset,
            output.geometry.bottom() - s - inset,
        )
    }

    /// Persist a new indicator position (e.g. after a drag-and-save).
    pub fn save_position(&mut self, name: OutputName, p: Point)
        ensures
            final(self)@.saved == entries_insert(old(self)@.saved, name.0@, p),
            final(self)@.current == old(self)@.current,
    {
        positions_insert(&mut self.saved_positions, name.0, p);
    }

    /// Read-only access to all saved positions.
    pub fn saved(&self) -> (r: &IndexMap<String, Point>)
        ensures
            position_entries(*r) == self@.saved,
    {
        &self.saved_positions
    }

    /// The first active output containing root-coordinate point `p`.
    pub fn output_at(&self, p: Point) -> (r: Option<&Output>)
        requires
            forall|i: int| 0 <= i < self@.current.len() ==> #[trigger] self@.current[i].geometry.edges_fit(),
        ensures
            match r {
                Some(o) => first_output(self@.current, active_containing(p)) == Some(o@),
                None => first_output(self@.current, active_containing(p)) is None,
            },
    {
        let ghost pr = active_containing(p);
        let n = self.current.len();
        for i in 0..n
            invariant
                n == self.current@.len(),
                pr == active_containing(p),
                forall|k: int| 0 <= k < self@.current.len() ==> #[trigger] self@.current[k].geometry.edges_fit(),
                first_output_from(self@.current, pr, 0) == first_output_from(self@.current, pr, i as int),
        {
            assert(self@.current[i as int] == self.current@[i as int]@);
            assert(self@.current[i as int].geometry.edges_fit());
            if self.current[i].is_active && self.current[i].geometry.contains(p) {
                return Some(&self.current[i]);
            }
        }
        None
    }
}

/// A saved position takes precedence: after saving `p` for an output
/// name, the position used on an output of that name is `p`, whatever
/// outputs come and go (unplugging and replugging keeps it).
pub proof fn lemma_saved_position_wins(m: MonitorModel, name: Seq<char>, p: Point, outputs: Seq<OutputView>)
    ensures
        entries_lookup(entries_insert(m.saved, name, p), name) == Some(p),
        ({
            let after = MonitorModel { saved: entries_insert(m.saved, name, p), current: outputs };
            entries_lookup(after.saved, name) == Some(p)
        }),
{
    crate::ordered_map::lemma_insert_then_lookup(m.saved, name, p);
}

} // verus!
