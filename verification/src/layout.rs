//! Keyboard layout (XKB group) state machine.
//!
//! The X server keeps an *effective group* between 0 and 3 inclusive.
//! [`Group`] is internally 0-based but presented to users 1-based
//! (matching the legacy `XXkb.group.base` / `XXkb.group.alt` keys).

use vstd::prelude::*;

verus! {

/// Errors of the (rare) core operations that can fail.
#[derive(Debug, Clone)]
pub enum CoreError {
    /// A group index outside `1..=max` was supplied.
    GroupOutOfRange {
        /// The offending value (1-based).
        given: u8,
        /// The maximum group configured.
        max: u8,
    },
    /// A glob pattern of an application rule failed to compile.
    BadGlob {
        /// The pattern as supplied by the user.
        pattern: String,
        /// Why `globset` rejected it.
        reason: String,
    },
}

/// A 0-based XKB group in `0..max_groups`.
#[derive(Debug, Clone, Copy, PartialEq, Eq, Structural, Hash)]
pub struct Group(u8);

impl Group {
    /// Every group index leaves room for its 1-based form in a `u8`.
    #[verifier::type_invariant]
    closed spec fn inv(self) -> bool {
        self.0 < 255
    }
}

impl View for Group {
    type V = u8;

    closed spec fn view(&self) -> u8 {
        self.0
    }
}

/// Two groups are the same exactly when their indices are.
pub broadcast proof fn lemma_group_view_injective(a: Group, b: Group)
    ensures
        #[trigger] a@ == #[trigger] b@ <==> a == b,
{
}

impl Group {
    /// Build from a raw 0-based index, which must lie in `0..max_groups`;
    /// otherwise the error names the index 1-based (255 stays 255, as
    /// its 1-based form does not fit a `u8`).
    pub fn new(idx: u8, max_groups: u8) -> (r: Result<Self, CoreError>)
        ensures
            idx < max_groups ==> r == Ok::<Group, CoreError>(Group::spec_from_index(idx)),
            idx >= max_groups ==> r == Err::<Group, CoreError>(
                CoreError::GroupOutOfRange {
                    given: if idx < 255 {
                        (idx + 1) as u8
                    } else {
                        255u8
                    },
                    max: max_groups,
                },
            ),
    {
        if idx >= max_groups {
            let given: u8 = if idx < 255 {
                idx + 1
            } else {
                255
            };
            return Err(CoreError::GroupOutOfRange { given, max: max_groups });
        }
        Ok(Group(idx))
    }

    /// The group with the given 0-based index.
    pub closed spec fn spec_from_index(idx: u8) -> Group {
        Group(idx)
    }

    /// Build from a 1-based index (matching legacy config files).
    pub fn from_one_based(one_based: u8, max_groups: u8) -> (r: Result<Self, CoreError>)
        ensures
            1 <= one_based <= max_groups ==> r == Ok::<Group, CoreError>(
                Group::spec_from_index((one_based - 1) as u8),
            ),
            !(1 <= one_based <= max_groups) ==> r == Err::<Group, CoreError>(
                CoreError::GroupOutOfRange { given: one_based, max: max_groups },
            ),
    {
        if one_based == 0 || one_based > max_groups {
            return Err(CoreError::GroupOutOfRange { given: one_based, max: max_groups });
        }
        Ok(Group(one_based - 1))
    }

    /// 0-based index, suitable for the X server.
    pub fn as_index(self) -> (r: u8)
        ensures
            r == self@,
    {
        self.0
    }

    /// 1-based index, suitable for display and config files.
    pub fn as_one_based(self) -> (r: u8)
        ensures
            r == self@ + 1,
    {
        proof {
            use_type_invariant(&self);
        }
        self.0 + 1
    }
}

/// The view of a group built from an index is that index.
pub broadcast proof fn lemma_from_index_view(idx: u8)
    ensures
        #[trigger] Group::spec_from_index(idx)@ == idx,
{
}


/// Two-state mode configuration: when enabled only `base` and `alt` are
/// cycled through.
#[derive(Debug, Clone, Copy, PartialEq, Eq, Structural)]
pub struct TwoStateConfig {
    /// Master switch.
    pub enabled: bool,
    /// Primary group (typically the Latin layout).
    pub base: Group,
    /// Alternative group.
    pub alt: Group,
}

impl TwoStateConfig {
    /// The default: disabled, base = first group, alt = second group.
    pub open spec fn spec_default() -> TwoStateConfig {
        TwoStateConfig {
            enabled: false,
            base: Group::spec_from_index(0),
            alt: Group::spec_from_index(1),
        }
    }
}

impl Default for TwoStateConfig {
    fn default() -> (r: Self)
        ensures
            r == TwoStateConfig::spec_default(),
    {
        TwoStateConfig { enabled: false, base: Group(0), alt: Group(1) }
    }
}

/// How a layout switch was initiated.
#[derive(Debug, Clone, Copy, PartialEq, Eq, Structural)]
pub enum SwitchKind {
    /// User pressed the layout switch hotkey.
    Keyboard,
    /// User clicked one of our indicators.
    Click,
    /// Programmatic switch on focus change.
    Auto,
    /// Initial state at startup.
    Initial,
}

/// Abstract contents of a [`LayoutState`].
#[derive(Debug, Clone, Copy, PartialEq, Eq, Structural)]
pub struct LayoutModel {
    /// How many groups the X server reported (at least one).
    pub max_groups: u8,
    /// Current group.
    pub current: Group,
    /// Previously active group.
    pub previous: Group,
    /// Two-state configuration.
    pub two_state: TwoStateConfig,
}

/// Mutable keyboard state owned by the daemon.
#[derive(Debug)]
pub struct LayoutState {
    max_groups: u8,
    current: Group,
    previous: Group,
    two_state: TwoStateConfig,
}

impl Clone for LayoutState {
    fn clone(&self) -> (r: Self)
        ensures
            r@ == self@,
    {
        proof {
            use_type_invariant(self);
        }
        LayoutState {
            max_groups: self.max_groups,
            current: self.current,
            previous: self.previous,
            two_state: self.two_state,
        }
    }
}

impl View for LayoutState {
    type V = LayoutModel;

    closed spec fn view(&self) -> LayoutModel {
        LayoutModel {
            max_groups: self.max_groups,
            current: self.current,
            previous: self.previous,
            two_state: self.two_state,
        }
    }
}

/// The group a "cycle" command moves to from state `m`.
pub open spec fn spec_next_cycle(m: LayoutModel) -> Group {
    if m.two_state.enabled {
        if m.current == m.two_state.base {
            m.two_state.alt
        } else {
            m.two_state.base
        }
    } else {
        Group::spec_from_index(((m.current@ + 1) % (m.max_groups as int)) as u8)
    }
}

/// The group a reverse "cycle" command moves to from state `m`.
pub open spec fn spec_prev_cycle(m: LayoutModel) -> Group {
    if m.two_state.enabled {
        spec_next_cycle(m)
    } else if m.current@ == 0 {
        Group::spec_from_index((m.max_groups - 1) as u8)
    } else {
        Group::spec_from_index((m.current@ - 1) as u8)
    }
}

/// The state after observing group `g` from the X server.
pub open spec fn spec_observe(m: LayoutModel, g: Group) -> LayoutModel {
    if g != m.current {
        LayoutModel { previous: m.current, current: g, ..m }
    } else {
        m
    }
}

impl LayoutState {
    /// Build a fresh state; `max_groups` is raised to at least one.
    pub fn new(max_groups: u8, initial: Group, two_state: TwoStateConfig) -> (r: Self)
        ensures
            r@ == (LayoutModel {
                max_groups: if max_groups >= 1 { max_groups } else { 1 },
                current: initial,
                previous: initial,
                two_state,
            }),
    {
        LayoutState {
            max_groups: if max_groups >= 1 { max_groups } else { 1 },
            current: initial,
            previous: initial,
            two_state,
        }
    }

    /// Every state knows at least one group.
    #[verifier::type_invariant]
    closed spec fn inv(self) -> bool {
        self.max_groups >= 1
    }

    /// How many groups the X server reported.
    pub fn max_groups(&self) -> (r: u8)
        ensures
            r == self@.max_groups,
            r >= 1,
    {
        proof {
            use_type_invariant(self);
        }
        self.max_groups
    }

    /// Current group.
    pub fn current(&self) -> (r: Group)
        ensures
            r == self@.current,
    {
        self.current
    }

    /// Previously active group (for "toggle to previous").
    pub fn previous(&self) -> (r: Group)
        ensures
            r == self@.previous,
    {
        self.previous
    }

    /// The two-state configuration.
    pub fn two_state(&self) -> (r: TwoStateConfig)
        ensures
            r == self@.two_state,
    {
        self.two_state
    }

    /// Replace the two-state configuration.
    pub fn set_two_state(&mut self, ts: TwoStateConfig)
        ensures
            final(self)@ == (LayoutModel { two_state: ts, ..old(self)@ }),
    {
        proof {
            use_type_invariant(&*self);
        }
        self.two_state = ts;
    }

    /// Apply a group change observed from the X server: `previous` only
    /// moves when the group actually changed.
    pub fn observe(&mut self, group: Group)
        ensures
            final(self)@ == spec_observe(old(self)@, group),
    {
        proof {
            use_type_invariant(&*self);
        }
        if group != self.current {
            self.previous = self.current;
            self.current = group;
        }
    }

    /// The next group for a "cycle" command: toggles `base`/`alt` in
    /// two-state mode, otherwise walks every group `0..max_groups`.
    pub fn next_cycle(&self) -> (r: Group)
        ensures
            r == spec_next_cycle(self@),
    {
        proof {
            use_type_invariant(self);
            use_type_invariant(&self.current);
        }
        if self.two_state.enabled {
            if self.current == self.two_state.base {
                self.two_state.alt
            } else {
                self.two_state.base
            }
        } else {
            let next_idx = (self.current.0 + 1) % self.max_groups;
            Group(next_idx)
        }
    }

    /// The previous group for a reverse "cycle" command.
    pub fn prev_cycle(&self) -> (r: Group)
        ensures
            r == spec_prev_cycle(self@),
    {
        proof {
            use_type_invariant(self);
        }
        if self.two_state.enabled {
            self.next_cycle()
        } else {
            let max = self.max_groups;
            let cur = self.current.0;
            let next_idx = if cur == 0 {
                max - 1
            } else {
                cur - 1
            };
            Group(next_idx)
        }
    }
}

/// Cycling without two-state mode always lands on a group the X server
/// knows (`0..max_groups`), in both directions.
pub proof fn lemma_cycle_stays_in_range(m: LayoutModel)
    requires
        m.max_groups >= 1,
        !m.two_state.enabled,
        m.current@ < 255,
    ensures
        spec_next_cycle(m)@ < m.max_groups,
        m.current@ < m.max_groups ==> spec_prev_cycle(m)@ < m.max_groups,
{
    broadcast use lemma_from_index_view;
}

/// In two-state mode the cycle only ever yields `base` or `alt`: from
/// `base` it goes to `alt`, from anywhere else back to `base`, and the
/// reverse direction agrees.
pub proof fn lemma_two_state_toggles(m: LayoutModel)
    requires
        m.two_state.enabled,
    ensures
        spec_next_cycle(m) == m.two_state.base || spec_next_cycle(m) == m.two_state.alt,
        m.current == m.two_state.base ==> spec_next_cycle(m) == m.two_state.alt,
        m.current != m.two_state.base ==> spec_next_cycle(m) == m.two_state.base,
        spec_prev_cycle(m) == spec_next_cycle(m),
{
}

/// Without two-state mode, stepping back after stepping forward returns
/// to the group we started from (for a group the server knows).
pub proof fn lemma_prev_undoes_next(m: LayoutModel)
    requires
        m.max_groups >= 1,
        !m.two_state.enabled,
        m.current@ < m.max_groups,
    ensures
        spec_prev_cycle(spec_observe(m, spec_next_cycle(m))) == m.current,
        spec_next_cycle(spec_observe(m, spec_prev_cycle(m))) == m.current,
{
    broadcast use lemma_from_index_view, lemma_group_view_injective;

    let c = m.current@ as int;
    let mx = m.max_groups as int;
    if c + 1 < mx {
        vstd::arithmetic::div_mod::lemma_small_mod((c + 1) as nat, mx as nat);
    } else {
        vstd::arithmetic::div_mod::lemma_mod_self_0(mx);
    }
    if c >= 1 {
        vstd::arithmetic::div_mod::lemma_small_mod(c as nat, mx as nat);
    } else {
        vstd::arithmetic::div_mod::lemma_mod_self_0(mx);
    }
    let n = spec_next_cycle(m);
    let m1 = spec_observe(m, n);
    assert(m1.current == n);
    let p = spec_prev_cycle(m);
    let m2 = spec_observe(m, p);
    assert(m2.current == p);
    assert(spec_prev_cycle(m1)@ == m.current@);
    assert(spec_next_cycle(m2)@ == m.current@);
}

/// Observing a group twice is the same as observing it once, and
/// observing the current group changes nothing.
pub proof fn lemma_observe_idempotent(m: LayoutModel, g: Group)
    ensures
        spec_observe(spec_observe(m, g), g) == spec_observe(m, g),
        spec_observe(m, m.current) == m,
        spec_observe(m, g).current == g,
{
}

} // verus!
