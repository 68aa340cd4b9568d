//! Per-window remembered layout.
//!
//! xxkb remembers the current layout of each application window and
//! switches back to it when that window receives focus again. This is a
//! map keyed by the X11 window id; all eviction and forgetting is
//! explicit.

use std::collections::HashMap;
use vstd::std_specs::iter::IteratorSpec;
use vstd::prelude::*;

use crate::layout::Group;

verus! {

broadcast use vstd::std_specs::hash::group_hash_axioms;

/// Opaque X11 window id.
#[derive(Debug, Clone, Copy, PartialEq, Eq, Structural, Hash)]
pub struct WindowId(pub u32);

impl From<u32> for WindowId {
    fn from(v: u32) -> (r: Self) {
        WindowId(v)
    }
}

impl vstd::std_specs::convert::FromSpecImpl<u32> for WindowId {
    open spec fn obeys_from_spec() -> bool {
        true
    }

    open spec fn from_spec(v: u32) -> Self {
        WindowId(v)
    }
}

/// What we remember per window.
#[derive(Debug, Clone, Copy, PartialEq, Eq, Structural)]
pub struct RememberedLayout {
    /// The group to restore when this window receives focus again.
    pub group: Group,
    /// Whether the user excluded this window from layout restoring
    /// (legacy `XXkb.controls.button_delete_and_forget`).
    pub forgotten: bool,
}

/// The window registry.
#[derive(Debug)]
pub struct WindowRegistry {
    inner: HashMap<u32, RememberedLayout>,
}

impl View for WindowRegistry {
    type V = Map<u32, RememberedLayout>;

    closed spec fn view(&self) -> Map<u32, RememberedLayout> {
        self.inner@
    }
}

/// The group restored for window `wid`: none when unseen or forgotten.
pub open spec fn spec_lookup(m: Map<u32, RememberedLayout>, wid: WindowId) -> Option<Group> {
    if m.contains_key(wid.0) && !m[wid.0].forgotten {
        Some(m[wid.0].group)
    } else {
        None
    }
}

/// The registry after `forget(wid)`: a tracked window is flagged, an
/// unknown one stays unknown.
pub open spec fn spec_forget(m: Map<u32, RememberedLayout>, wid: WindowId) -> Map<u32, RememberedLayout> {
    if m.contains_key(wid.0) {
        m.insert(wid.0, RememberedLayout { forgotten: true, ..m[wid.0] })
    } else {
        m
    }
}

impl Clone for WindowRegistry {
    fn clone(&self) -> (r: Self)
        ensures
            r@ == self@,
    {
        WindowRegistry { inner: self.inner.clone() }
    }
}

impl Default for WindowRegistry {
    fn default() -> (r: Self)
        ensures
            r@ == Map::<u32, RememberedLayout>::empty(),
    {
        WindowRegistry { inner: HashMap::new() }
    }
}

impl WindowRegistry {
    /// Build an empty registry.
    pub fn new() -> (r: Self)
        ensures
            r@ == Map::<u32, RememberedLayout>::empty(),
    {
        WindowRegistry { inner: HashMap::new() }
    }

    /// Number of tracked windows (forgotten ones included).
    pub fn len(&self) -> (r: usize)
        ensures
            r == self@.len(),
            self@.dom().finite(),
    {
        proof {
            assert(self@.dom().finite());
        }
        self.inner.len()
    }

    /// True if no windows are tracked.
    pub fn is_empty(&self) -> (r: bool)
        ensures
            r == (self@.len() == 0),
    {
        proof {
            assert(self@.dom().finite());
            if self@.len() == 0 {
                assert(self@.dom() =~= Set::<u32>::empty());
            } else {
                assert(self@.dom() != Set::<u32>::empty());
            }
        }
        self.inner.is_empty()
    }

    /// Remember `group` for `wid`; a forgotten window is resurrected.
    pub fn remember(&mut self, wid: WindowId, group: Group)
        ensures
            final(self)@ == old(self)@.insert(wid.0, RememberedLayout { group, forgotten: false }),
            final(self)@.len() == old(self)@.len() + if old(self)@.contains_key(wid.0) {
                0int
            } else {
                1int
            },
    {
        proof {
            assert(old(self)@.dom().finite());
        }
        self.inner.insert(wid.0, RememberedLayout { group, forgotten: false });
    }

    /// The remembered layout (`None` if forgotten or unseen).
    pub fn get(&self, wid: WindowId) -> (r: Option<Group>)
        ensures
            r == spec_lookup(self@, wid),
    {
        match self.inner.get(&wid.0) {
            Some(r) => {
                if r.forgotten {
                    None
                } else {
                    Some(r.group)
                }
            },
            None => None,
        }
    }

    /// Stop tracking `wid` entirely.
    pub fn drop_window(&mut self, wid: WindowId)
        ensures
            final(self)@ == old(self)@.remove(wid.0),
            final(self)@.len() == old(self)@.len() - if old(self)@.contains_key(wid.0) {
                1int
            } else {
                0int
            },
    {
        proof {
            assert(old(self)@.dom().finite());
        }
        self.inner.remove(&wid.0);
    }

    /// Keep the window but flag it as "do not restore layout for it";
    /// a window that is not tracked stays untracked.
    pub fn forget(&mut self, wid: WindowId)
        ensures
            final(self)@ == spec_forget(old(self)@, wid),
            final(self)@.len() == old(self)@.len(),
    {
        proof {
            lemma_forget_hides_but_keeps(old(self)@, wid, wid);
        }
        match self.inner.get(&wid.0) {
            Some(r) => {
                let updated = RememberedLayout { group: r.group, forgotten: true };
                self.inner.insert(wid.0, updated);
            },
            None => {},
        }
    }

    /// Every `(window, remembered)` pair, each window once, in no
    /// particular order.
    pub fn iter(&self) -> (r: Vec<(WindowId, RememberedLayout)>)
        ensures
            r@.len() == self@.len(),
            forall|i: int|
                0 <= i < r@.len() ==> #[trigger] self@.contains_key(r@[i].0.0) && self@[r@[i].0.0]
                    == r@[i].1,
            forall|k: u32| #[trigger]
                self@.contains_key(k) ==> exists|i: int|
                    0 <= i < r@.len() && #[trigger] r@[i].0.0 == k,
            forall|i: int, j: int|
                0 <= i < j < r@.len() ==> #[trigger] r@[i].0 != #[trigger] r@[j].0,
    {
        let mut r: Vec<(WindowId, RememberedLayout)> = Vec::new();
        let ghost m = self@;
        let iter = self.inner.iter();
        let ghost v = iter.remaining();
        proof {
            assert(v.no_duplicates());
            assert(v == vstd::std_specs::hash::spec_hash_map_iter(&self.inner).remaining());
        }
        for pair in it: iter
            invariant
                r@.len() == it.index(),
                forall|i: int| 0 <= i < it.index() ==> #[trigger] r@[i] == (WindowId(*it.seq()[i].0), *it.seq()[i].1),
        {
            r.push((WindowId(*pair.0), *pair.1));
        }
        proof {
            assert forall|k: u32| #[trigger] self@.contains_key(k) implies exists|i: int|
                0 <= i < r@.len() && #[trigger] r@[i].0.0 == k by {
                assert(v.contains((&k, &m[k])));
                let i = choose|i: int| 0 <= i < v.len() && v[i] == (&k, &m[k]);
                assert(r@[i].0.0 == k);
            }
            assert forall|i: int, j: int| 0 <= i < j < r@.len() implies #[trigger] r@[i].0
                != #[trigger] r@[j].0 by {
                if r@[i].0 == r@[j].0 {
                    assert(m.contains_key(*v[i].0));
                    assert(m.contains_key(*v[j].0));
                    assert(v[i] == v[j]);
                }
            }
        }
        r
    }
}

/// A remembered group is what a lookup gives, even for a window that
/// was forgotten before.
pub proof fn lemma_remember_then_get(m: Map<u32, RememberedLayout>, wid: WindowId, g: Group)
    ensures
        spec_lookup(m.insert(wid.0, RememberedLayout { group: g, forgotten: false }), wid) == Some(
            g,
        ),
{
}

/// Forgetting hides a tracked window from lookups but keeps its entry,
/// and leaves every other window as it was.
pub proof fn lemma_forget_hides_but_keeps(m: Map<u32, RememberedLayout>, wid: WindowId, other: WindowId)
    ensures
        m.contains_key(wid.0) ==> spec_forget(m, wid).contains_key(wid.0),
        spec_lookup(spec_forget(m, wid), wid) is None,
        spec_forget(m, wid).len() == m.len(),
        other.0 != wid.0 ==> spec_lookup(spec_forget(m, wid), other) == spec_lookup(m, other),
{
    if m.contains_key(wid.0) {
        assert(spec_forget(m, wid).dom() =~= m.dom());
    }
}

/// Dropping a window removes every trace of it.
pub proof fn lemma_drop_removes(m: Map<u32, RememberedLayout>, wid: WindowId)
    ensures
        !m.remove(wid.0).contains_key(wid.0),
        spec_lookup(m.remove(wid.0), wid) is None,
{
}

} // verus!
