//! The D-Bus contract of the daemon, `org.xxkb.Daemon1` on the session
//! bus: names, and the plain records sent over the wire.
//!
//! Methods: `Reload`, `GetMonitors` (`a(siiuubb)`), `GetActiveWindows`
//! (`a(usss)`), `SaveCurrentPositions` (`a{s(ii)}`), `Version`, `Ping`.
//! Signals: `LayoutChanged(group_one_based: u8, wid: u32)`,
//! `Reloaded(ok: bool)`, `PositionsSaved(count: u32)`.

use vstd::prelude::*;

use crate::monitors::Output;
use crate::registry::WindowId;
use crate::rules::WindowProps;

verus! {

/// Well-known bus name.
pub const DAEMON_BUS: &'static str = "org.xxkb.Daemon1";

/// Object path of the service.
pub const DAEMON_PATH: &'static str = "/org/xxkb/Daemon1";

/// Interface name.
pub const DAEMON_IFACE: &'static str = "org.xxkb.Daemon1";

/// An output, as sent over the bus.
#[derive(Debug, Clone)]
pub struct WireOutput {
    /// RandR output name (e.g. `DP-1`).
    pub name: String,
    /// X coordinate of the top-left corner.
    pub x: i32,
    /// Y coordinate of the top-left corner.
    pub y: i32,
    /// Width in pixels.
    pub width: u32,
    /// Height in pixels.
    pub height: u32,
    /// Whether RandR marks it primary.
    pub is_primary: bool,
    /// Whether it has a CRTC attached.
    pub is_active: bool,
}

impl PartialEq for WireOutput {
    fn eq(&self, other: &Self) -> (r: bool) {
        self.name == other.name && self.x == other.x && self.y == other.y && self.width
            == other.width && self.height == other.height && self.is_primary == other.is_primary
            && self.is_active == other.is_active
    }
}

impl vstd::std_specs::cmp::PartialEqSpecImpl for WireOutput {
    open spec fn obeys_eq_spec() -> bool {
        true
    }

    open spec fn eq_spec(&self, other: &Self) -> bool {
        &&& self.name@ == other.name@
        &&& self.x == other.x
        &&& self.y == other.y
        &&& self.width == other.width
        &&& self.height == other.height
        &&& self.is_primary == other.is_primary
        &&& self.is_active == other.is_active
    }
}

impl Eq for WireOutput {}

impl WireOutput {
    /// The wire form of an output.
    pub fn from_output(o: &Output) -> (r: Self)
        ensures
            r.name@ == o.name.0@,
            r.x == o.geometry.origin.x,
            r.y == o.geometry.origin.y,
            r.width == o.geometry.width,
            r.height == o.geometry.height,
            r.is_primary == o.is_primary,
            r.is_active == o.is_active,
    {
        WireOutput {
            name: o.name.0.clone(),
            x: o.geometry.origin.x,
            y: o.geometry.origin.y,
            width: o.geometry.width,
            height: o.geometry.height,
            is_primary: o.is_primary,
            is_active: o.is_active,
        }
    }
}

/// A tracked window, as sent over the bus.
#[derive(Debug, Clone)]
pub struct WireWindow {
    /// X window id.
    pub wid: u32,
    /// `WM_CLASS` class part.
    pub wm_class_class: String,
    /// `WM_CLASS` instance part.
    pub wm_class_name: String,
    /// Window title.
    pub wm_name: String,
}

impl PartialEq for WireWindow {
    fn eq(&self, other: &Self) -> (r: bool) {
        self.wid == other.wid && self.wm_class_class == other.wm_class_class && self.wm_class_name
            == other.wm_class_name && self.wm_name == other.wm_name
    }
}

impl vstd::std_specs::cmp::PartialEqSpecImpl for WireWindow {
    open spec fn obeys_eq_spec() -> bool {
        true
    }

    open spec fn eq_spec(&self, other: &Self) -> bool {
        &&& self.wid == other.wid
        &&& self.wm_class_class@ == other.wm_class_class@
        &&& self.wm_class_name@ == other.wm_class_name@
        &&& self.wm_name@ == other.wm_name@
    }
}

impl Eq for WireWindow {}

impl WireWindow {
    /// The wire form of a tracked window and its properties.
    pub fn from_props(wid: WindowId, props: &WindowProps) -> (r: Self)
        ensures
            r.wid == wid.0,
            r.wm_class_class@ == props.wm_class_class@,
            r.wm_class_name@ == props.wm_class_name@,
            r.wm_name@ == props.wm_name@,
    {
        WireWindow {
            wid: wid.0,
            wm_class_class: props.wm_class_class.clone(),
            wm_class_name: props.wm_class_name.clone(),
            wm_name: props.wm_name.clone(),
        }
    }
}

/// How many positions a `PositionsSaved` signal reports: the count,
/// saturated at `u32::MAX`.
pub fn positions_count(len: usize) -> (r: u32)
    ensures
        r == (if len <= u32::MAX {
            len as int
        } else {
            u32::MAX as int
        }),
{
    if len <= 0xffff_ffff {
        len as u32
    } else {
        0xffff_ffff
    }
}

} // verus!
