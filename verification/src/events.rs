//! Events the X11 backend reports to the daemon, and the decisions the
//! backend makes on raw input: interpreting pointer buttons, modifier
//! masks and window properties, and following a Ctrl-drag of an
//! indicator window.

use vstd::prelude::*;

use crate::geometry::{FrameExtents, Point, Rect};
use crate::layout::SwitchKind;
use crate::monitors::{Output, OutputName, OutputView};
use crate::registry::WindowId;
use crate::rules::WindowProps;
use crate::text::{chars_of, subvec, string_of, index_of_from, find_char_from, lemma_index_of_from};

verus! {

/// Geometry of a managed window in root coordinates, with the frame
/// extents the window manager reports.
#[derive(Debug, Clone, Copy, PartialEq, Eq, Structural)]
pub struct WindowGeom {
    /// Top-left of the client area.
    pub origin: Point,
    /// Client width in pixels.
    pub width: u32,
    /// Client height in pixels.
    pub height: u32,
    /// `_NET_FRAME_EXTENTS`; all zero when not advertised.
    pub frame: FrameExtents,
}

/// Mouse button of an indicator click.
#[derive(Debug, Clone, Copy, PartialEq, Eq, Structural)]
pub enum MouseButton {
    /// Primary button.
    Left,
    /// Middle button.
    Middle,
    /// Secondary button.
    Right,
}

/// Which indicator a click or drag was on.
#[derive(Debug, Clone)]
pub enum IndicatorTarget {
    /// A main indicator, by the name of its output.
    Main(String),
    /// The indicator over a managed window.
    Window(WindowId),
}

/// Abstract value of an [`IndicatorTarget`].
pub enum TargetView {
    /// A main indicator.
    Main(Seq<char>),
    /// A per-window indicator.
    Window(WindowId),
}

impl View for IndicatorTarget {
    type V = TargetView;

    open spec fn view(&self) -> TargetView {
        match self {
            IndicatorTarget::Main(n) => TargetView::Main(n@),
            IndicatorTarget::Window(w) => TargetView::Window(*w),
        }
    }
}

impl PartialEq for IndicatorTarget {
    fn eq(&self, other: &Self) -> (r: bool) {
        match self {
            IndicatorTarget::Main(a) => match other {
                IndicatorTarget::Main(b) => *a == *b,
                _ => false,
            },
            IndicatorTarget::Window(a) => match other {
                IndicatorTarget::Window(b) => a.0 == b.0,
                _ => false,
            },
        }
    }
}

impl vstd::std_specs::cmp::PartialEqSpecImpl for IndicatorTarget {
    open spec fn obeys_eq_spec() -> bool {
        true
    }

    open spec fn eq_spec(&self, other: &Self) -> bool {
        self@ == other@
    }
}

impl Eq for IndicatorTarget {}

/// A copy of a target.
pub fn clone_target(t: &IndicatorTarget) -> (r: IndicatorTarget)
    ensures
        r@ == t@,
{
    match t {
        IndicatorTarget::Main(n) => IndicatorTarget::Main(n.clone()),
        IndicatorTarget::Window(w) => IndicatorTarget::Window(*w),
    }
}

/// An event from the backend.
#[derive(Debug)]
pub enum BackendEvent {
    /// XKB reported a group change.
    LayoutChanged {
        /// New 0-based group index.
        new_group: u8,
        /// How the change was triggered.
        kind: SwitchKind,
    },
    /// `_NET_ACTIVE_WINDOW` changed.
    ActiveWindowChanged {
        /// The new active window, if any.
        wid: Option<WindowId>,
        /// Its properties.
        props: Option<WindowProps>,
        /// Its geometry, when it could be read.
        geom: Option<WindowGeom>,
    },
    /// A tracked window moved, was resized, or changed frame extents.
    WindowGeometryChanged {
        /// The window.
        wid: WindowId,
        /// New geometry.
        geom: WindowGeom,
    },
    /// A new window appeared.
    WindowCreated {
        /// The window.
        wid: WindowId,
        /// Its properties.
        props: WindowProps,
    },
    /// A managed window vanished.
    WindowDestroyed {
        /// The window.
        wid: WindowId,
    },
    /// The set or geometry of outputs changed.
    MonitorsChanged {
        /// The new outputs.
        outputs: Vec<Output>,
    },
    /// The user clicked an indicator.
    IndicatorClicked {
        /// Which indicator.
        target: IndicatorTarget,
        /// Which button.
        button: MouseButton,
        /// Whether Ctrl was held.
        ctrl: bool,
        /// Whether Shift was held.
        shift: bool,
    },
    /// The user finished dragging an indicator.
    IndicatorDragged {
        /// Which indicator.
        target: IndicatorTarget,
        /// Its new top-left corner, in root coordinates.
        new_origin: Point,
    },
}

/// The event for an XKB state notification: a change with a keycode
/// came from the keyboard; one without is automatic.
pub fn layout_event(new_group: u8, keycode: u8) -> (r: BackendEvent)
    ensures
        r == (BackendEvent::LayoutChanged {
            new_group,
            kind: if keycode != 0 {
                SwitchKind::Keyboard
            } else {
                SwitchKind::Auto
            },
        }),
{
    let kind = if keycode != 0 {
        SwitchKind::Keyboard
    } else {
        SwitchKind::Auto
    };
    BackendEvent::LayoutChanged { new_group, kind }
}

/// The Shift bit of an X key/button state mask.
pub const SHIFT_MASK: u16 = 1;

/// The Control bit of an X key/button state mask.
pub const CONTROL_MASK: u16 = 4;

/// Whether `bit` is set in the modifier `state`.
pub fn state_has(state: u16, bit: u16) -> (r: bool)
    ensures
        r == (state & bit != 0),
{
    state & bit != 0
}

/// The mouse button an X button number stands for: 1 is left, 2 middle,
/// anything else right.
pub fn mouse_button_from_detail(detail: u8) -> (r: MouseButton)
    ensures
        r == (if detail == 1 {
            MouseButton::Left
        } else if detail == 2 {
            MouseButton::Middle
        } else {
            MouseButton::Right
        }),
{
    match detail {
        1 => MouseButton::Left,
        2 => MouseButton::Middle,
        _ => MouseButton::Right,
    }
}

/// `v` clamped into the range of `i16`.
pub fn clamp_i16(v: i32) -> (r: i16)
    ensures
        r == (if v < i16::MIN {
            i16::MIN as int
        } else if v > i16::MAX {
            i16::MAX as int
        } else {
            v as int
        }),
{
    if v < -32768 {
        -32768
    } else if v > 32767 {
        32767
    } else {
        v as i16
    }
}

/// `v` clamped into `1..=u16::MAX`: X windows cannot be empty.
pub fn clamp_u16(v: u32) -> (r: u16)
    ensures
        r == (if v < 1 {
            1
        } else if v > u16::MAX {
            u16::MAX as int
        } else {
            v as int
        }),
{
    if v < 1 {
        1
    } else if v > 65535 {
        65535
    } else {
        v as u16
    }
}

/// The non-empty NUL-separated parts of `s` from `lo` on.
pub open spec fn nul_parts_from(s: Seq<char>, lo: int) -> Seq<Seq<char>>
    decreases s.len() - lo,
{
    if lo < 0 || lo >= s.len() {
        Seq::empty()
    } else {
        let i = index_of_from(s, '\0', lo);
        let end = if i < 0 {
            s.len() as int
        } else {
            i
        };
        proof {
            lemma_index_of_from(s, '\0', lo);
        }
        let part = s.subrange(lo, end);
        let rest = if i < 0 {
            Seq::empty()
        } else {
            nul_parts_from(s, i + 1)
        };
        if part.len() == 0 {
            rest
        } else {
            seq![part] + rest
        }
    }
}

/// Part `k` of `parts`, or empty text.
pub open spec fn part_or_empty(parts: Seq<Seq<char>>, k: int) -> Seq<char> {
    if k < parts.len() {
        parts[k]
    } else {
        Seq::empty()
    }
}

/// `WM_CLASS` is the instance name and then the class name, each ended
/// by NUL. Returns `(class, instance)`; a missing part is empty.
pub fn split_wm_class(raw: &str) -> (r: (String, String))
    ensures
        r.0@ == part_or_empty(nul_parts_from(raw@, 0), 1),
        r.1@ == part_or_empty(nul_parts_from(raw@, 0), 0),
{
    let s = chars_of(raw);
    let n = s.len();
    let mut parts: Vec<Vec<char>> = Vec::new();
    let mut lo: usize = 0;
    while lo < n && parts.len() < 2
        invariant
            n == s@.len(),
            s@ == raw@,
            lo <= n,
            parts@.len() <= 2,
            crate::text::views(parts@) + nul_parts_from(s@, lo as int) == nul_parts_from(s@, 0)
                || parts@.len() == 2 && nul_parts_from(s@, 0).len() >= 2 && crate::text::views(parts@)
                == nul_parts_from(s@, 0).take(2),
        decreases n - lo,
    {
        let ghost before = parts@;
        proof {
            lemma_index_of_from(s@, '\0', lo as int);
        }
        let end = match find_char_from(&s, '\0', lo) {
            Some(i) => i,
            None => n,
        };
        let part = subvec(&s, lo, end);
        let next = if end < n {
            end + 1
        } else {
            n
        };
        if part.len() > 0 {
            parts.push(part);
        }
        proof {
            let all = nul_parts_from(s@, 0);
            if crate::text::views(before) + nul_parts_from(s@, lo as int) == all {
                if part@.len() > 0 {
                    assert(crate::text::views(parts@) =~= crate::text::views(before).push(part@));
                    if next < n || end < n {
                        assert(crate::text::views(parts@) + nul_parts_from(s@, next as int)
                            =~= crate::text::views(before) + nul_parts_from(s@, lo as int));
                    } else {
                        assert(nul_parts_from(s@, next as int) =~= Seq::<Seq<char>>::empty());
                        assert(crate::text::views(parts@) + nul_parts_from(s@, next as int)
                            =~= crate::text::views(before) + nul_parts_from(s@, lo as int));
                    }
                    if parts@.len() == 2 {
                        assert(all.len() >= 2);
                        assert(crate::text::views(parts@) =~= all.take(2));
                    }
                } else {
                    assert(crate::text::views(parts@) =~= crate::text::views(before));
                    if end < n {
                        assert(nul_parts_from(s@, lo as int) =~= nul_parts_from(s@, next as int));
                    } else {
                        assert(nul_parts_from(s@, next as int) =~= Seq::<Seq<char>>::empty());
                    }
                }
            }
        }
        lo = next;
    }
    proof {
        let all = nul_parts_from(s@, 0);
        let pv = crate::text::views(parts@);
        if parts@.len() < 2 {
            assert(nul_parts_from(s@, lo as int) =~= Seq::<Seq<char>>::empty());
            assert(pv + nul_parts_from(s@, lo as int) =~= pv);
            assert(pv =~= all);
        } else {
            if pv + nul_parts_from(s@, lo as int) == all {
                assert(all.take(2) =~= pv);
            }
            assert(all.take(2)[0] == all[0]);
            assert(all.take(2)[1] == all[1]);
        }
        assert(parts@.len() > 0 ==> pv[0] == parts@[0]@);
        assert(parts@.len() > 1 ==> pv[1] == parts@[1]@);
    }
    let instance = if parts.len() > 0 {
        string_of(&parts[0])
    } else {
        String::new()
    };
    let class = if parts.len() > 1 {
        string_of(&parts[1])
    } else {
        String::new()
    };
    (class, instance)
}

/// The window title: `_NET_WM_NAME` when set, else `WM_NAME`.
pub fn choose_window_name(wm_name: String, net_wm_name: String) -> (r: String)
    ensures
        r@ == (if net_wm_name@.len() == 0 {
            wm_name@
        } else {
            net_wm_name@
        }),
{
    let n = chars_of(net_wm_name.as_str());
    if n.len() == 0 {
        wm_name
    } else {
        net_wm_name
    }
}

/// The properties of a window from its raw `WM_CLASS`, `WM_NAME` and
/// `_NET_WM_NAME`.
pub fn window_props_from(wm_class: &str, wm_name: String, net_wm_name: String) -> (r: WindowProps)
    ensures
        r.wm_class_class@ == part_or_empty(nul_parts_from(wm_class@, 0), 1),
        r.wm_class_name@ == part_or_empty(nul_parts_from(wm_class@, 0), 0),
        r.wm_name@ == (if net_wm_name@.len() == 0 {
            wm_name@
        } else {
            net_wm_name@
        }),
{
    let (class, instance) = split_wm_class(wm_class);
    WindowProps {
        wm_class_class: class,
        wm_class_name: instance,
        wm_name: choose_window_name(wm_name, net_wm_name),
    }
}

/// Frame extents from a `_NET_FRAME_EXTENTS` reply: four 32-bit values
/// (left, right, top, bottom), or all zero when the reply is not in that
/// form.
pub fn frame_extents_from(format: u8, value_len: u32, words: &[u32]) -> (r: FrameExtents)
    ensures
        (format != 32 || value_len < 4 || words@.len() < 4) ==> r == (FrameExtents {
            left: 0,
            right: 0,
            top: 0,
            bottom: 0,
        }),
        !(format != 32 || value_len < 4 || words@.len() < 4) ==> r == (FrameExtents {
            left: words@[0],
            right: words@[1],
            top: words@[2],
            bottom: words@[3],
        }),
{
    if format != 32 || value_len < 4 || words.len() < 4 {
        return FrameExtents { left: 0, right: 0, top: 0, bottom: 0 };
    }
    FrameExtents { left: words[0], right: words[1], top: words[2], bottom: words[3] }
}

/// Whether a RandR version is recent enough (1.2 or later).
pub fn randr_version_ok(major: u32, minor: u32) -> (r: bool)
    ensures
        r == !(major < 1 || (major == 1 && minor < 2)),
{
    !(major < 1 || (major == 1 && minor < 2))
}

/// An output from RandR's answers: active when connected and driven by
/// a CRTC; its geometry is the CRTC's rectangle when active and known,
/// else empty.
pub fn output_from_info(
    name: String,
    connected: bool,
    crtc: u32,
    crtc_rect: Option<Rect>,
    is_primary: bool,
) -> (r: Output)
    ensures
        r@ == (OutputView {
            name: name@,
            geometry: if connected && crtc != 0 && crtc_rect is Some {
                crtc_rect->0
            } else {
                Rect { origin: Point { x: 0, y: 0 }, width: 0, height: 0 }
            },
            is_primary,
            is_active: connected && crtc != 0,
        }),
{
    let is_active = connected && crtc != 0;
    let geometry = if is_active {
        match crtc_rect {
            Some(r) => r,
            None => Rect::new(0, 0, 0, 0),
        }
    } else {
        Rect::new(0, 0, 0, 0)
    };
    Output { name: OutputName(name), geometry, is_primary, is_active }
}

/// An in-progress Ctrl+Button1 drag of an indicator window.
#[derive(Debug)]
pub struct DragSession {
    /// The indicator being dragged.
    pub target: IndicatorTarget,
    /// Its X window.
    pub indicator_window: u32,
    /// Where the pointer was inside the window when the drag began.
    pub offset_in_window: (i16, i16),
    /// Latest top-left corner the window was moved to.
    pub last_origin: Point,
    /// Whether any movement was seen.
    pub moved: bool,
}

/// What a button press on an indicator means.
#[derive(Debug)]
pub enum PressOutcome {
    /// Not one of our windows.
    Ignore,
    /// Ctrl+Button1: a drag begins (the pointer is to be grabbed).
    StartDrag(DragSession),
    /// A click to report.
    Click {
        /// The indicator.
        target: IndicatorTarget,
        /// The button.
        button: MouseButton,
        /// Whether Ctrl was held.
        ctrl: bool,
        /// Whether Shift was held.
        shift: bool,
    },
}

/// Interprets a button press on window `event_window` (whose indicator
/// target, if it is one of ours, is `target`), with modifier `state`,
/// button `detail`, and pointer positions relative to the root and to
/// the window.
pub fn on_button_press(
    target: Option<IndicatorTarget>,
    state: u16,
    detail: u8,
    event_window: u32,
    root_x: i16,
    root_y: i16,
    event_x: i16,
    event_y: i16,
) -> (r: PressOutcome)
    ensures
        match target {
            None => r is Ignore,
            Some(t) => {
                let ctrl = state & CONTROL_MASK != 0;
                let shift = state & SHIFT_MASK != 0;
                if ctrl && detail == 1 {
                    r matches PressOutcome::StartDrag(d) && d.target@ == t@ && d.indicator_window
                        == event_window && d.offset_in_window == (event_x, event_y)
                        && d.last_origin == (Point {
                        x: (root_x - event_x) as i32,
                        y: (root_y - event_y) as i32,
                    }) && !d.moved
                } else {
                    r matches PressOutcome::Click { target: t2, button, ctrl: c, shift: s } && t2@
                        == t@ && button == (if detail == 1 {
                        MouseButton::Left
                    } else if detail == 2 {
                        MouseButton::Middle
                    } else {
                        MouseButton::Right
                    }) && c == ctrl && s == shift
                }
            },
        },
{
    let t = match target {
        Some(t) => t,
        None => {
            return PressOutcome::Ignore;
        },
    };
    let ctrl = state_has(state, CONTROL_MASK);
    let shift = state_has(state, SHIFT_MASK);
    let button = mouse_button_from_detail(detail);
    if ctrl && detail == 1 {
        let origin_x = (root_x as i32) - (event_x as i32);
        let origin_y = (root_y as i32) - (event_y as i32);
        return PressOutcome::StartDrag(
            DragSession {
                target: t,
                indicator_window: event_window,
                offset_in_window: (event_x, event_y),
                last_origin: Point::new(origin_x, origin_y),
                moved: false,
            },
        );
    }
    PressOutcome::Click { target: t, button, ctrl, shift }
}

/// Pointer motion during a drag: the window follows the pointer, keeping
/// the grab offset. Returns the window to move and where, when it moves.
pub fn on_motion(drag: &mut Option<DragSession>, root_x: i16, root_y: i16) -> (r: Option<
    (u32, Point),
>)
    ensures
        match *old(drag) {
            None => r is None && (*final(drag)) is None,
            Some(d) => {
                let p = Point {
                    x: (root_x - d.offset_in_window.0) as i32,
                    y: (root_y - d.offset_in_window.1) as i32,
                };
                if p == d.last_origin {
                    r is None && *final(drag) == Some(d)
                } else {
                    r == Some((d.indicator_window, p)) && *final(drag) == Some(
                        DragSession { last_origin: p, moved: true, ..d },
                    )
                }
            },
        },
{
    match drag {
        None => None,
        Some(d) => {
            let new_x = (root_x as i32) - (d.offset_in_window.0 as i32);
            let new_y = (root_y as i32) - (d.offset_in_window.1 as i32);
            let p = Point::new(new_x, new_y);
            if p != d.last_origin {
                d.moved = true;
                d.last_origin = p;
                Some((d.indicator_window, p))
            } else {
                None
            }
        },
    }
}

/// Button release: ends any drag (the grab is to be released). Returns
/// `None` when no drag was in progress, else `Some` of what to report:
/// the target and final position when the window moved at all.
pub fn on_button_release(drag: &mut Option<DragSession>) -> (r: Option<
    Option<(IndicatorTarget, Point)>,
>)
    ensures
        (*final(drag)) is None,
        match *old(drag) {
            None => r is None,
            Some(d) => match r {
                Some(Some((t, p))) => d.moved && t@ == d.target@ && p == d.last_origin,
                Some(None) => !d.moved,
                None => false,
            },
        },
{
    match drag.take() {
        None => None,
        Some(d) => if d.moved {
            Some(Some((d.target, d.last_origin)))
        } else {
            Some(None)
        },
    }
}

} // verus!
