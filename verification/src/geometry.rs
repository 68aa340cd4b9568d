//! Points and rectangles in root-window coordinates, and per-window
//! indicator placement relative to a window's frame extents.
//!
//! Placement mirrors the legacy xxkb convention: a positive `offset.x`
//! counts from the **left** edge of the title bar, a negative one from
//! the **right** edge; `offset.y` is always relative to the **top** of
//! the title bar.

use vstd::prelude::*;

verus! {

/// 2D point in root-window coordinates.
#[derive(Debug, Clone, Copy, PartialEq, Eq, Structural, Hash)]
pub struct Point {
    /// X coordinate.
    pub x: i32,
    /// Y coordinate.
    pub y: i32,
}

impl Point {
    /// Construct.
    pub fn new(x: i32, y: i32) -> (r: Self)
        ensures
            r == (Point { x, y }),
    {
        Point { x, y }
    }
}

/// Rectangle (geometry of a single output), in root coordinates.
#[derive(Debug, Clone, Copy, PartialEq, Eq, Structural)]
pub struct Rect {
    /// Top-left corner.
    pub origin: Point,
    /// Width, in pixels.
    pub width: u32,
    /// Height, in pixels.
    pub height: u32,
}

impl Rect {
    /// Construct.
    pub fn new(x: i32, y: i32, width: u32, height: u32) -> (r: Self)
        ensures
            r == (Rect { origin: Point { x, y }, width, height }),
    {
        Rect { origin: Point::new(x, y), width, height }
    }

    /// True when both edges fit in `i32`, so the rectangle's exclusive
    /// right and bottom edges can be computed.
    pub open spec fn edges_fit(self) -> bool {
        &&& self.width <= i32::MAX
        &&& self.height <= i32::MAX
        &&& self.origin.x + self.width <= i32::MAX
        &&& self.origin.y + self.height <= i32::MAX
    }

    /// Right edge (exclusive).
    pub fn right(&self) -> (r: i32)
        requires
            self.edges_fit(),
        ensures
            r == self.origin.x + self.width,
    {
        self.origin.x + self.width as i32
    }

    /// Bottom edge (exclusive).
    pub fn bottom(&self) -> (r: i32)
        requires
            self.edges_fit(),
        ensures
            r == self.origin.y + self.height,
    {
        self.origin.y + self.height as i32
    }

    /// Whether `p` lies inside this rectangle.
    pub open spec fn spec_contains(self, p: Point) -> bool {
        &&& self.origin.x <= p.x < self.origin.x + self.width
        &&& self.origin.y <= p.y < self.origin.y + self.height
    }

    /// True if `p` is contained in this rectangle.
    pub fn contains(&self, p: Point) -> (r: bool)
        requires
            self.edges_fit(),
        ensures
            r == self.spec_contains(p),
    {
        p.x >= self.origin.x && p.x < self.right() && p.y >= self.origin.y && p.y < self.bottom()
    }
}

/// A `u32` seen as an `i32`, or `fallback` when it does not fit.
pub open spec fn u32_as_i32_or(v: u32, fallback: i32) -> int {
    if v <= i32::MAX {
        v as int
    } else {
        fallback as int
    }
}

/// `i32::try_from(v).unwrap_or(fallback)`.
pub fn u32_to_i32_or(v: u32, fallback: i32) -> (r: i32)
    ensures
        r == u32_as_i32_or(v, fallback),
{
    if v <= 2147483647u32 {
        v as i32
    } else {
        fallback
    }
}

/// `max(v, 0)`.
pub open spec fn clamp_nonneg(v: int) -> int {
    if v > 0 {
        v
    } else {
        0
    }
}

/// Frame extents reported by the window manager
/// (`_NET_FRAME_EXTENTS = left, right, top, bottom`).
#[derive(Debug, Clone, Copy, PartialEq, Eq, Structural, Default)]
pub struct FrameExtents {
    /// Left border width.
    pub left: u32,
    /// Right border width.
    pub right: u32,
    /// Top decoration (typically the title bar) height.
    pub top: u32,
    /// Bottom border width.
    pub bottom: u32,
}

impl FrameExtents {
    /// Inputs for which synthesising extents stays within `i32`.
    pub open spec fn synth_fits(
        frame_origin: Point,
        frame_width: u32,
        frame_height: u32,
        client_origin: Point,
        client_width: u32,
        client_height: u32,
    ) -> bool {
        let fw = u32_as_i32_or(frame_width, 0);
        let fh = u32_as_i32_or(frame_height, 0);
        let cw = u32_as_i32_or(client_width, 0);
        let ch = u32_as_i32_or(client_height, 0);
        &&& i32::MIN <= client_origin.x - frame_origin.x <= i32::MAX
        &&& i32::MIN <= client_origin.y - frame_origin.y <= i32::MAX
        &&& i32::MIN <= frame_origin.x + fw <= i32::MAX
        &&& i32::MIN <= frame_origin.y + fh <= i32::MAX
        &&& i32::MIN <= client_origin.x + cw <= i32::MAX
        &&& i32::MIN <= client_origin.y + ch <= i32::MAX
        &&& i32::MIN <= (frame_origin.x + fw) - (client_origin.x + cw) <= i32::MAX
        &&& i32::MIN <= (frame_origin.y + fh) - (client_origin.y + ch) <= i32::MAX
    }

    /// Synthesise frame extents from the frame window's geometry and the
    /// client window's geometry (EWMH fallback for window managers that do
    /// not advertise `_NET_FRAME_EXTENTS`). Negative deltas, which only
    /// buggy window managers produce, are clamped to zero.
    pub fn from_frame_and_client(
        frame_origin: Point,
        frame_width: u32,
        frame_height: u32,
        client_origin: Point,
        client_width: u32,
        client_height: u32,
    ) -> (r: Self)
        requires
            Self::synth_fits(
                frame_origin,
                frame_width,
                frame_height,
                client_origin,
                client_width,
                client_height,
            ),
        ensures
            r.left == clamp_nonneg(client_origin.x - frame_origin.x),
            r.top == clamp_nonneg(client_origin.y - frame_origin.y),
            r.right == clamp_nonneg(
                (frame_origin.x + u32_as_i32_or(frame_width, 0)) - (client_origin.x
                    + u32_as_i32_or(client_width, 0)),
            ),
            r.bottom == clamp_nonneg(
                (frame_origin.y + u32_as_i32_or(frame_height, 0)) - (client_origin.y
                    + u32_as_i32_or(client_height, 0)),
            ),
    {
        let fw = u32_to_i32_or(frame_width, 0);
        let fh = u32_to_i32_or(frame_height, 0);
        let cw = u32_to_i32_or(client_width, 0);
        let ch = u32_to_i32_or(client_height, 0);

        let left = nonneg_to_u32(client_origin.x - frame_origin.x);
        let top = nonneg_to_u32(client_origin.y - frame_origin.y);
        let right = nonneg_to_u32((frame_origin.x + fw) - (client_origin.x + cw));
        let bottom = nonneg_to_u32((frame_origin.y + fh) - (client_origin.y + ch));

        FrameExtents { left, right, top, bottom }
    }

    /// Extents synthesised from the frame and client geometry, or `None`
    /// when the arithmetic would leave `i32` (see
    /// [`FrameExtents::from_frame_and_client`]).
    pub fn try_from_frame_and_client(
        frame_origin: Point,
        frame_width: u32,
        frame_height: u32,
        client_origin: Point,
        client_width: u32,
        client_height: u32,
    ) -> (r: Option<Self>)
        ensures
            r is Some <==> Self::synth_fits(
                frame_origin,
                frame_width,
                frame_height,
                client_origin,
                client_width,
                client_height,
            ),
            r matches Some(e) ==> {
                &&& e.left == clamp_nonneg(client_origin.x - frame_origin.x)
                &&& e.top == clamp_nonneg(client_origin.y - frame_origin.y)
                &&& e.right == clamp_nonneg(
                    (frame_origin.x + u32_as_i32_or(frame_width, 0)) - (client_origin.x
                        + u32_as_i32_or(client_width, 0)),
                )
                &&& e.bottom == clamp_nonneg(
                    (frame_origin.y + u32_as_i32_or(frame_height, 0)) - (client_origin.y
                        + u32_as_i32_or(client_height, 0)),
                )
            },
    {
        let fw = u32_to_i32_or(frame_width, 0) as i64;
        let fh = u32_to_i32_or(frame_height, 0) as i64;
        let cw = u32_to_i32_or(client_width, 0) as i64;
        let ch = u32_to_i32_or(client_height, 0) as i64;
        let fx = frame_origin.x as i64;
        let fy = frame_origin.y as i64;
        let cx = client_origin.x as i64;
        let cy = client_origin.y as i64;
        let lo: i64 = -2147483648i64;
        let hi: i64 = 2147483647i64;
        let fits = lo <= cx - fx && cx - fx <= hi && lo <= cy - fy && cy - fy <= hi && lo <= fx + fw
            && fx + fw <= hi && lo <= fy + fh && fy + fh <= hi && lo <= cx + cw && cx + cw <= hi
            && lo <= cy + ch && cy + ch <= hi && lo <= (fx + fw) - (cx + cw) && (fx + fw) - (cx
            + cw) <= hi && lo <= (fy + fh) - (cy + ch) && (fy + fh) - (cy + ch) <= hi;
        if fits {
            Some(
                Self::from_frame_and_client(
                    frame_origin,
                    frame_width,
                    frame_height,
                    client_origin,
                    client_width,
                    client_height,
                ),
            )
        } else {
            None
        }
    }

    /// True if all four borders are zero (the window is undecorated).
    pub fn is_zero(&self) -> (r: bool)
        ensures
            r == (self.left == 0 && self.right == 0 && self.top == 0 && self.bottom == 0),
    {
        self.left == 0 && self.right == 0 && self.top == 0 && self.bottom == 0
    }
}

/// `v.max(0) as u32`.
fn nonneg_to_u32(v: i32) -> (r: u32)
    ensures
        r == clamp_nonneg(v as int),
{
    if v > 0 {
        v as u32
    } else {
        0
    }
}

/// Configured offset for the per-window indicator.
#[derive(Debug, Clone, Copy, PartialEq, Eq, Structural)]
pub struct Offset {
    /// Positive = from the left edge, negative = from the right edge.
    pub x: i32,
    /// From the top.
    pub y: i32,
}

impl Offset {
    /// The default offset, `15x15-60+7` in legacy geometry terms.
    pub open spec fn spec_default() -> Offset {
        Offset { x: -60i32, y: 7i32 }
    }
}

impl Default for Offset {
    fn default() -> (r: Self)
        ensures
            r == Offset::spec_default(),
    {
        Offset { x: -60i32, y: 7i32 }
    }
}

/// Where the per-window indicator goes, as a mathematical point.
pub open spec fn spec_placement(
    window_origin: Point,
    window_width: u32,
    extents: FrameExtents,
    offset: Offset,
    indicator_size: u32,
) -> (int, int) {
    let title_y = window_origin.y - u32_as_i32_or(extents.top, 0);
    let title_left = window_origin.x - u32_as_i32_or(extents.left, 0);
    let title_right = window_origin.x + u32_as_i32_or(window_width, 0) + u32_as_i32_or(
        extents.right,
        0,
    );
    let x = if offset.x >= 0 {
        title_left + offset.x
    } else {
        title_right + offset.x - u32_as_i32_or(indicator_size, 0)
    };
    (x, title_y + offset.y)
}

/// Inputs for which [`IndicatorPlacement::compute`] stays within `i32`.
pub open spec fn placement_fits(
    window_origin: Point,
    window_width: u32,
    extents: FrameExtents,
    offset: Offset,
    indicator_size: u32,
) -> bool {
    let title_y = window_origin.y - u32_as_i32_or(extents.top, 0);
    let title_left = window_origin.x - u32_as_i32_or(extents.left, 0);
    let right_a = window_origin.x + u32_as_i32_or(window_width, 0);
    let title_right = right_a + u32_as_i32_or(extents.right, 0);
    let p = spec_placement(window_origin, window_width, extents, offset, indicator_size);
    &&& i32::MIN <= title_y <= i32::MAX
    &&& i32::MIN <= title_left <= i32::MAX
    &&& i32::MIN <= right_a <= i32::MAX
    &&& i32::MIN <= title_right <= i32::MAX
    &&& i32::MIN <= title_right + offset.x <= i32::MAX
    &&& i32::MIN <= p.0 <= i32::MAX
    &&& i32::MIN <= p.1 <= i32::MAX
}

/// Whether [`IndicatorPlacement::compute`] stays within `i32` on these
/// inputs: exactly [`placement_fits`], computed in 64 bits.
pub fn placement_fits_check(
    window_origin: Point,
    window_width: u32,
    extents: FrameExtents,
    offset: Offset,
    indicator_size: u32,
) -> (r: bool)
    ensures
        r == placement_fits(window_origin, window_width, extents, offset, indicator_size),
{
    let top = u32_to_i32_or(extents.top, 0) as i64;
    let left = u32_to_i32_or(extents.left, 0) as i64;
    let right = u32_to_i32_or(extents.right, 0) as i64;
    let width = u32_to_i32_or(window_width, 0) as i64;
    let size = u32_to_i32_or(indicator_size, 0) as i64;
    let ox = window_origin.x as i64;
    let oy = window_origin.y as i64;
    let title_y = oy - top;
    let title_left = ox - left;
    let right_a = ox + width;
    let title_right = right_a + right;
    let x = if offset.x >= 0 {
        title_left + offset.x as i64
    } else {
        title_right + offset.x as i64 - size
    };
    let y = title_y + offset.y as i64;
    let lo: i64 = -2147483648i64;
    let hi: i64 = 2147483647i64;
    lo <= title_y && title_y <= hi && lo <= title_left && title_left <= hi && lo <= right_a
        && right_a <= hi && lo <= title_right && title_right <= hi && lo <= title_right
        + offset.x as i64 && title_right + offset.x as i64 <= hi && lo <= x && x <= hi && lo <= y
        && y <= hi
}

/// Per-window indicator placement helper.
pub struct IndicatorPlacement;

impl IndicatorPlacement {
    /// The root-coordinate point at which to place the indicator for a
    /// window with top-left `window_origin`, width `window_width`, frame
    /// extents `extents`, configured `offset` and indicator size.
    pub fn compute(
        window_origin: Point,
        window_width: u32,
        extents: FrameExtents,
        offset: Offset,
        indicator_size: u32,
    ) -> (r: Point)
        requires
            placement_fits(window_origin, window_width, extents, offset, indicator_size),
        ensures
            (r.x as int, r.y as int) == spec_placement(
                window_origin,
                window_width,
                extents,
                offset,
                indicator_size,
            ),
    {
        let title_y = window_origin.y - u32_to_i32_or(extents.top, 0);
        let title_left = window_origin.x - u32_to_i32_or(extents.left, 0);
        let title_right = window_origin.x + u32_to_i32_or(window_width, 0) + u32_to_i32_or(
            extents.right,
            0,
        );
        let x = if offset.x >= 0 {
            title_left + offset.x
        } else {
            title_right + offset.x - u32_to_i32_or(indicator_size, 0)
        };
        let y = title_y + offset.y;
        Point::new(x, y)
    }
}

} // verus!
