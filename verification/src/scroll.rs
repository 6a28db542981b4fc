//! Horizontal scrolling of the dashboard and settings panes.
use vstd::prelude::*;

verus! {

/// The largest value of a `u16`.
pub open spec fn u16_limit() -> int {
    65535
}

/// The step of a scroll request, taken modulo the width of a `u16` as the pane does.
pub open spec fn scroll_step(delta: int) -> int {
    if delta < 0 {
        (-delta) % 65536
    } else {
        delta % 65536
    }
}

/// Where a horizontal scroll of `delta` from `current` lands: scrolling left stops at zero,
/// scrolling right stops at `max`.
pub open spec fn bounded_scroll_spec(current: int, delta: int, max: int) -> int {
    if delta < 0 {
        if current >= scroll_step(delta) {
            current - scroll_step(delta)
        } else {
            0
        }
    } else {
        let raised = if current + scroll_step(delta) <= u16_limit() {
            current + scroll_step(delta)
        } else {
            u16_limit()
        };
        if raised <= max {
            raised
        } else {
            max
        }
    }
}

/// Moves a horizontal scroll offset by `delta` columns.
pub fn bounded_horizontal_scroll(current: u16, delta: isize, max: u16) -> (r: u16)
    ensures
        r == bounded_scroll_spec(current as int, delta as int, max as int),
{
    if delta < 0 {
        let magnitude: i128 = 0i128 - (delta as i128);
        let step: u16 = (magnitude % 65536) as u16;
        current.saturating_sub(step)
    } else {
        let positive: i128 = delta as i128;
        let step: u16 = (positive % 65536) as u16;
        let raised: u16 = current.saturating_add(step);
        if raised <= max {
            raised
        } else {
            max
        }
    }
}

/// How far a pane `pane_width` columns wide scrolls over content `content_width` wide: the
/// part that does not fit, at most the largest `u16`.
pub open spec fn horizontal_max(content_width: int, pane_width: int) -> int {
    if content_width <= pane_width {
        0
    } else if content_width - pane_width <= u16_limit() {
        content_width - pane_width
    } else {
        u16_limit()
    }
}

/// The larger of two widths.
pub open spec fn wider(a: int, b: int) -> int {
    if a >= b {
        a
    } else {
        b
    }
}

/// A width as a `usize` holds it: sums past the largest `usize` stay at that value.
pub open spec fn capped(w: int) -> int {
    if w <= usize::MAX {
        w
    } else {
        usize::MAX as int
    }
}

/// How far a pane of `pane_width` columns can scroll over content `content_width` wide.
pub fn horizontal_max_for_width(content_width: usize, pane_width: u16) -> (r: u16)
    ensures
        r == horizontal_max(content_width as int, pane_width as int),
        r == (if content_width <= pane_width {
            0
        } else if content_width - pane_width <= u16_limit() {
            content_width - pane_width
        } else {
            u16_limit()
        }),
{
    let pane: usize = pane_width as usize;
    if content_width <= pane {
        0
    } else {
        let over: usize = content_width - pane;
        if over <= 65535 {
            over as u16
        } else {
            65535
        }
    }
}

/// Whether content is hidden to the left and to the right of the pane.
pub fn horizontal_continuation(horizontal_scroll: u16, max_scroll: u16) -> (r: (bool, bool))
    ensures
        r.0 == (horizontal_scroll > 0),
        r.1 == (horizontal_scroll < max_scroll),
{
    (horizontal_scroll > 0, horizontal_scroll < max_scroll)
}

/// The width of content that must be laid out so that a scrolled viewport is filled.
pub fn scrolled_visible_width(viewport_width: u16, horizontal_scroll: u16) -> (r: usize)
    ensures
        r == viewport_width + horizontal_scroll,
{
    viewport_width as usize + horizontal_scroll as usize
}

/// A scroll that starts inside `0..=max` stays inside it, and a step right that is not
/// clamped is undone by the same step left.
pub proof fn law_scroll_stays_in_bounds(current: u16, delta: isize, max: u16)
    requires
        current <= max,
    ensures
        0 <= bounded_scroll_spec(current as int, delta as int, max as int) <= max,
        0 <= delta < 65536 && current + delta <= max ==> bounded_scroll_spec(
            bounded_scroll_spec(current as int, delta as int, max as int),
            -delta,
            max as int,
        ) == current,
{
}

} // verus!
