//! What the tray shows for an aggregate (the tile's color and the tooltip),
//! and when the popover dismisses itself.

use vstd::prelude::*;
use vstd::string::*;

use crate::state::Aggregate;
use crate::text::{decimal, push_decimal};

verus! {

/// Muted tray tints: green (all good), red (something down), amber (nothing
/// reachable / degraded), gray (idle: no monitors configured).
pub open spec fn green() -> (u8, u8, u8) {
    (0x6F, 0xC1, 0x99)
}

pub open spec fn red() -> (u8, u8, u8) {
    (0xE0, 0x8A, 0x8A)
}

pub open spec fn amber() -> (u8, u8, u8) {
    (0xE8, 0xC0, 0x77)
}

pub open spec fn gray() -> (u8, u8, u8) {
    (0xAF, 0xB1, 0xB8)
}

/// The tile color for an aggregate: red when anything is down; gray when
/// nothing is configured; amber when nothing is up and something is unknown;
/// green otherwise.
pub open spec fn spec_status_color(agg: Aggregate) -> (u8, u8, u8) {
    if agg.down > 0 {
        red()
    } else if agg.spec_total() == 0 {
        gray()
    } else if agg.up == 0 && agg.unknown > 0 {
        amber()
    } else {
        green()
    }
}

pub fn status_color(agg: Aggregate) -> (r: (u8, u8, u8))
    requires
        agg.spec_total() <= usize::MAX,
    ensures
        r == spec_status_color(agg),
{
    if agg.down > 0 {
        (0xE0, 0x8A, 0x8A)
    } else if agg.total() == 0 {
        (0xAF, 0xB1, 0xB8)
    } else if agg.up == 0 && agg.unknown > 0 {
        (0xE8, 0xC0, 0x77)
    } else {
        (0x6F, 0xC1, 0x99)
    }
}

/// The tray tooltip for an aggregate.
pub open spec fn spec_tooltip(agg: Aggregate) -> Seq<char> {
    if agg.spec_total() == 0 {
        "UptimeBar \u{2014} no monitors configured"@
    } else {
        decimal(agg.up as nat) + " up \u{b7} "@ + decimal(agg.down as nat) + " down \u{b7} "@ + decimal(
            agg.unknown as nat,
        ) + " unknown"@
    }
}

pub fn tooltip(agg: Aggregate) -> (r: String)
    requires
        agg.spec_total() <= usize::MAX,
    ensures
        r@ == spec_tooltip(agg),
{
    if agg.total() == 0 {
        String::from_str("UptimeBar \u{2014} no monitors configured")
    } else {
        let mut r = String::new();
        push_decimal(&mut r, agg.up as u64);
        r.append(" up \u{b7} ");
        push_decimal(&mut r, agg.down as u64);
        r.append(" down \u{b7} ");
        push_decimal(&mut r, agg.unknown as u64);
        r.append(" unknown");
        r
    }
}

/// Whether the pointer is inside the popover, as the webview last reported.
/// It guards the focus-loss auto-hide: dragging the popover's own scrollbar
/// briefly drops window focus on macOS, which must not dismiss it.
pub struct PointerState {
    pub inside: bool,
}

impl PointerState {
    pub fn new() -> (r: PointerState)
        ensures
            !r.inside,
    {
        PointerState { inside: false }
    }

    pub fn set_pointer_inside(&mut self, inside: bool)
        ensures
            final(self).inside == inside,
    {
        self.inside = inside;
    }

    pub fn pointer_inside(&self) -> (r: bool)
        ensures
            r == self.inside,
    {
        self.inside
    }

    /// The popover lost focus: it hides unless the pointer is still inside.
    pub fn hides_on_focus_loss(&self) -> (r: bool)
        ensures
            r == !self.inside,
    {
        !self.inside
    }
}

/// The pointer's position was reported while the popover has (or lacks)
/// focus: leaving an unfocused popover means the user moved on, so a
/// dismissal suppressed earlier is honored now.
pub fn hides_on_pointer_report(inside: bool, focused: bool) -> (r: bool)
    ensures
        r == (!inside && !focused),
{
    !inside && !focused
}

} // verus!
