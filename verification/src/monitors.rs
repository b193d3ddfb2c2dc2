//! Monitors as the capture sees them: their labels, their sizes from the
//! desktop rectangles, the fallback when none is reported, and which one a
//! configured index selects.
use vstd::prelude::*;
use crate::text::{owned, push_decimal, push_str, spec_decimal};

verus! {

/// A monitor that can be captured.
#[derive(Debug)]
pub struct MonitorInfo {
    pub index: u32,
    pub name: String,
    pub width: u32,
    pub height: u32,
    pub is_primary: bool,
}

impl Clone for MonitorInfo {
    fn clone(&self) -> (r: Self)
        ensures
            r == *self,
    {
        MonitorInfo {
            index: self.index,
            name: self.name.clone(),
            width: self.width,
            height: self.height,
            is_primary: self.is_primary,
        }
    }
}

/// The label of the monitor at position `idx`: `Monitor <idx+1> (<w>×<h>)`,
/// with ` - Hauptbildschirm` for the primary one.
pub open spec fn spec_monitor_label(idx: u32, width: u32, height: u32, is_primary: bool) -> Seq<char> {
    "Monitor "@ + spec_decimal((idx + 1) as nat) + " ("@ + spec_decimal(width as nat) + "×"@
        + spec_decimal(height as nat) + ")"@ + (if is_primary {
        " - Hauptbildschirm"@
    } else {
        Seq::empty()
    })
}

/// The label of a monitor (see `spec_monitor_label`).
pub fn monitor_label(idx: u32, width: u32, height: u32, is_primary: bool) -> (r: String)
    ensures
        r@ == spec_monitor_label(idx, width, height, is_primary),
{
    let mut r = owned("Monitor ");
    push_decimal(&mut r, idx as u64 + 1);
    push_str(&mut r, " (");
    push_decimal(&mut r, width as u64);
    push_str(&mut r, "×");
    push_decimal(&mut r, height as u64);
    push_str(&mut r, ")");
    if is_primary {
        push_str(&mut r, " - Hauptbildschirm");
    }
    r
}

/// The absolute difference of two coordinates.
pub open spec fn spec_span(a: i32, b: i32) -> u32 {
    if b >= a {
        (b - a) as u32
    } else {
        (a - b) as u32
    }
}

/// Whether the difference of two coordinates fits in `i32`.
pub open spec fn spec_span_ok(a: i32, b: i32) -> bool {
    i32::MIN < b - a <= i32::MAX
}

/// The monitor at position `idx` of the enumeration, from its desktop
/// rectangle and its flags (bit 0 marks the primary monitor).
pub fn monitor_from_rect(idx: u32, left: i32, top: i32, right: i32, bottom: i32, flags: u32) -> (r: MonitorInfo)
    requires
        spec_span_ok(left, right),
        spec_span_ok(top, bottom),
    ensures
        r.index == idx,
        r.width == spec_span(left, right),
        r.height == spec_span(top, bottom),
        r.is_primary == (flags % 2 == 1),
        r.name@ == spec_monitor_label(idx, r.width, r.height, r.is_primary),
{
    let dw: i32 = right - left;
    let dh: i32 = bottom - top;
    let width: u32 = if dw >= 0 {
        dw as u32
    } else {
        (0i64 - dw as i64) as u32
    };
    let height: u32 = if dh >= 0 {
        dh as u32
    } else {
        (0i64 - dh as i64) as u32
    };
    let is_primary = flags % 2 == 1;
    MonitorInfo { index: idx, name: monitor_label(idx, width, height, is_primary), width, height, is_primary }
}

/// The monitors to offer: the enumerated ones, or a primary 1920×1080
/// monitor when none was reported.
pub fn monitors_or_default(found: Vec<MonitorInfo>) -> (r: Vec<MonitorInfo>)
    ensures
        found@.len() > 0 ==> r@ == found@,
        found@.len() == 0 ==> r@.len() == 1 && r@[0].index == 0 && r@[0].width == 1920 && r@[0].height
            == 1080 && r@[0].is_primary && r@[0].name@ == spec_monitor_label(0, 1920, 1080, true),
{
    if found.len() > 0 {
        found
    } else {
        let mut v: Vec<MonitorInfo> = Vec::new();
        v.push(
            MonitorInfo {
                index: 0,
                name: monitor_label(0, 1920, 1080, true),
                width: 1920,
                height: 1080,
                is_primary: true,
            },
        );
        v
    }
}

/// The primary monitor's size from the desktop resolution, or 1920×1080
/// when it reads as zero.
pub fn primary_size_or_default(width: u32, height: u32) -> (r: (u32, u32))
    ensures
        width > 0 && height > 0 ==> r == (width, height),
        !(width > 0 && height > 0) ==> r == (1920u32, 1080u32),
{
    if width > 0 && height > 0 {
        (width, height)
    } else {
        (1920, 1080)
    }
}

/// The first monitor with index `idx`.
pub open spec fn spec_find_monitor(monitors: Seq<MonitorInfo>, idx: u32, i: int) -> Option<int>
    decreases monitors.len() - i,
{
    if i < 0 || i >= monitors.len() {
        None
    } else if monitors[i].index == idx {
        Some(i)
    } else {
        spec_find_monitor(monitors, idx, i + 1)
    }
}

/// The monitor the capture uses for configured index `idx`: that monitor's
/// index and size when it exists; otherwise index 0 and no size (the
/// primary monitor's size is used).
pub open spec fn spec_capture_monitor(monitors: Seq<MonitorInfo>, idx: u32) -> (u32, Option<(u32, u32)>) {
    match spec_find_monitor(monitors, idx, 0) {
        Some(k) => (idx, Some((monitors[k].width, monitors[k].height))),
        None => (0, None),
    }
}

/// The monitor the capture uses (see `spec_capture_monitor`).
pub fn capture_monitor(monitors: &Vec<MonitorInfo>, idx: u32) -> (r: (u32, Option<(u32, u32)>))
    ensures
        r == spec_capture_monitor(monitors@, idx),
{
    let mut i: usize = 0;
    while i < monitors.len()
        invariant
            i <= monitors@.len(),
            spec_find_monitor(monitors@, idx, 0) == spec_find_monitor(monitors@, idx, i as int),
        decreases monitors@.len() - i,
    {
        if monitors[i].index == idx {
            return (idx, Some((monitors[i].width, monitors[i].height)));
        }
        i = i + 1;
    }
    (0, None)
}

} // verus!
