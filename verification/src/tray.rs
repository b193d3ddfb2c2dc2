//! Decisions of the application shell: what a tray menu entry does, which
//! windows hide instead of closing, how long quitting waits for a clip
//! being saved, and which overlay notification may hide the overlay.
use vstd::prelude::*;
use crate::text::{chars_eq, chars_of};

verus! {

/// What a tray menu entry does.
#[derive(Clone, Copy, Debug, PartialEq, Eq, Structural)]
pub enum TrayAction {
    /// Wait for a save in flight, stop the pipeline and exit.
    Quit,
    /// Show and focus the main window.
    Show,
    /// Hide the main window.
    Hide,
    /// Nothing.
    Ignore,
}

/// The action of the tray menu entry with the given id.
pub open spec fn spec_tray_action(id: Seq<char>) -> TrayAction {
    if id == "quit"@ {
        TrayAction::Quit
    } else if id == "show"@ {
        TrayAction::Show
    } else if id == "hide"@ {
        TrayAction::Hide
    } else {
        TrayAction::Ignore
    }
}

/// The action of the tray menu entry with the given id (see
/// `spec_tray_action`).
pub fn tray_action(id: &str) -> (r: TrayAction)
    ensures
        r == spec_tray_action(id@),
{
    let c = chars_of(id);
    if chars_eq(c.as_slice(), chars_of("quit").as_slice()) {
        TrayAction::Quit
    } else if chars_eq(c.as_slice(), chars_of("show").as_slice()) {
        TrayAction::Show
    } else if chars_eq(c.as_slice(), chars_of("hide").as_slice()) {
        TrayAction::Hide
    } else {
        TrayAction::Ignore
    }
}

/// Whether closing the window with this label hides it to the tray instead:
/// only the main window does; other windows (the editor) close.
pub fn hides_on_close(label: &str) -> (r: bool)
    ensures
        r == (label@ == "main"@),
{
    chars_eq(chars_of(label).as_slice(), chars_of("main").as_slice())
}

/// Checks for a save in flight that quitting makes, a quarter second apart,
/// before it goes ahead regardless.
pub const QUIT_SAVE_CHECKS: u32 = 40;

/// Whether quitting waits another quarter second, after `checks_done`
/// checks, when the latest check found a save in flight (`saving`).
pub fn quit_waits(checks_done: u32, saving: bool) -> (r: bool)
    ensures
        r == (checks_done < QUIT_SAVE_CHECKS && saving),
{
    checks_done < QUIT_SAVE_CHECKS && saving
}

/// Milliseconds a saved-clip notification stays on screen.
pub const CLIP_OVERLAY_MILLIS: u64 = 3500;

/// Milliseconds an error notification stays on screen.
pub const ERROR_OVERLAY_MILLIS: u64 = 4000;

/// Numbers the overlay notifications, so that only the latest one hides the
/// overlay when its time is up.
pub struct OverlaySequence {
    pub current: u64,
}

/// The number after `n` (wrapping, as an atomic counter does).
pub open spec fn spec_next_seq(n: u64) -> u64 {
    if n == u64::MAX {
        0
    } else {
        (n + 1) as u64
    }
}

impl OverlaySequence {
    /// No notification yet.
    pub fn new() -> (r: Self)
        ensures
            r.current == 0,
    {
        OverlaySequence { current: 0 }
    }

    /// A new notification is shown: returns its number, which is now the
    /// current one.
    pub fn notify(&mut self) -> (n: u64)
        ensures
            n == spec_next_seq(old(self).current),
            final(self).current == n,
    {
        self.current = self.current.wrapping_add(1);
        self.current
    }

    /// Whether the notification numbered `n` hides the overlay when its time
    /// is up: only when no later notification was shown.
    pub fn hides(&self, n: u64) -> (r: bool)
        ensures
            r == (self.current == n),
    {
        self.current == n
    }
}

/// A notification followed by another does not hide the overlay when its
/// time is up; the later one does.
pub proof fn lemma_latest_notification_hides(current: u64)
    ensures
        spec_next_seq(spec_next_seq(current)) != spec_next_seq(current),
{
}

} // verus!
