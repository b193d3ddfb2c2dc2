//! How the user triggers and suspends recording: the global hotkey
//! bindings that get registered, the controller button combinations that
//! save a clip, and the idle monitor that pauses the buffer while nobody
//! uses the machine and resumes it when someone does.
use vstd::prelude::*;
use crate::config::HotkeyBinding;
use crate::recorder::BufferState;
use crate::text::{
    chars_eq, chars_of, owned, spec_lowercase, spec_strings, spec_trim, string_from_chars,
    to_lowercase, trim_chars,
};

verus! {

// ─── Controller ─────────────────────────────────────────────────────────────

/// Left shoulder, right shoulder and D-pad down held together, or Back and
/// Start held together (XInput button bits).
pub open spec fn spec_is_clip_combo(btns: u16) -> bool {
    ((btns & 0x0100) != 0 && (btns & 0x0200) != 0 && (btns & 0x0002) != 0) || ((btns & 0x0020) != 0
        && (btns & 0x0010) != 0)
}

/// Whether the held buttons form a clip combination (see
/// `spec_is_clip_combo`).
pub fn is_gamepad_clipping_combo(btns: u16) -> (r: bool)
    ensures
        r == spec_is_clip_combo(btns),
{
    ((btns & 0x0100) != 0 && (btns & 0x0200) != 0 && (btns & 0x0002) != 0) || ((btns & 0x0020) != 0
        && (btns & 0x0010) != 0)
}

/// Whether a controller slot holds a clip combination.
pub open spec fn spec_pad_combo(p: Option<u16>) -> bool {
    match p {
        Some(b) => spec_is_clip_combo(b),
        None => false,
    }
}

/// Whether any connected controller (a pad's buttons, or nothing for an
/// unconnected slot) holds a clip combination.
pub fn any_pad_holds_combo(pads: &Vec<Option<u16>>) -> (r: bool)
    ensures
        r == exists|i: int| 0 <= i < pads@.len() && spec_pad_combo(#[trigger] pads@[i]),
{
    let mut i: usize = 0;
    while i < pads.len()
        invariant
            i <= pads@.len(),
            forall|k: int| 0 <= k < i ==> !spec_pad_combo(#[trigger] pads@[k]),
        decreases pads@.len() - i,
    {
        match pads[i] {
            Some(b) => {
                if is_gamepad_clipping_combo(b) {
                    assert(spec_pad_combo(pads@[i as int]));
                    return true;
                }
            },
            None => {},
        }
        i = i + 1;
    }
    false
}

/// One poll of the controllers: a clip is saved on the poll where the
/// combination goes down, not again while it stays held. Returns whether to
/// save and whether the combination counts as held afterwards.
pub fn controller_poll(is_down: bool, was_pressed: bool) -> (r: (bool, bool))
    ensures
        r.0 == (is_down && !was_pressed),
        r.1 == is_down,
{
    if is_down && !was_pressed {
        (true, true)
    } else if !is_down {
        (false, false)
    } else {
        (false, was_pressed)
    }
}

// ─── Monitors' state ────────────────────────────────────────────────────────

/// Shared state of the controller listener and the idle monitor.
pub struct ControlState {
    pub controller_enabled: bool,
    pub idle_enabled: bool,
    pub idle_threshold_secs: u64,
    /// Whether the idle monitor paused the buffer itself.
    pub was_auto_paused: bool,
}

impl ControlState {
    /// Nothing enabled; the idle threshold is five minutes.
    pub fn new() -> (r: Self)
        ensures
            !r.controller_enabled,
            !r.idle_enabled,
            r.idle_threshold_secs == 300,
            !r.was_auto_paused,
    {
        ControlState {
            controller_enabled: false,
            idle_enabled: false,
            idle_threshold_secs: 300,
            was_auto_paused: false,
        }
    }
}

/// Turns controller clipping on or off.
pub fn update_controller_enabled(st: &mut ControlState, enabled: bool)
    ensures
        final(st).controller_enabled == enabled,
        final(st).idle_enabled == old(st).idle_enabled,
        final(st).idle_threshold_secs == old(st).idle_threshold_secs,
        final(st).was_auto_paused == old(st).was_auto_paused,
{
    st.controller_enabled = enabled;
}

/// Whether controller clipping is on.
pub fn is_controller_enabled(st: &ControlState) -> (r: bool)
    ensures
        r == st.controller_enabled,
{
    st.controller_enabled
}

/// Configures the idle monitor: on or off, and the idle time in minutes
/// (at least one) after which it pauses the buffer.
pub fn update_idle_config(st: &mut ControlState, enabled: bool, minutes: u32)
    ensures
        final(st).idle_enabled == enabled,
        final(st).idle_threshold_secs == (if minutes >= 1 {
            minutes as nat
        } else {
            1
        }) * 60,
        final(st).controller_enabled == old(st).controller_enabled,
        final(st).was_auto_paused == old(st).was_auto_paused,
{
    st.idle_enabled = enabled;
    let m: u64 = if minutes >= 1 {
        minutes as u64
    } else {
        1
    };
    st.idle_threshold_secs = m * 60;
}

/// Forgets that the idle monitor paused the buffer (a manual start, pause
/// or stop takes over).
pub fn clear_auto_pause(st: &mut ControlState)
    ensures
        !final(st).was_auto_paused,
        final(st).controller_enabled == old(st).controller_enabled,
        final(st).idle_enabled == old(st).idle_enabled,
        final(st).idle_threshold_secs == old(st).idle_threshold_secs,
{
    st.was_auto_paused = false;
}

/// Seconds since the last input from millisecond tick counts (which wrap).
pub fn idle_secs_from_ticks(now_tick: u32, last_input_tick: u32) -> (r: u64)
    ensures
        r == (if now_tick >= last_input_tick {
            (now_tick - last_input_tick) as nat
        } else {
            (now_tick + 0x1_0000_0000 - last_input_tick) as nat
        }) / 1000,
{
    let d: u32 = now_tick.wrapping_sub(last_input_tick);
    (d / 1000) as u64
}

/// What the idle monitor does after a check.
#[derive(Clone, Copy, Debug, PartialEq, Eq, Structural)]
pub enum IdleAction {
    Nothing,
    Pause,
    Resume,
}

/// One check of the idle monitor: an active buffer is paused once the
/// machine has been idle for the threshold; a buffer the monitor paused is
/// resumed as soon as input comes within three seconds; a disabled monitor
/// forgets that it paused.
pub fn idle_check(st: &mut ControlState, idle_secs: u64, state: BufferState) -> (a: IdleAction)
    ensures
        !old(st).idle_enabled ==> a == IdleAction::Nothing && !final(st).was_auto_paused,
        old(st).idle_enabled && state == BufferState::Active && idle_secs >= old(st).idle_threshold_secs
            ==> a == IdleAction::Pause && final(st).was_auto_paused,
        old(st).idle_enabled && !(state == BufferState::Active && idle_secs >= old(
            st,
        ).idle_threshold_secs) && state == BufferState::Paused && old(st).was_auto_paused && idle_secs
            < 3 ==> a == IdleAction::Resume && !final(st).was_auto_paused,
        old(st).idle_enabled && !(state == BufferState::Active && idle_secs >= old(
            st,
        ).idle_threshold_secs) && !(state == BufferState::Paused && old(st).was_auto_paused
            && idle_secs < 3) ==> a == IdleAction::Nothing && final(st).was_auto_paused == old(
            st,
        ).was_auto_paused,
        final(st).controller_enabled == old(st).controller_enabled,
        final(st).idle_enabled == old(st).idle_enabled,
        final(st).idle_threshold_secs == old(st).idle_threshold_secs,
{
    if !st.idle_enabled {
        st.was_auto_paused = false;
        return IdleAction::Nothing;
    }
    if state == BufferState::Active && idle_secs >= st.idle_threshold_secs {
        st.was_auto_paused = true;
        IdleAction::Pause
    } else if state == BufferState::Paused && st.was_auto_paused && idle_secs < 3 {
        st.was_auto_paused = false;
        IdleAction::Resume
    } else {
        IdleAction::Nothing
    }
}

// ─── Hotkeys ────────────────────────────────────────────────────────────────

/// The hotkeys registered for a list of bindings, in order, each with its
/// clip length: blank hotkeys are skipped, and a hotkey that repeats an
/// earlier one (compared in lowercase, surrounding whitespace aside) is
/// registered only once.
pub open spec fn spec_registration_plan(bindings: Seq<HotkeyBinding>) -> Seq<(Seq<char>, u32)>
    decreases bindings.len(),
{
    if bindings.len() == 0 {
        Seq::empty()
    } else {
        let prev = spec_registration_plan(bindings.drop_last());
        let b = bindings.last();
        let t = spec_trim(b.hotkey@);
        if t.len() == 0 || exists|k: int|
            0 <= k < prev.len() && spec_lowercase(#[trigger] prev[k].0) == spec_lowercase(t) {
            prev
        } else {
            prev.push((t, b.duration_secs))
        }
    }
}

/// View of a registration plan.
pub open spec fn spec_plan_view(v: Seq<(String, u32)>) -> Seq<(Seq<char>, u32)> {
    v.map_values(|e: (String, u32)| (e.0@, e.1))
}

/// The hotkeys registered for a list of bindings (see
/// `spec_registration_plan`).
pub fn hotkey_registration_plan(bindings: &Vec<HotkeyBinding>) -> (r: Vec<(String, u32)>)
    ensures
        spec_plan_view(r@) == spec_registration_plan(bindings@),
{
    let mut out: Vec<(String, u32)> = Vec::new();
    let mut seen: Vec<String> = Vec::new();
    let mut i: usize = 0;
    while i < bindings.len()
        invariant
            i <= bindings@.len(),
            spec_plan_view(out@) == spec_registration_plan(bindings@.subrange(0, i as int)),
            seen@.len() == out@.len(),
            forall|k: int| 0 <= k < seen@.len() ==> (#[trigger] seen@[k])@ == spec_lowercase(out@[k].0@),
        decreases bindings@.len() - i,
    {
        let ghost prev = spec_plan_view(out@);
        let hk = chars_of(bindings[i].hotkey.as_str());
        let t = trim_chars(hk.as_slice());
        assert(bindings@.subrange(0, i + 1).drop_last() =~= bindings@.subrange(0, i as int));
        assert(bindings@.subrange(0, i + 1).last() == bindings@[i as int]);
        if t.len() > 0 {
            let ts = string_from_chars(t.as_slice());
            let low = to_lowercase(ts.as_str());
            let lc = chars_of(low.as_str());
            let mut dup = false;
            let mut k: usize = 0;
            while k < seen.len()
                invariant
                    k <= seen@.len(),
                    seen@.len() == out@.len(),
                    lc@ == spec_lowercase(t@),
                    prev == spec_plan_view(out@),
                    forall|j: int| 0 <= j < seen@.len() ==> (#[trigger] seen@[j])@ == spec_lowercase(out@[j].0@),
                    dup == exists|j: int| 0 <= j < k && spec_lowercase(#[trigger] prev[j].0) == spec_lowercase(t@),
                decreases seen@.len() - k,
            {
                let sc = chars_of(seen[k].as_str());
                if chars_eq(sc.as_slice(), lc.as_slice()) {
                    dup = true;
                    assert(spec_lowercase(prev[k as int].0) == spec_lowercase(t@));
                }
                k = k + 1;
            }
            if !dup {
                let ghost before = out@;
                out.push((ts, bindings[i].duration_secs));
                seen.push(low);
                assert(spec_plan_view(out@) =~= spec_plan_view(before).push((t@, bindings@[i as int].duration_secs)));
            }
        }
        i = i + 1;
    }
    assert(bindings@.subrange(0, bindings@.len() as int) =~= bindings@);
    out
}

/// The clip length a hotkey saves: its own, or the buffer length when it
/// has none.
pub fn clip_duration_for(binding_secs: u32, buffer_length_secs: u32) -> (r: u32)
    ensures
        r == (if binding_secs == 0 {
            buffer_length_secs
        } else {
            binding_secs
        }),
{
    if binding_secs == 0 {
        buffer_length_secs
    } else {
        binding_secs
    }
}

/// The bindings after the user sets the main hotkey: the first binding gets
/// it; without bindings a 30-second `Clip` binding `slot_1` is made.
pub fn with_primary_hotkey(bindings: Vec<HotkeyBinding>, hotkey: &str) -> (r: Vec<HotkeyBinding>)
    ensures
        bindings@.len() > 0 ==> r@.len() == bindings@.len() && r@[0].hotkey@ == hotkey@ && r@[0].id
            == bindings@[0].id && r@[0].duration_secs == bindings@[0].duration_secs && r@[0].label
            == bindings@[0].label && r@.subrange(1, r@.len() as int) == bindings@.subrange(
            1,
            bindings@.len() as int,
        ),
        bindings@.len() == 0 ==> r@.len() == 1 && r@[0].id@ == "slot_1"@ && r@[0].hotkey@ == hotkey@
            && r@[0].duration_secs == 30 && r@[0].label@ == "Clip"@,
{
    let mut v = bindings;
    if v.len() > 0 {
        let first = &v[0];
        let updated = HotkeyBinding {
            id: first.id.clone(),
            hotkey: owned(hotkey),
            duration_secs: first.duration_secs,
            label: first.label.clone(),
        };
        v.set(0, updated);
        v
    } else {
        v.push(
            HotkeyBinding {
                id: owned("slot_1"),
                hotkey: owned(hotkey),
                duration_secs: 30,
                label: owned("Clip"),
            },
        );
        v
    }
}

} // verus!
