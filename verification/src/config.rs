//! Configuration vocabulary, defaults and the normalisation applied when a
//! configuration is loaded or saved.
use vstd::prelude::*;
use crate::text::{owned};
use crate::paths::{file_name, spec_file_name};

verus! {

/// Target video bitrate class.
#[derive(Clone, Copy, Debug, PartialEq, Eq, Structural)]
pub enum BitratePreset {
    Low,
    Balanced,
    High,
    Ultra,
}

/// Output video codec.
#[derive(Clone, Copy, Debug, PartialEq, Eq, Structural)]
pub enum VideoCodec {
    H264,
    HEVC,
    AV1,
}

impl Default for VideoCodec {
    fn default() -> (r: Self)
        ensures
            r == VideoCodec::H264,
    {
        VideoCodec::H264
    }
}

/// Spike detection is on unless configured otherwise.
pub fn default_spike_detection() -> (r: bool)
    ensures
        r,
{
    true
}

/// The cursor is drawn into clips unless configured otherwise.
pub fn default_show_cursor() -> (r: bool)
    ensures
        r,
{
    true
}

/// Idle minutes before the buffer is paused automatically.
pub fn default_idle_minutes() -> (r: u32)
    ensures
        r == 5,
{
    5
}

/// The saved-clip overlay is shown unless configured otherwise.
pub fn default_overlay_notification() -> (r: bool)
    ensures
        r,
{
    true
}

/// Automatic clean-up is on unless configured otherwise.
pub fn default_cleanup_enabled() -> (r: bool)
    ensures
        r,
{
    true
}

/// Clips older than this many days are removed by the clean-up.
pub fn default_cleanup_max_age_days() -> (r: u32)
    ensures
        r == 30,
{
    30
}

/// Audio is shifted by this many milliseconds against the video by default.
pub fn default_audio_sync_offset_ms() -> (r: i32)
    ensures
        r == 200,
{
    200
}

/// A global hotkey slot: which key combination saves how much of the buffer
/// (zero seconds meaning the whole buffer).
#[derive(Clone, Debug)]
pub struct HotkeyBinding {
    pub id: String,
    pub hotkey: String,
    pub duration_secs: u32,
    pub label: String,
}

/// Whether a binding has the given contents.
pub open spec fn spec_binding_is(
    b: HotkeyBinding,
    id: Seq<char>,
    hotkey: Seq<char>,
    duration_secs: u32,
    label: Seq<char>,
) -> bool {
    b.id@ == id && b.hotkey@ == hotkey && b.duration_secs == duration_secs && b.label@ == label
}

/// Whether `v` is the list of default hotkey slots.
pub open spec fn spec_is_default_bindings(v: Seq<HotkeyBinding>) -> bool {
    &&& v.len() == 3
    &&& spec_binding_is(v[0], "slot_1"@, "Alt+C"@, 30, "Kurzer Clip (30s)"@)
    &&& spec_binding_is(v[1], "slot_2"@, "Alt+Shift+C"@, 120, "Standard Clip (2min)"@)
    &&& spec_binding_is(v[2], "slot_3"@, "Alt+Ctrl+C"@, 0, "Ganzer Puffer"@)
}

/// The three default hotkey slots: a short clip, a standard clip and the
/// whole buffer.
pub fn default_hotkey_bindings() -> (r: Vec<HotkeyBinding>)
    ensures
        spec_is_default_bindings(r@),
{
    let mut v: Vec<HotkeyBinding> = Vec::new();
    v.push(
        HotkeyBinding {
            id: owned("slot_1"),
            hotkey: owned("Alt+C"),
            duration_secs: 30,
            label: owned("Kurzer Clip (30s)"),
        },
    );
    v.push(
        HotkeyBinding {
            id: owned("slot_2"),
            hotkey: owned("Alt+Shift+C"),
            duration_secs: 120,
            label: owned("Standard Clip (2min)"),
        },
    );
    v.push(
        HotkeyBinding {
            id: owned("slot_3"),
            hotkey: owned("Alt+Ctrl+C"),
            duration_secs: 0,
            label: owned("Ganzer Puffer"),
        },
    );
    v
}

/// The hotkey list of a loaded configuration: an empty list is replaced by
/// the default slots, any other list is kept.
pub fn normalize_loaded_hotkeys(hotkeys: Vec<HotkeyBinding>) -> (r: Vec<HotkeyBinding>)
    ensures
        hotkeys@.len() == 0 ==> spec_is_default_bindings(r@),
        hotkeys@.len() > 0 ==> r@ == hotkeys@,
{
    if hotkeys.len() == 0 {
        default_hotkey_bindings()
    } else {
        hotkeys
    }
}

/// The legacy single hotkey stored beside the slots: the first slot's key
/// combination, or the current value when there are no slots.
pub fn primary_hotkey(current: String, hotkeys: &Vec<HotkeyBinding>) -> (r: String)
    ensures
        hotkeys@.len() > 0 ==> r@ == hotkeys@[0].hotkey@,
        hotkeys@.len() == 0 ==> r@ == current@,
{
    if hotkeys.len() > 0 {
        hotkeys[0].hotkey.clone()
    } else {
        current
    }
}

/// Isolated-app entries reduced to their executable file names; an entry
/// without a file name is kept as it is.
pub fn normalize_isolated_apps(entries: Vec<String>) -> (r: Vec<String>)
    ensures
        r@.len() == entries@.len(),
        forall|i: int|
            0 <= i < entries@.len() ==> #[trigger] r@[i]@ == (match spec_file_name(entries@[i]@) {
                Some(n) => n,
                None => entries@[i]@,
            }),
{
    let mut out: Vec<String> = Vec::new();
    let mut i: usize = 0;
    while i < entries.len()
        invariant
            i <= entries@.len(),
            out@.len() == i,
            forall|j: int|
                0 <= j < i ==> #[trigger] out@[j]@ == (match spec_file_name(entries@[j]@) {
                    Some(n) => n,
                    None => entries@[j]@,
                }),
        decreases entries@.len() - i,
    {
        let entry = entries[i].as_str();
        match file_name(entry) {
            Some(n) => out.push(n),
            None => out.push(owned(entry)),
        }
        i = i + 1;
    }
    out
}

/// Capture defaults chosen by machine strength: a machine with at most four
/// logical cores or at most 8 GiB of RAM records 30 fps at 720p with the low
/// bitrate and no cursor; others record 60 fps at the source resolution with
/// the balanced bitrate and the cursor.
pub fn default_capture_settings(logical_cores: u32, total_ram_mb: u64) -> (r: (
    String,
    String,
    BitratePreset,
    bool,
))
    ensures
        (logical_cores <= 4 || total_ram_mb <= 8192) ==> r.0@ == "30"@ && r.1@ == "720p"@ && r.2
            == BitratePreset::Low && !r.3,
        !(logical_cores <= 4 || total_ram_mb <= 8192) ==> r.0@ == "60"@ && r.1@ == "Original"@
            && r.2 == BitratePreset::Balanced && r.3,
{
    if logical_cores <= 4 || total_ram_mb <= 8192 {
        (owned("30"), owned("720p"), BitratePreset::Low, false)
    } else {
        (owned("60"), owned("Original"), BitratePreset::Balanced, true)
    }
}

} // verus!
