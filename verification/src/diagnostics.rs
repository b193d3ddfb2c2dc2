//! The performance view's interpretation of raw system facts: which
//! processes belong to the tool, what role each plays, which other screen
//! recorders compete for the encoder, the capture's target resolution, and
//! the labels shown for settings, power plans and scheduler priorities.
use vstd::prelude::*;
use crate::config::{BitratePreset, VideoCodec};
use crate::hardware::HardwareTier;
use crate::text::{
    chars_eq, chars_of, contains, owned, push_char, push_str, spec_contains, spec_lowercase,
    spec_strings, string_from_chars, to_lowercase,
};

verus! {

// ─── The tool's processes ───────────────────────────────────────────────────

/// Whether a set of process ids is closed under children in the process
/// table (id, parent id): every process whose parent is in the set is in it.
pub open spec fn spec_closed_under_children(t: Seq<(u32, Option<u32>)>, s: Set<u32>) -> bool {
    forall|i: int|
        0 <= i < t.len() ==> (#[trigger] t[i]).1 matches Some(p) && s.contains(p) ==> s.contains(t[i].0)
}

/// Whether `s` contains the tool's own process and, when known, the encoder
/// process.
pub open spec fn spec_has_seeds(s: Set<u32>, root: u32, child: Option<u32>) -> bool {
    s.contains(root) && (child matches Some(c) ==> s.contains(c))
}

/// Number of table entries among the first `n` whose process is not in `s`.
pub open spec fn spec_count_missing(t: Seq<(u32, Option<u32>)>, s: Seq<u32>, n: int) -> nat
    decreases n,
{
    if n <= 0 {
        0
    } else {
        spec_count_missing(t, s, n - 1) + if s.contains(t[n - 1].0) {
            0nat
        } else {
            1nat
        }
    }
}

proof fn lemma_count_missing_mono(t: Seq<(u32, Option<u32>)>, s: Seq<u32>, s2: Seq<u32>, n: int, k: int)
    requires
        0 <= n <= t.len(),
        forall|x: u32| s.contains(x) ==> s2.contains(x),
        0 <= k < n,
        !s.contains(t[k].0),
        s2.contains(t[k].0),
    ensures
        spec_count_missing(t, s2, n) < spec_count_missing(t, s, n),
    decreases n,
{
    lemma_count_missing_le(t, s, s2, n - 1);
    if k < n - 1 {
        lemma_count_missing_mono(t, s, s2, n - 1, k);
    }
}

proof fn lemma_count_missing_le(t: Seq<(u32, Option<u32>)>, s: Seq<u32>, s2: Seq<u32>, n: int)
    requires
        0 <= n <= t.len(),
        forall|x: u32| s.contains(x) ==> s2.contains(x),
    ensures
        spec_count_missing(t, s2, n) <= spec_count_missing(t, s, n),
    decreases n,
{
    if n > 0 {
        lemma_count_missing_le(t, s, s2, n - 1);
    }
}

fn contains_pid(v: &Vec<u32>, x: u32) -> (r: bool)
    ensures
        r == v@.contains(x),
{
    let mut i: usize = 0;
    while i < v.len()
        invariant
            i <= v@.len(),
            forall|j: int| 0 <= j < i ==> v@[j] != x,
        decreases v@.len() - i,
    {
        if v[i] == x {
            return true;
        }
        i = i + 1;
    }
    false
}

/// The processes of the tool in a process table (id, parent id): its own
/// process, the encoder process when one runs, and all their descendants,
/// each once. The result's set is the least set containing those two that
/// is closed under children.
pub fn tool_process_ids(root: u32, child: Option<u32>, table: &Vec<(u32, Option<u32>)>) -> (r: Vec<u32>)
    ensures
        r@.no_duplicates(),
        spec_has_seeds(r@.to_set(), root, child),
        spec_closed_under_children(table@, r@.to_set()),
        forall|s: Set<u32>|
            spec_has_seeds(s, root, child) && spec_closed_under_children(table@, s) ==> r@.to_set().subset_of(s),
{
    let ghost t = table@;
    let mut tool: Vec<u32> = Vec::new();
    tool.push(root);
    assert(tool@[0] == root);
    match child {
        Some(c) => {
            if c != root {
                tool.push(c);
                assert(tool@[1] == c);
            }
        },
        None => {},
    }
    assert(tool@[0] == root);
    assert(tool@.contains(root));
    assert(tool@.to_set().contains(root));
    proof {
        if let Some(c) = child {
            if c != root {
                assert(tool@.contains(c));
            }
            assert(tool@.to_set().contains(c));
        }
    }
    assert forall|s: Set<u32>|
        spec_has_seeds(s, root, child) && spec_closed_under_children(t, s) implies tool@.to_set().subset_of(s) by {
        assert forall|x: u32| tool@.to_set().contains(x) implies s.contains(x) by {
            let k = choose|k: int| 0 <= k < tool@.len() && tool@[k] == x;
            if k == 1 {
                assert(child == Some(x));
            }
        }
    }
    let mut added = true;
    while added
        invariant
            t == table@,
            tool@.no_duplicates(),
            spec_has_seeds(tool@.to_set(), root, child),
            forall|s: Set<u32>|
                spec_has_seeds(s, root, child) && spec_closed_under_children(t, s) ==> tool@.to_set().subset_of(s),
            !added ==> spec_closed_under_children(t, tool@.to_set()),
        decreases spec_count_missing(t, tool@, t.len() as int), if added { 1nat } else { 0nat },
    {
        let ghost start = tool@;
        added = false;
        let mut i: usize = 0;
        while i < table.len()
            invariant
                t == table@,
                i <= t.len(),
                tool@.no_duplicates(),
                forall|x: u32| start.contains(x) ==> tool@.contains(x),
                spec_has_seeds(tool@.to_set(), root, child),
                forall|s: Set<u32>|
                    spec_has_seeds(s, root, child) && spec_closed_under_children(t, s) ==> tool@.to_set().subset_of(s),
                added ==> spec_count_missing(t, tool@, t.len() as int) < spec_count_missing(
                    t,
                    start,
                    t.len() as int,
                ),
                !added ==> tool@ == start,
                !added ==> forall|j: int|
                    0 <= j < i ==> (#[trigger] t[j]).1 matches Some(p) && tool@.contains(p) ==> tool@.contains(t[j].0),
            decreases t.len() - i,
        {
            let (pid, parent) = table[i];
            if !contains_pid(&tool, pid) {
                match parent {
                    Some(p) => {
                        if contains_pid(&tool, p) {
                            let ghost before = tool@;
                            tool.push(pid);
                            proof {
                                assert(tool@[tool@.len() - 1] == pid);
                                assert(tool@.contains(pid));
                                assert forall|x: u32| before.contains(x) implies tool@.contains(x) by {
                                    let k = choose|k: int| 0 <= k < before.len() && before[k] == x;
                                    assert(tool@[k] == x);
                                }
                                assert(!start.contains(pid)) by {
                                    if start.contains(pid) {
                                        assert(before.contains(pid));
                                    }
                                }
                                assert(t[i as int].0 == pid);
                                lemma_count_missing_mono(t, start, tool@, t.len() as int, i as int);
                                assert forall|s: Set<u32>|
                                    spec_has_seeds(s, root, child) && spec_closed_under_children(t, s)
                                        implies tool@.to_set().subset_of(s) by {
                                    assert(before.to_set().subset_of(s));
                                    assert(before.to_set().contains(p));
                                    assert(t[i as int].1 == Some(p));
                                    assert forall|x: u32| tool@.to_set().contains(x) implies s.contains(x) by {
                                        if x != pid {
                                            let k = choose|k: int| 0 <= k < tool@.len() && tool@[k] == x;
                                            assert(before[k] == x);
                                            assert(before.to_set().contains(x));
                                        }
                                    }
                                }
                                assert(tool@.to_set().contains(root));
                                assert(child matches Some(c) ==> tool@.to_set().contains(c)) by {
                                    if let Some(c) = child {
                                        assert(before.to_set().contains(c));
                                    }
                                }
                            }
                            added = true;
                        }
                    },
                    None => {},
                }
            }
            i = i + 1;
        }
        proof {
            if !added {
                assert(spec_closed_under_children(t, tool@.to_set()));
            }
        }
    }
    tool
}

// ─── Process roles ──────────────────────────────────────────────────────────

/// The command line as one text: the arguments joined by single spaces.
pub open spec fn spec_join_spaces(args: Seq<Seq<char>>) -> Seq<char>
    decreases args.len(),
{
    if args.len() == 0 {
        Seq::empty()
    } else if args.len() == 1 {
        args[0]
    } else {
        spec_join_spaces(args.drop_last()) + " "@ + args.last()
    }
}

/// The role shown for a process of the tool: the tool itself, the FFmpeg
/// encoder, the kind of WebView2 process (from its `--type=` argument), or
/// a background helper.
pub open spec fn spec_process_role(pid: u32, root_pid: u32, name: Seq<char>, cmd: Seq<Seq<char>>) -> Seq<char> {
    let lower = spec_lowercase(name);
    let line = spec_join_spaces(cmd);
    if pid == root_pid {
        "Hauptanwendung (Rust & Tauri Core)"@
    } else if spec_contains(lower, "ffmpeg"@) {
        "Video-Aufnahme (FFmpeg Encoder)"@
    } else if spec_contains(lower, "msedgewebview2"@) {
        if spec_contains(line, "--type=gpu-process"@) {
            "WebView2 (DirectX GPU Compositor)"@
        } else if spec_contains(line, "--type=renderer"@) {
            "WebView2 (UI Rendering Engine)"@
        } else if spec_contains(line, "--type=utility"@) {
            "WebView2 (Utility / Audio / IPC)"@
        } else if spec_contains(line, "--type=crashpad-handler"@) {
            "WebView2 (Crash Reporter)"@
        } else {
            "WebView2 (Browser Host)"@
        }
    } else {
        "Hintergrund-Subprozess"@
    }
}

fn join_spaces(args: &Vec<String>) -> (r: String)
    ensures
        r@ == spec_join_spaces(spec_strings(args@)),
{
    let ghost a = spec_strings(args@);
    let mut r = String::new();
    let mut i: usize = 0;
    while i < args.len()
        invariant
            i <= args@.len(),
            a == spec_strings(args@),
            r@ == spec_join_spaces(a.subrange(0, i as int)),
        decreases args@.len() - i,
    {
        if i > 0 {
            push_str(&mut r, " ");
        }
        push_str(&mut r, args[i].as_str());
        proof {
            let sub = a.subrange(0, i + 1);
            assert(sub.drop_last() =~= a.subrange(0, i as int));
            if i == 0 {
                assert(r@ =~= sub[0]);
            }
        }
        i = i + 1;
    }
    assert(a.subrange(0, args@.len() as int) =~= a);
    r
}

fn has(s: &[char], w: &str) -> (r: bool)
    ensures
        r == spec_contains(s@, w@),
{
    let wc = chars_of(w);
    contains(s, wc.as_slice())
}

/// The role shown for a process of the tool (see `spec_process_role`).
pub fn determine_role(pid: u32, root_pid: u32, name: &str, cmd: &Vec<String>) -> (r: String)
    ensures
        r@ == spec_process_role(pid, root_pid, name@, spec_strings(cmd@)),
{
    if pid == root_pid {
        return owned("Hauptanwendung (Rust & Tauri Core)");
    }
    let lower = to_lowercase(name);
    let l = chars_of(lower.as_str());
    if has(l.as_slice(), "ffmpeg") {
        return owned("Video-Aufnahme (FFmpeg Encoder)");
    }
    if has(l.as_slice(), "msedgewebview2") {
        let line = join_spaces(cmd);
        let lc = chars_of(line.as_str());
        if has(lc.as_slice(), "--type=gpu-process") {
            return owned("WebView2 (DirectX GPU Compositor)");
        }
        if has(lc.as_slice(), "--type=renderer") {
            return owned("WebView2 (UI Rendering Engine)");
        }
        if has(lc.as_slice(), "--type=utility") {
            return owned("WebView2 (Utility / Audio / IPC)");
        }
        if has(lc.as_slice(), "--type=crashpad-handler") {
            return owned("WebView2 (Crash Reporter)");
        }
        return owned("WebView2 (Browser Host)");
    }
    owned("Hintergrund-Subprozess")
}

// ─── Competing recorders ────────────────────────────────────────────────────

/// The competing recorder a lowercase process name belongs to, if any.
pub open spec fn spec_recorder_kind(lower: Seq<char>) -> Option<Seq<char>> {
    if spec_contains(lower, "bcastdvr"@) || spec_contains(lower, "gamebarpresencewriter"@) {
        Some("Windows Game Bar DVR"@)
    } else if spec_contains(lower, "nvcontainer"@) || spec_contains(lower, "shadowplay"@)
        || spec_contains(lower, "nvidia share"@) {
        Some("NVIDIA ShadowPlay / Share"@)
    } else if spec_contains(lower, "obs64"@) || spec_contains(lower, "obs32"@) || spec_contains(
        lower,
        "streamlabs"@,
    ) {
        Some("OBS Studio / Streamlabs"@)
    } else if spec_contains(lower, "amddvr"@) || spec_contains(lower, "radeonsoftware"@) {
        Some("AMD Radeon ReLive"@)
    } else {
        None
    }
}

/// The competing recorders among the first `n` processes, each once, in
/// the order they are first seen (names compared in lowercase).
pub open spec fn spec_conflicting_recorders(names: Seq<Seq<char>>, n: int) -> Seq<Seq<char>>
    decreases n,
{
    if n <= 0 {
        Seq::empty()
    } else {
        let prev = spec_conflicting_recorders(names, n - 1);
        match spec_recorder_kind(spec_lowercase(names[n - 1])) {
            Some(k) => if prev.contains(k) {
                prev
            } else {
                prev.push(k)
            },
            None => prev,
        }
    }
}

fn recorder_kind(lower: &[char]) -> (r: Option<&'static str>)
    ensures
        match r {
            Some(k) => spec_recorder_kind(lower@) == Some(k@),
            None => spec_recorder_kind(lower@) is None,
        },
{
    if has(lower, "bcastdvr") || has(lower, "gamebarpresencewriter") {
        Some("Windows Game Bar DVR")
    } else if has(lower, "nvcontainer") || has(lower, "shadowplay") || has(lower, "nvidia share") {
        Some("NVIDIA ShadowPlay / Share")
    } else if has(lower, "obs64") || has(lower, "obs32") || has(lower, "streamlabs") {
        Some("OBS Studio / Streamlabs")
    } else if has(lower, "amddvr") || has(lower, "radeonsoftware") {
        Some("AMD Radeon ReLive")
    } else {
        None
    }
}

/// The competing recorders among the running processes (see
/// `spec_conflicting_recorders`).
pub fn conflicting_recorders(names: &Vec<String>) -> (r: Vec<String>)
    ensures
        spec_strings(r@) == spec_conflicting_recorders(spec_strings(names@), names@.len() as int),
{
    let ghost ns = spec_strings(names@);
    let mut out: Vec<String> = Vec::new();
    let mut i: usize = 0;
    while i < names.len()
        invariant
            i <= names@.len(),
            ns == spec_strings(names@),
            spec_strings(out@) == spec_conflicting_recorders(ns, i as int),
        decreases names@.len() - i,
    {
        let lower = to_lowercase(names[i].as_str());
        let l = chars_of(lower.as_str());
        assert(ns[i as int] == names@[i as int]@);
        match recorder_kind(l.as_slice()) {
            Some(k) => {
                let kc = chars_of(k);
                let mut present = false;
                let mut j: usize = 0;
                while j < out.len()
                    invariant
                        j <= out@.len(),
                        kc@ == k@,
                        present == exists|m: int| 0 <= m < j && out@[m]@ == k@,
                    decreases out@.len() - j,
                {
                    let oc = chars_of(out[j].as_str());
                    if chars_eq(oc.as_slice(), kc.as_slice()) {
                        present = true;
                    }
                    j = j + 1;
                }
                let ghost before = out@;
                proof {
                    if present {
                        let m = choose|m: int| 0 <= m < out@.len() && out@[m]@ == k@;
                        assert(spec_strings(out@)[m] == k@);
                    } else {
                        assert forall|m: int| 0 <= m < spec_strings(out@).len() implies spec_strings(out@)[m] != k@ by {
                            assert(spec_strings(out@)[m] == out@[m]@);
                        }
                    }
                }
                if !present {
                    out.push(owned(k));
                    assert(spec_strings(out@) =~= spec_strings(before).push(k@));
                }
            },
            None => {},
        }
        i = i + 1;
    }
    out
}

// ─── Settings labels ────────────────────────────────────────────────────────

/// The capture size a resolution setting stands for (compared in
/// lowercase); the monitor's own size for `Original` and anything unknown.
pub open spec fn spec_target_size(lower: Seq<char>, mon_w: u32, mon_h: u32) -> (u32, u32) {
    if lower == "1440p"@ {
        (2560, 1440)
    } else if lower == "1080p"@ {
        (1920, 1080)
    } else if lower == "900p"@ {
        (1600, 900)
    } else if lower == "720p"@ {
        (1280, 720)
    } else if lower == "540p"@ {
        (960, 540)
    } else if lower == "480p"@ {
        (854, 480)
    } else if lower == "360p"@ {
        (640, 360)
    } else if lower == "240p"@ {
        (426, 240)
    } else {
        (mon_w, mon_h)
    }
}

fn is_word(s: &[char], w: &str) -> (r: bool)
    ensures
        r == (s@ == w@),
{
    let wc = chars_of(w);
    chars_eq(s, wc.as_slice())
}

/// The capture size a resolution setting stands for (see
/// `spec_target_size`).
pub fn target_size(resolution: &str, mon_w: u32, mon_h: u32) -> (r: (u32, u32))
    ensures
        r == spec_target_size(spec_lowercase(resolution@), mon_w, mon_h),
{
    let lower = to_lowercase(resolution);
    let l = chars_of(lower.as_str());
    let s = l.as_slice();
    if is_word(s, "1440p") {
        (2560, 1440)
    } else if is_word(s, "1080p") {
        (1920, 1080)
    } else if is_word(s, "900p") {
        (1600, 900)
    } else if is_word(s, "720p") {
        (1280, 720)
    } else if is_word(s, "540p") {
        (960, 540)
    } else if is_word(s, "480p") {
        (854, 480)
    } else if is_word(s, "360p") {
        (640, 360)
    } else if is_word(s, "240p") {
        (426, 240)
    } else {
        (mon_w, mon_h)
    }
}

/// How the active encoder accelerates the capture.
pub fn hw_acceleration_label(encoder: &str) -> (r: &'static str)
    ensures
        r@ == (if spec_contains(encoder@, "qsv"@) {
            "Aktiv (Intel QuickSync / Xe2 ASIC)"@
        } else if spec_contains(encoder@, "nvenc"@) {
            "Aktiv (NVIDIA NVENC ASIC)"@
        } else if spec_contains(encoder@, "amf"@) {
            "Aktiv (AMD AMF / VCN ASIC)"@
        } else {
            "⚠️ KEINE (CPU Software-Encoding - Hohe Last!)"@
        }),
{
    let e = chars_of(encoder);
    if has(e.as_slice(), "qsv") {
        "Aktiv (Intel QuickSync / Xe2 ASIC)"
    } else if has(e.as_slice(), "nvenc") {
        "Aktiv (NVIDIA NVENC ASIC)"
    } else if has(e.as_slice(), "amf") {
        "Aktiv (AMD AMF / VCN ASIC)"
    } else {
        "⚠️ KEINE (CPU Software-Encoding - Hohe Last!)"
    }
}

/// How frames are scaled for the active encoder.
pub fn scaling_label(encoder: &str) -> (r: &'static str)
    ensures
        r@ == (if spec_contains(encoder@, "nvenc"@) {
            "DirectX VRAM / Cuda"@
        } else if spec_contains(encoder@, "qsv"@) {
            "Fast-Bilinear SIMD + QSV"@
        } else {
            "Fast-Bilinear SIMD (CPU Swscale)"@
        }),
{
    let e = chars_of(encoder);
    if has(e.as_slice(), "nvenc") {
        "DirectX VRAM / Cuda"
    } else if has(e.as_slice(), "qsv") {
        "Fast-Bilinear SIMD + QSV"
    } else {
        "Fast-Bilinear SIMD (CPU Swscale)"
    }
}

/// The label of the configured codec.
pub fn codec_label(codec: VideoCodec) -> (r: &'static str)
    ensures
        codec == VideoCodec::H264 ==> r@ == "H.264 (Universell kompatibel)"@,
        codec == VideoCodec::HEVC ==> r@ == "HEVC / H.265 (High Efficiency)"@,
        codec == VideoCodec::AV1 ==> r@ == "AV1 (Next-Gen Ultra)"@,
{
    match codec {
        VideoCodec::H264 => "H.264 (Universell kompatibel)",
        VideoCodec::HEVC => "HEVC / H.265 (High Efficiency)",
        VideoCodec::AV1 => "AV1 (Next-Gen Ultra)",
    }
}

/// The label of the configured bitrate preset.
pub fn bitrate_label(preset: BitratePreset) -> (r: &'static str)
    ensures
        preset == BitratePreset::Low ==> r@ == "Low (6.000 kbps)"@,
        preset == BitratePreset::Balanced ==> r@ == "Balanced (12.000 kbps)"@,
        preset == BitratePreset::High ==> r@ == "High (20.000 kbps)"@,
        preset == BitratePreset::Ultra ==> r@ == "Ultra (35.000 kbps)"@,
{
    match preset {
        BitratePreset::Low => "Low (6.000 kbps)",
        BitratePreset::Balanced => "Balanced (12.000 kbps)",
        BitratePreset::High => "High (20.000 kbps)",
        BitratePreset::Ultra => "Ultra (35.000 kbps)",
    }
}

/// The label of the machine's tier.
pub fn tier_label(tier: HardwareTier) -> (r: &'static str)
    ensures
        tier == HardwareTier::Strong ==> r@ == "High-End Gaming Rig (Tier: Strong)"@,
        tier == HardwareTier::Mid ==> r@ == "Mittelklasse System (Tier: Mid)"@,
        tier == HardwareTier::Weak ==> r@ == "Basis / Office PC (Tier: Weak)"@,
{
    match tier {
        HardwareTier::Strong => "High-End Gaming Rig (Tier: Strong)",
        HardwareTier::Mid => "Mittelklasse System (Tier: Mid)",
        HardwareTier::Weak => "Basis / Office PC (Tier: Weak)",
    }
}

// ─── Hexadecimal ────────────────────────────────────────────────────────────

/// A hexadecimal digit (lowercase or uppercase letters).
pub open spec fn spec_hex_digit(d: nat, upper: bool) -> char {
    if d < 10 {
        ((d + 48) as int) as char
    } else if upper {
        ((d - 10 + 65) as int) as char
    } else {
        ((d - 10 + 97) as int) as char
    }
}

/// Hexadecimal rendering of `n` with at least `width` digits (zero-padded).
pub open spec fn spec_hex(n: nat, width: nat, upper: bool) -> Seq<char>
    decreases width, n,
{
    if n < 16 && width <= 1 {
        seq![spec_hex_digit(n, upper)]
    } else {
        spec_hex(
            n / 16,
            if width >= 1 {
                (width - 1) as nat
            } else {
                0
            },
            upper,
        ).push(spec_hex_digit(n % 16, upper))
    }
}

fn hex_digit(d: u64, upper: bool) -> (c: char)
    requires
        d < 16,
    ensures
        c == spec_hex_digit(d as nat, upper),
{
    if d < 10 {
        let b: u8 = (d + 48) as u8;
        b as char
    } else if upper {
        let b: u8 = (d - 10 + 65) as u8;
        b as char
    } else {
        let b: u8 = (d - 10 + 97) as u8;
        b as char
    }
}

/// Appends `n` in hexadecimal with at least `width` digits.
pub fn push_hex(out: &mut String, n: u64, width: u64, upper: bool)
    ensures
        final(out)@ == old(out)@ + spec_hex(n as nat, width as nat, upper),
    decreases width, n,
{
    if n < 16 && width <= 1 {
        push_char(out, hex_digit(n, upper));
        assert(final(out)@ =~= old(out)@ + spec_hex(n as nat, width as nat, upper));
    } else {
        let w: u64 = if width >= 1 {
            width - 1
        } else {
            0
        };
        push_hex(out, n / 16, w, upper);
        push_char(out, hex_digit(n % 16, upper));
        assert(final(out)@ =~= old(out)@ + spec_hex(n as nat, width as nat, upper));
    }
}

// ─── Power plans and priorities ─────────────────────────────────────────────

/// The text of a power scheme's GUID: `xxxxxxxx-xxxx-xxxx-xxxx-xxxxxxxxxxxx`
/// in lowercase hexadecimal.
pub open spec fn spec_guid_text(d1: u32, d2: u16, d3: u16, d4: Seq<u8>) -> Seq<char> {
    spec_hex(d1 as nat, 8, false) + "-"@ + spec_hex(d2 as nat, 4, false) + "-"@ + spec_hex(
        d3 as nat,
        4,
        false,
    ) + "-"@ + spec_hex(d4[0] as nat, 2, false) + spec_hex(d4[1] as nat, 2, false) + "-"@
        + spec_hex(d4[2] as nat, 2, false) + spec_hex(d4[3] as nat, 2, false) + spec_hex(
        d4[4] as nat,
        2,
        false,
    ) + spec_hex(d4[5] as nat, 2, false) + spec_hex(d4[6] as nat, 2, false) + spec_hex(
        d4[7] as nat,
        2,
        false,
    )
}

/// The name of a power scheme: the four Windows schemes by GUID, otherwise
/// a custom scheme with the first eight digits of its GUID.
pub open spec fn spec_power_plan_name(guid: Seq<char>) -> Seq<char> {
    if guid == "8c5e7fda-e83b-456f-a246-3848033630c2"@ {
        "Höchstleistung (High Performance)"@
    } else if guid == "381b4222-f694-41f0-9685-ff5bb260df2e"@ {
        "Ausbalanciert (Balanced)"@
    } else if guid == "a1841308-3541-4fab-bc81-f71556f20b4a"@ {
        "Energiesparmodus (Power Saver)"@
    } else if guid == "e9a42b02-d5df-448d-aa00-03f14749eb61"@ {
        "Ultimative Leistung (Ultimate Performance)"@
    } else {
        "Benutzerdefiniert ("@ + guid.subrange(0, 8) + ")"@
    }
}

/// The text of a power scheme's GUID (see `spec_guid_text`).
pub fn guid_text(d1: u32, d2: u16, d3: u16, d4: &[u8; 8]) -> (r: String)
    ensures
        r@ == spec_guid_text(d1, d2, d3, d4@),
{
    let mut r = String::new();
    push_hex(&mut r, d1 as u64, 8, false);
    push_str(&mut r, "-");
    push_hex(&mut r, d2 as u64, 4, false);
    push_str(&mut r, "-");
    push_hex(&mut r, d3 as u64, 4, false);
    push_str(&mut r, "-");
    push_hex(&mut r, d4[0] as u64, 2, false);
    push_hex(&mut r, d4[1] as u64, 2, false);
    push_str(&mut r, "-");
    push_hex(&mut r, d4[2] as u64, 2, false);
    push_hex(&mut r, d4[3] as u64, 2, false);
    push_hex(&mut r, d4[4] as u64, 2, false);
    push_hex(&mut r, d4[5] as u64, 2, false);
    push_hex(&mut r, d4[6] as u64, 2, false);
    push_hex(&mut r, d4[7] as u64, 2, false);
    r
}

proof fn lemma_hex_len(n: nat, width: nat, upper: bool)
    ensures
        spec_hex(n, width, upper).len() >= width,
        spec_hex(n, width, upper).len() >= 1,
    decreases width, n,
{
    if !(n < 16 && width <= 1) {
        lemma_hex_len(
            n / 16,
            if width >= 1 {
                (width - 1) as nat
            } else {
                0
            },
            upper,
        );
    }
}

/// The name of the active power scheme from its GUID (see
/// `spec_power_plan_name`).
pub fn power_plan_name(d1: u32, d2: u16, d3: u16, d4: &[u8; 8]) -> (r: String)
    ensures
        r@ == spec_power_plan_name(spec_guid_text(d1, d2, d3, d4@)),
{
    let g = guid_text(d1, d2, d3, d4);
    let gc = chars_of(g.as_str());
    let s = gc.as_slice();
    if is_word(s, "8c5e7fda-e83b-456f-a246-3848033630c2") {
        owned("Höchstleistung (High Performance)")
    } else if is_word(s, "381b4222-f694-41f0-9685-ff5bb260df2e") {
        owned("Ausbalanciert (Balanced)")
    } else if is_word(s, "a1841308-3541-4fab-bc81-f71556f20b4a") {
        owned("Energiesparmodus (Power Saver)")
    } else if is_word(s, "e9a42b02-d5df-448d-aa00-03f14749eb61") {
        owned("Ultimative Leistung (Ultimate Performance)")
    } else {
        proof {
            lemma_hex_len(d1 as nat, 8, false);
        }
        let mut first: Vec<char> = Vec::new();
        let mut i: usize = 0;
        while i < 8
            invariant
                i <= 8,
                gc@.len() >= 8,
                first@ == gc@.subrange(0, i as int),
            decreases 8 - i,
        {
            first.push(gc[i]);
            i = i + 1;
        }
        let mut r = owned("Benutzerdefiniert (");
        push_str(&mut r, string_from_chars(first.as_slice()).as_str());
        push_str(&mut r, ")");
        r
    }
}

/// The label of the tool's scheduler priority class: the four known classes
/// by name, any other as `0x<hex>`.
pub fn priority_label(prio: u32) -> (r: String)
    ensures
        prio == 0x20 ==> r@ == "Normal (Standard)"@,
        prio == 0x8000 ==> r@ == "Above Normal (Priorisiert)"@,
        prio == 0x80 ==> r@ == "High (Höchste Priorität)"@,
        prio == 0x40 ==> r@ == "Idle / Eco (Drosselung)"@,
        prio != 0x20 && prio != 0x8000 && prio != 0x80 && prio != 0x40 ==> r@ == "0x"@ + spec_hex(
            prio as nat,
            0,
            true,
        ),
{
    if prio == 0x20 {
        owned("Normal (Standard)")
    } else if prio == 0x8000 {
        owned("Above Normal (Priorisiert)")
    } else if prio == 0x80 {
        owned("High (Höchste Priorität)")
    } else if prio == 0x40 {
        owned("Idle / Eco (Drosselung)")
    } else {
        let mut r = owned("0x");
        push_hex(&mut r, prio as u64, 0, true);
        r
    }
}


// ─── Storage and environment ────────────────────────────────────────────────

/// What kind of drive the clips are written to.
#[derive(Debug)]
pub struct StorageMediaDiagnostics {
    pub drive_letter: String,
    pub drive_type: String,
    pub is_ssd: bool,
}

/// Power plan and competing recorders.
#[derive(Debug)]
pub struct SystemEnvironmentDiagnostics {
    pub power_plan: String,
    pub conflicting_recorders: Vec<String>,
}

/// Whether byte-indexing the first two bytes of a path is valid: the path's
/// first characters are ASCII wherever such an index would fall.
pub open spec fn spec_drive_index_ok(p: Seq<char>) -> bool {
    &&& p.len() >= 1 ==> (p[0] as u32) < 128
    &&& p.len() >= 2 ==> (p[1] as u32) < 128
}

/// The root of the drive a path lies on: `X:\` for a path starting with a
/// drive letter, `C:\` otherwise.
pub open spec fn spec_drive_root(p: Seq<char>) -> Seq<char> {
    if p.len() >= 2 && p[1] == ':' {
        seq![p[0], ':', '\\']
    } else {
        "C:\\"@
    }
}

/// The root of the drive a path lies on (see `spec_drive_root`).
pub fn drive_root(path: &str) -> (r: String)
    requires
        spec_drive_index_ok(path@),
    ensures
        r@ == spec_drive_root(path@),
{
    let p = chars_of(path);
    proof {
        reveal_strlit("C:\\");
    }
    if p.len() >= 2 && p[1] == ':' {
        let mut r = String::new();
        push_char(&mut r, p[0]);
        push_char(&mut r, ':');
        push_char(&mut r, '\\');
        assert(r@ =~= seq![p@[0], ':', '\\']);
        r
    } else {
        owned("C:\\")
    }
}

/// The storage diagnostics for the clips folder from the drive type Windows
/// reports for its root: removable (2) and network (4) drives are slow,
/// fixed drives (3) and anything else count as fast local storage.
pub fn storage_media(path: &str, drive_type: u32) -> (r: StorageMediaDiagnostics)
    requires
        spec_drive_index_ok(path@),
    ensures
        r.drive_letter@ == spec_drive_root(path@).drop_last(),
        drive_type == 2 ==> r.drive_type@ == "Externes Wechsellaufwerk / USB"@ && !r.is_ssd,
        drive_type == 4 ==> r.drive_type@ == "Netzlaufwerk (SMB/NAS)"@ && !r.is_ssd,
        drive_type == 3 ==> r.drive_type@ == "Interne SSD / Festplatte"@ && r.is_ssd,
        drive_type != 2 && drive_type != 3 && drive_type != 4 ==> r.drive_type@
            == "Lokales Dateisystem"@ && r.is_ssd,
{
    let root = drive_root(path);
    let rc = chars_of(root.as_str());
    proof {
        reveal_strlit("C:\\");
    }
    let mut letter: Vec<char> = Vec::new();
    letter.push(rc[0]);
    letter.push(rc[1]);
    assert(letter@ =~= spec_drive_root(path@).drop_last());
    let (kind, fast) = if drive_type == 2 {
        ("Externes Wechsellaufwerk / USB", false)
    } else if drive_type == 4 {
        ("Netzlaufwerk (SMB/NAS)", false)
    } else if drive_type == 3 {
        ("Interne SSD / Festplatte", true)
    } else {
        ("Lokales Dateisystem", true)
    };
    StorageMediaDiagnostics {
        drive_letter: string_from_chars(letter.as_slice()),
        drive_type: owned(kind),
        is_ssd: fast,
    }
}

/// The environment diagnostics from the active power plan's name and the
/// running processes' names (see `spec_conflicting_recorders`).
pub fn system_environment(power_plan: String, process_names: &Vec<String>) -> (r: SystemEnvironmentDiagnostics)
    ensures
        r.power_plan == power_plan,
        spec_strings(r.conflicting_recorders@) == spec_conflicting_recorders(
            spec_strings(process_names@),
            process_names@.len() as int,
        ),
{
    SystemEnvironmentDiagnostics { power_plan, conflicting_recorders: conflicting_recorders(process_names) }
}

} // verus!
