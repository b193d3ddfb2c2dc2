//! Construction and validation of the capture pipeline's command line: the
//! desktop-duplication filter graph, the encoder-specific rate-control
//! options and the MPEG-TS output options.
use vstd::prelude::*;
use crate::args::{push_lit, push_lit2, push_lit_string, push_lits, push_string};
use crate::config::BitratePreset;
use crate::hardware::{HardwareTier, ScalingMethod};
use crate::recorder::spec_strip_kilo;
use crate::text::{
    chars_eq, chars_of, contains, decimal_string, eq_ignore_ascii_case, owned, parse_unsigned, push_decimal,
    push_str, spec_all_digits, spec_contains, spec_decimal, spec_eq_ignore_ascii_case,
    spec_is_digit, spec_parse_unsigned, spec_strings, spec_strs, spec_occurs_at,
};

verus! {

// ─── Presets and resolutions ────────────────────────────────────────────────

/// The bitrate a preset stands for.
pub open spec fn spec_preset_bitrate(p: BitratePreset) -> Seq<char> {
    match p {
        BitratePreset::Low => "6000k"@,
        BitratePreset::Balanced => "12000k"@,
        BitratePreset::High => "20000k"@,
        BitratePreset::Ultra => "35000k"@,
    }
}

/// The bitrate a preset stands for.
pub fn bitrate_from_preset(preset: &BitratePreset) -> (r: &'static str)
    ensures
        r@ == spec_preset_bitrate(*preset),
{
    match preset {
        BitratePreset::Low => "6000k",
        BitratePreset::Balanced => "12000k",
        BitratePreset::High => "20000k",
        BitratePreset::Ultra => "35000k",
    }
}

/// A decimal number that fits in `u32`, as `str::parse::<u32>` reads it.
pub open spec fn spec_parse_u32(s: Seq<char>) -> Option<u32> {
    match spec_parse_unsigned(s) {
        Some(v) => if v <= u32::MAX {
            Some(v as u32)
        } else {
            None
        },
        None => None,
    }
}

/// The output height a resolution names: `<h>p` or `<h>P` with `h` between
/// 144 and 4320; nothing for `original` (in any ASCII case) or anything else.
pub open spec fn spec_res_height(res: Seq<char>) -> Option<u32> {
    if spec_eq_ignore_ascii_case(res, "original"@) {
        None
    } else if res.len() > 0 && (res.last() == 'p' || res.last() == 'P') {
        match spec_parse_u32(res.drop_last()) {
            Some(h) => if 144 <= h && h <= 4320 {
                Some(h)
            } else {
                None
            },
            None => None,
        }
    } else {
        None
    }
}

fn parse_u32(s: &[char]) -> (r: Option<u32>)
    ensures
        r == spec_parse_u32(s@),
{
    match parse_unsigned(s, u32::MAX as u64) {
        Some(v) => Some(v as u32),
        None => None,
    }
}

/// The output height a resolution names (see `spec_res_height`).
pub fn res_height(res: &str) -> (r: Option<u32>)
    ensures
        r == spec_res_height(res@),
{
    let cs = chars_of(res);
    let original = chars_of("original");
    if eq_ignore_ascii_case(cs.as_slice(), original.as_slice()) {
        return None;
    }
    let n = cs.len();
    if n > 0 && (cs[n - 1] == 'p' || cs[n - 1] == 'P') {
        let mut digits = cs.clone();
        digits.pop();
        assert(digits@ == res@.drop_last());
        match parse_u32(digits.as_slice()) {
            Some(h) => if 144 <= h && h <= 4320 {
                Some(h)
            } else {
                None
            },
            None => None,
        }
    } else {
        None
    }
}

// ─── Filter graph ───────────────────────────────────────────────────────────

/// The pixel format handed to the encoder: NV12 for the hardware encoders
/// (NVENC, QuickSync, AMF), planar YUV 4:2:0 otherwise.
pub open spec fn spec_target_format(encoder: Seq<char>) -> Seq<char> {
    if spec_contains(encoder, "nvenc"@) || spec_contains(encoder, "qsv"@) || spec_contains(
        encoder,
        "amf"@,
    ) {
        "nv12"@
    } else {
        "yuv420p"@
    }
}

/// The desktop-duplication source of the graph.
pub open spec fn spec_ddagrab(monitor_idx: u32, fps: Seq<char>, draw_mouse: bool) -> Seq<char> {
    "ddagrab=output_idx="@ + spec_decimal(monitor_idx as nat) + ":framerate="@ + fps
        + ":draw_mouse="@ + (if draw_mouse {
        "true"@
    } else {
        "false"@
    }) + ":dup_frames=true"@
}

/// The height the graph scales to: the resolution's, or the monitor's when
/// the resolution names none.
pub open spec fn spec_graph_height(resolution: Seq<char>, monitor_h: u32) -> u32 {
    match spec_res_height(resolution) {
        Some(h) => h,
        None => monitor_h,
    }
}

/// The capture filter graph: grab the monitor, download to BGRA, optionally
/// tone-map HDR, scale down when the target is lower than the monitor, and
/// convert to the encoder's pixel format.
pub open spec fn spec_capture_graph(
    encoder: Seq<char>,
    fps: Seq<char>,
    resolution: Seq<char>,
    monitor_h: u32,
    draw_mouse: bool,
    monitor_idx: u32,
    hdr_tonemapping: bool,
) -> Seq<char> {
    let h = spec_graph_height(resolution, monitor_h);
    spec_ddagrab(monitor_idx, fps, draw_mouse) + ",hwdownload,format=bgra"@ + (if hdr_tonemapping {
        ",tonemap=tonemap=hable:desat=0"@
    } else {
        Seq::empty()
    }) + (if h < monitor_h {
        ",scale=-2:"@ + spec_decimal(h as nat) + ":flags=fast_bilinear"@
    } else {
        Seq::empty()
    }) + ",format="@ + spec_target_format(encoder)
}

fn target_format(encoder: &str) -> (r: &'static str)
    ensures
        r@ == spec_target_format(encoder@),
{
    let e = chars_of(encoder);
    let nvenc = chars_of("nvenc");
    let qsv = chars_of("qsv");
    let amf = chars_of("amf");
    if contains(e.as_slice(), nvenc.as_slice()) || contains(e.as_slice(), qsv.as_slice())
        || contains(e.as_slice(), amf.as_slice()) {
        "nv12"
    } else {
        "yuv420p"
    }
}

/// The capture filter graph (see `spec_capture_graph`). The scaling method
/// does not change it.
pub fn capture_graph(
    encoder: &str,
    fps: &str,
    resolution: &str,
    monitor_h: u32,
    draw_mouse: bool,
    _scaling_method: &ScalingMethod,
    monitor_idx: u32,
    hdr_tonemapping: bool,
) -> (r: String)
    ensures
        r@ == spec_capture_graph(
            encoder@,
            fps@,
            resolution@,
            monitor_h,
            draw_mouse,
            monitor_idx,
            hdr_tonemapping,
        ),
{
    let mut g = String::new();
    push_str(&mut g, "ddagrab=output_idx=");
    push_decimal(&mut g, monitor_idx as u64);
    push_str(&mut g, ":framerate=");
    push_str(&mut g, fps);
    push_str(&mut g, ":draw_mouse=");
    push_str(&mut g, if draw_mouse { "true" } else { "false" });
    push_str(&mut g, ":dup_frames=true");
    assert(g@ =~= spec_ddagrab(monitor_idx, fps@, draw_mouse));
    let ghost base = g@;
    push_str(&mut g, ",hwdownload,format=bgra");
    let ghost with_download = g@;
    if hdr_tonemapping {
        push_str(&mut g, ",tonemap=tonemap=hable:desat=0");
    }
    let ghost with_tonemap = g@;
    let h = match res_height(resolution) {
        Some(v) => v,
        None => monitor_h,
    };
    if h < monitor_h {
        push_str(&mut g, ",scale=-2:");
        push_decimal(&mut g, h as u64);
        push_str(&mut g, ":flags=fast_bilinear");
    }
    let ghost with_scale = g@;
    push_str(&mut g, ",format=");
    push_str(&mut g, target_format(encoder));
    assert(g@ =~= spec_capture_graph(
        encoder@,
        fps@,
        resolution@,
        monitor_h,
        draw_mouse,
        monitor_idx,
        hdr_tonemapping,
    ));
    g
}


// ─── Command line ───────────────────────────────────────────────────────────

/// The three rate-control options, all set to the bitrate.
pub open spec fn spec_rate_args(b: Seq<char>) -> Seq<Seq<char>> {
    seq!["-b:v"@, b, "-maxrate"@, b, "-bufsize"@, b]
}

/// Keyframe interval: two seconds of frames, at least thirty.
pub open spec fn spec_gop_size(fps: u32) -> nat {
    if fps * 2 >= 30 {
        (fps * 2) as nat
    } else {
        30
    }
}

/// Encoder threads for the software encoders: half the available cores
/// (four when unknown), at least one.
pub open spec fn spec_encoder_threads(available_cores: Option<usize>) -> u32 {
    let c: u32 = match available_cores {
        Some(n) => n as u32,
        None => 4,
    };
    if c / 2 >= 1 {
        c / 2
    } else {
        1
    }
}

/// Options specific to the encoder.
pub open spec fn spec_encoder_args(
    enc: Seq<char>,
    b: Seq<char>,
    gop: nat,
    threads: u32,
) -> Seq<Seq<char>> {
    if enc == "libx264"@ || enc == "libx265"@ {
        seq!["-preset"@, "ultrafast"@, "-tune"@, "zerolatency"@, "-pix_fmt"@, "yuv420p"@]
            + spec_rate_args(b) + seq![
            "-keyint_min"@,
            spec_decimal(gop),
            "-sc_threshold"@,
            "0"@,
            "-bf"@,
            "0"@,
            "-threads"@,
            spec_decimal(threads as nat),
        ]
    } else if enc == "libsvtav1"@ {
        seq!["-preset"@, "10"@, "-pix_fmt"@, "yuv420p"@] + spec_rate_args(b) + seq![
            "-keyint_min"@,
            spec_decimal(gop),
            "-threads"@,
            spec_decimal(threads as nat),
        ]
    } else if enc == "h264_nvenc"@ || enc == "hevc_nvenc"@ || enc == "av1_nvenc"@ {
        seq!["-preset"@, "p2"@, "-tune"@, "ull"@, "-rc"@, "vbr"@, "-cq"@, "20"@] + spec_rate_args(b)
            + seq!["-delay"@, "0"@, "-forced-idr"@, "1"@, "-zerolatency"@, "1"@, "-bf"@, "0"@]
    } else if enc == "av1_qsv"@ {
        seq!["-preset"@, "veryfast"@] + spec_rate_args(b) + seq![
            "-async_depth"@,
            "4"@,
            "-bf"@,
            "0"@,
        ]
    } else if enc == "h264_qsv"@ || enc == "hevc_qsv"@ {
        seq!["-preset"@, "veryfast"@] + spec_rate_args(b) + seq![
            "-idr_interval"@,
            "1"@,
            "-async_depth"@,
            "4"@,
            "-look_ahead"@,
            "0"@,
            "-bf"@,
            "0"@,
        ]
    } else if enc == "h264_amf"@ || enc == "hevc_amf"@ || enc == "av1_amf"@ {
        seq![
            "-quality"@,
            "speed"@,
            "-usage"@,
            "lowlatency"@,
            "-rc"@,
            "cqp"@,
            "-qp_i"@,
            "22"@,
            "-qp_p"@,
            "24"@,
        ] + spec_rate_args(b) + seq!["-header_insertion_mode"@, "idr"@, "-bf"@, "0"@]
    } else {
        spec_rate_args(b)
    }
}

/// Options before the encoder-specific ones.
pub open spec fn spec_head_args(graph: Seq<char>, enc: Seq<char>, gop: nat) -> Seq<Seq<char>> {
    seq![
        "-hide_banner"@,
        "-loglevel"@,
        "warning"@,
        "-sws_flags"@,
        "fast_bilinear"@,
        "-filter_threads"@,
        "1"@,
        "-filter_complex"@,
        graph,
        "-c:v"@,
        enc,
        "-g"@,
        spec_decimal(gop),
        "-fps_mode"@,
        "passthrough"@,
    ]
}

/// MPEG-TS output to standard output.
pub open spec fn spec_output_args() -> Seq<Seq<char>> {
    seq![
        "-f"@,
        "mpegts"@,
        "-muxdelay"@,
        "0"@,
        "-flush_packets"@,
        "1"@,
        "-max_muxing_queue_size"@,
        "2048"@,
        "-mpegts_flags"@,
        "+resend_headers"@,
        "-pat_period"@,
        "0.1"@,
        "-sdt_period"@,
        "0.1"@,
        "-y"@,
        "pipe:1"@,
    ]
}

/// Validation of the user's settings: the frame rate as a number, or the
/// message of the first problem found.
pub open spec fn spec_check_capture_settings(
    fps: Seq<char>,
    resolution: Seq<char>,
    bitrate: Seq<char>,
) -> Result<u32, Seq<char>> {
    match spec_parse_u32(fps) {
        None => Err("Invalid FPS value: '"@ + fps + "'. Please enter a number."@),
        Some(n) => if !(10 <= n && n <= 360) {
            Err("FPS out of range (10-360): "@ + spec_decimal(n as nat))
        } else if !spec_eq_ignore_ascii_case(resolution, "original"@) && spec_res_height(
            resolution,
        ) is None {
            Err("Unsupported resolution: "@ + resolution)
        } else if spec_strip_kilo(bitrate).len() == 0 || !spec_all_digits(spec_strip_kilo(bitrate)) {
            Err("Invalid bitrate: "@ + bitrate)
        } else {
            Ok(n)
        },
    }
}

/// The whole command line for valid settings with frame rate `fps_num`.
pub open spec fn spec_ffmpeg_args(
    encoder: Seq<char>,
    fps: Seq<char>,
    resolution: Seq<char>,
    bitrate: Seq<char>,
    monitor_h: u32,
    draw_mouse: bool,
    monitor_idx: u32,
    hdr_tonemapping: bool,
    fps_num: u32,
    available_cores: Option<usize>,
) -> Seq<Seq<char>> {
    let gop = spec_gop_size(fps_num);
    let graph = spec_capture_graph(
        encoder,
        fps,
        resolution,
        monitor_h,
        draw_mouse,
        monitor_idx,
        hdr_tonemapping,
    );
    spec_head_args(graph, encoder, gop) + spec_encoder_args(
        encoder,
        bitrate,
        gop,
        spec_encoder_threads(available_cores),
    ) + spec_output_args()
}

fn is_word(e: &[char], w: &str) -> (r: bool)
    ensures
        r == (e@ == w@),
{
    let wc = chars_of(w);
    chars_eq(e, wc.as_slice())
}

fn push_rate_args(v: &mut Vec<String>, b: &str)
    ensures
        spec_strings(final(v)@) == spec_strings(old(v)@) + spec_rate_args(b@),
{
    let ghost before = spec_strings(v@);
    push_lit2(v, "-b:v", b);
    push_lit2(v, "-maxrate", b);
    push_lit2(v, "-bufsize", b);
    assert(spec_strings(v@) =~= before + spec_rate_args(b@));
}

fn push_encoder_args(v: &mut Vec<String>, encoder: &str, bitrate: &str, gop: u32, threads: u32)
    ensures
        spec_strings(final(v)@) == spec_strings(old(v)@) + spec_encoder_args(
            encoder@,
            bitrate@,
            gop as nat,
            threads,
        ),
{
    let ghost before = spec_strings(v@);
    let e = chars_of(encoder);
    let es = e.as_slice();
    if is_word(es, "libx264") || is_word(es, "libx265") {
        let lits = vec!["-preset", "ultrafast", "-tune", "zerolatency", "-pix_fmt", "yuv420p"];
        assert(spec_strs(lits@) =~= seq![
            "-preset"@,
            "ultrafast"@,
            "-tune"@,
            "zerolatency"@,
            "-pix_fmt"@,
            "yuv420p"@,
        ]);
        push_lits(v, lits);
        push_rate_args(v, bitrate);
        push_lit_string(v, "-keyint_min", decimal_string(gop as u64));
        push_lit2(v, "-sc_threshold", "0");
        push_lit2(v, "-bf", "0");
        push_lit_string(v, "-threads", decimal_string(threads as u64));
        assert(spec_strings(v@) =~= before + spec_encoder_args(
            encoder@,
            bitrate@,
            gop as nat,
            threads,
        ));
    } else if is_word(es, "libsvtav1") {
        let lits = vec!["-preset", "10", "-pix_fmt", "yuv420p"];
        assert(spec_strs(lits@) =~= seq!["-preset"@, "10"@, "-pix_fmt"@, "yuv420p"@]);
        push_lits(v, lits);
        push_rate_args(v, bitrate);
        push_lit_string(v, "-keyint_min", decimal_string(gop as u64));
        push_lit_string(v, "-threads", decimal_string(threads as u64));
        assert(spec_strings(v@) =~= before + spec_encoder_args(
            encoder@,
            bitrate@,
            gop as nat,
            threads,
        ));
    } else if is_word(es, "h264_nvenc") || is_word(es, "hevc_nvenc") || is_word(es, "av1_nvenc") {
        let lits = vec!["-preset", "p2", "-tune", "ull", "-rc", "vbr", "-cq", "20"];
        assert(spec_strs(lits@) =~= seq![
            "-preset"@,
            "p2"@,
            "-tune"@,
            "ull"@,
            "-rc"@,
            "vbr"@,
            "-cq"@,
            "20"@,
        ]);
        push_lits(v, lits);
        push_rate_args(v, bitrate);
        let tail = vec!["-delay", "0", "-forced-idr", "1", "-zerolatency", "1", "-bf", "0"];
        assert(spec_strs(tail@) =~= seq![
            "-delay"@,
            "0"@,
            "-forced-idr"@,
            "1"@,
            "-zerolatency"@,
            "1"@,
            "-bf"@,
            "0"@,
        ]);
        push_lits(v, tail);
        assert(spec_strings(v@) =~= before + spec_encoder_args(
            encoder@,
            bitrate@,
            gop as nat,
            threads,
        ));
    } else if is_word(es, "av1_qsv") {
        push_lit2(v, "-preset", "veryfast");
        push_rate_args(v, bitrate);
        push_lit2(v, "-async_depth", "4");
        push_lit2(v, "-bf", "0");
        assert(spec_strings(v@) =~= before + spec_encoder_args(
            encoder@,
            bitrate@,
            gop as nat,
            threads,
        ));
    } else if is_word(es, "h264_qsv") || is_word(es, "hevc_qsv") {
        push_lit2(v, "-preset", "veryfast");
        push_rate_args(v, bitrate);
        let tail = vec!["-idr_interval", "1", "-async_depth", "4", "-look_ahead", "0", "-bf", "0"];
        assert(spec_strs(tail@) =~= seq![
            "-idr_interval"@,
            "1"@,
            "-async_depth"@,
            "4"@,
            "-look_ahead"@,
            "0"@,
            "-bf"@,
            "0"@,
        ]);
        push_lits(v, tail);
        assert(spec_strings(v@) =~= before + spec_encoder_args(
            encoder@,
            bitrate@,
            gop as nat,
            threads,
        ));
    } else if is_word(es, "h264_amf") || is_word(es, "hevc_amf") || is_word(es, "av1_amf") {
        let lits = vec![
            "-quality",
            "speed",
            "-usage",
            "lowlatency",
            "-rc",
            "cqp",
            "-qp_i",
            "22",
            "-qp_p",
            "24",
        ];
        assert(spec_strs(lits@) =~= seq![
            "-quality"@,
            "speed"@,
            "-usage"@,
            "lowlatency"@,
            "-rc"@,
            "cqp"@,
            "-qp_i"@,
            "22"@,
            "-qp_p"@,
            "24"@,
        ]);
        push_lits(v, lits);
        push_rate_args(v, bitrate);
        push_lit2(v, "-header_insertion_mode", "idr");
        push_lit2(v, "-bf", "0");
        assert(spec_strings(v@) =~= before + spec_encoder_args(
            encoder@,
            bitrate@,
            gop as nat,
            threads,
        ));
    } else {
        push_rate_args(v, bitrate);
    }
}

fn push_output_args(v: &mut Vec<String>)
    ensures
        spec_strings(final(v)@) == spec_strings(old(v)@) + spec_output_args(),
{
    let lits = vec![
        "-f",
        "mpegts",
        "-muxdelay",
        "0",
        "-flush_packets",
        "1",
        "-max_muxing_queue_size",
        "2048",
        "-mpegts_flags",
        "+resend_headers",
        "-pat_period",
        "0.1",
        "-sdt_period",
        "0.1",
        "-y",
        "pipe:1",
    ];
    assert(spec_strs(lits@) =~= spec_output_args());
    push_lits(v, lits);
}

fn all_digits(s: &[char]) -> (r: bool)
    ensures
        r == spec_all_digits(s@),
{
    let mut i: usize = 0;
    while i < s.len()
        invariant
            i <= s@.len(),
            forall|k: int| 0 <= k < i ==> spec_is_digit(#[trigger] s@[k]),
        decreases s@.len() - i,
    {
        if !('0' <= s[i] && s[i] <= '9') {
            return false;
        }
        i = i + 1;
    }
    true
}

/// Validates the user's settings (see `spec_check_capture_settings`).
pub fn check_capture_settings(fps: &str, resolution: &str, bitrate: &str) -> (r: Result<u32, String>)
    ensures
        match spec_check_capture_settings(fps@, resolution@, bitrate@) {
            Ok(n) => r == Ok::<u32, String>(n),
            Err(m) => r matches Err(e) && e@ == m,
        },
{
    let fc = chars_of(fps);
    let fps_num = match parse_u32(fc.as_slice()) {
        Some(n) => n,
        None => {
            let mut m = String::new();
            push_str(&mut m, "Invalid FPS value: '");
            push_str(&mut m, fps);
            push_str(&mut m, "'. Please enter a number.");
            assert(m@ =~= "Invalid FPS value: '"@ + fps@ + "'. Please enter a number."@);
            return Err(m);
        },
    };
    if !(10 <= fps_num && fps_num <= 360) {
        let mut m = String::new();
        push_str(&mut m, "FPS out of range (10-360): ");
        push_decimal(&mut m, fps_num as u64);
        return Err(m);
    }
    let rc = chars_of(resolution);
    let original = chars_of("original");
    if !eq_ignore_ascii_case(rc.as_slice(), original.as_slice()) && res_height(resolution).is_none() {
        let mut m = String::new();
        push_str(&mut m, "Unsupported resolution: ");
        push_str(&mut m, resolution);
        return Err(m);
    }
    let bc = chars_of(bitrate);
    let n = bc.len();
    let mut num = bc.clone();
    if n > 0 && (bc[n - 1] == 'k' || bc[n - 1] == 'K') {
        num.pop();
    }
    assert(num@ == spec_strip_kilo(bitrate@));
    if num.len() == 0 || !all_digits(num.as_slice()) {
        let mut m = String::new();
        push_str(&mut m, "Invalid bitrate: ");
        push_str(&mut m, bitrate);
        return Err(m);
    }
    Ok(fps_num)
}

/// Encoder threads for the software encoders (see `spec_encoder_threads`).
pub fn encoder_threads(available_cores: Option<usize>) -> (r: u32)
    ensures
        r == spec_encoder_threads(available_cores),
{
    let c: u32 = match available_cores {
        Some(n) => n as u32,
        None => 4,
    };
    if c / 2 >= 1 {
        c / 2
    } else {
        1
    }
}

/// The capture pipeline's command line, or the message of the first invalid
/// setting (see `spec_check_capture_settings` and `spec_ffmpeg_args`).
/// `available_cores` is the machine's available parallelism, when known; the
/// hardware tier does not change the command line.
pub fn build_ffmpeg_args(
    encoder: &str,
    fps: &str,
    resolution: &str,
    bitrate: &str,
    monitor_h: u32,
    _tier: HardwareTier,
    draw_mouse: bool,
    scaling_method: &ScalingMethod,
    monitor_idx: u32,
    hdr_tonemapping: bool,
    available_cores: Option<usize>,
) -> (r: Result<Vec<String>, String>)
    ensures
        match spec_check_capture_settings(fps@, resolution@, bitrate@) {
            Ok(n) => r matches Ok(v) && spec_strings(v@) == spec_ffmpeg_args(
                encoder@,
                fps@,
                resolution@,
                bitrate@,
                monitor_h,
                draw_mouse,
                monitor_idx,
                hdr_tonemapping,
                n,
                available_cores,
            ),
            Err(m) => r matches Err(e) && e@ == m,
        },
{
    let fps_num = match check_capture_settings(fps, resolution, bitrate) {
        Ok(n) => n,
        Err(e) => return Err(e),
    };
    let graph = capture_graph(
        encoder,
        fps,
        resolution,
        monitor_h,
        draw_mouse,
        scaling_method,
        monitor_idx,
        hdr_tonemapping,
    );
    let gop: u32 = if fps_num * 2 >= 30 {
        fps_num * 2
    } else {
        30
    };
    let mut args: Vec<String> = Vec::new();
    let head = vec![
        "-hide_banner",
        "-loglevel",
        "warning",
        "-sws_flags",
        "fast_bilinear",
        "-filter_threads",
        "1",
        "-filter_complex",
    ];
    push_lits(&mut args, head);
    push_string(&mut args, graph);
    push_lit2(&mut args, "-c:v", encoder);
    push_lit_string(&mut args, "-g", decimal_string(gop as u64));
    push_lit2(&mut args, "-fps_mode", "passthrough");
    assert(spec_strings(args@) =~= spec_head_args(
        spec_capture_graph(
            encoder@,
            fps@,
            resolution@,
            monitor_h,
            draw_mouse,
            monitor_idx,
            hdr_tonemapping,
        ),
        encoder@,
        spec_gop_size(fps_num),
    ));
    let ghost with_head = spec_strings(args@);
    push_encoder_args(&mut args, encoder, bitrate, gop, encoder_threads(available_cores));
    let ghost with_encoder = spec_strings(args@);
    push_output_args(&mut args);
    assert(spec_strings(args@) =~= spec_ffmpeg_args(
        encoder@,
        fps@,
        resolution@,
        bitrate@,
        monitor_h,
        draw_mouse,
        monitor_idx,
        hdr_tonemapping,
        fps_num,
        available_cores,
    ));
    Ok(args)
}

/// Settings validation and the frame rate: validation succeeds only with the
/// number the frame-rate text reads as, and only for rates from 10 to 360;
/// every rate from 10 to 360 is accepted when the resolution is `original`
/// (in any case) or a known one and the bitrate is digits with an optional
/// `k`/`K`; a rate outside 10..=360 is always refused.
pub proof fn lemma_capture_fps_range(fps: Seq<char>, resolution: Seq<char>, bitrate: Seq<char>)
    ensures
        spec_check_capture_settings(fps, resolution, bitrate) matches Ok(n) ==> spec_parse_u32(fps) == Some(n)
            && 10 <= n <= 360,
        ({
            let res_ok = spec_eq_ignore_ascii_case(resolution, "original"@) || spec_res_height(resolution) is Some;
            let rate_ok = spec_strip_kilo(bitrate).len() > 0 && spec_all_digits(spec_strip_kilo(bitrate));
            let n = spec_parse_u32(fps)->0;
            spec_parse_u32(fps) is Some && 10 <= n <= 360 && res_ok && rate_ok
                ==> spec_check_capture_settings(fps, resolution, bitrate) == Ok::<u32, Seq<char>>(n)
        }),
        spec_parse_u32(fps) matches Some(n) && !(10 <= n <= 360) ==> spec_check_capture_settings(
            fps,
            resolution,
            bitrate,
        ) is Err,
{
}

proof fn lemma_occurs_in_concat(a: Seq<char>, b: Seq<char>, c: Seq<char>)
    ensures
        spec_occurs_at(a + b + c, b, a.len() as int),
        spec_contains(a + b + c, b),
{
    assert((a + b + c).subrange(a.len() as int, (a.len() + b.len()) as int) =~= b);
}

/// The capture command line for frame rate `n`: it grabs the monitor
/// `monitor_idx` at the frame-rate text `fps` through the filter graph,
/// encodes with `encoder` with a keyframe every two seconds of frames (at
/// least every 30 frames), scales to the resolution's height when that is
/// below the monitor's, and ends by writing MPEG-TS to standard output.
pub proof fn lemma_capture_command(
    encoder: Seq<char>,
    fps: Seq<char>,
    resolution: Seq<char>,
    bitrate: Seq<char>,
    monitor_h: u32,
    draw_mouse: bool,
    monitor_idx: u32,
    hdr_tonemapping: bool,
    n: u32,
    available_cores: Option<usize>,
)
    ensures
        ({
            let a = spec_ffmpeg_args(
                encoder,
                fps,
                resolution,
                bitrate,
                monitor_h,
                draw_mouse,
                monitor_idx,
                hdr_tonemapping,
                n,
                available_cores,
            );
            let graph = a[8];
            &&& a.len() >= 29
            &&& a[7] == "-filter_complex"@
            &&& a[9] == "-c:v"@
            &&& a[10] == encoder
            &&& a[11] == "-g"@
            &&& a[12] == spec_decimal(if 2 * n >= 30 { (2 * n) as nat } else { 30 })
            &&& a[a.len() - 16] == "-f"@
            &&& a[a.len() - 15] == "mpegts"@
            &&& a[a.len() - 1] == "pipe:1"@
            &&& spec_contains(graph, ":framerate="@ + fps)
            &&& spec_contains(graph, "ddagrab=output_idx="@ + spec_decimal(monitor_idx as nat))
            &&& spec_res_height(resolution) is Some && spec_res_height(resolution)->0 < monitor_h ==> spec_contains(
                graph,
                ",scale=-2:"@ + spec_decimal(spec_res_height(resolution)->0 as nat) + ":flags=fast_bilinear"@,
            )
        }),
{
    let gop = spec_gop_size(n);
    let graph = spec_capture_graph(encoder, fps, resolution, monitor_h, draw_mouse, monitor_idx, hdr_tonemapping);
    let head = spec_head_args(graph, encoder, gop);
    let mid = spec_encoder_args(encoder, bitrate, gop, spec_encoder_threads(available_cores));
    let out = spec_output_args();
    let a = spec_ffmpeg_args(encoder, fps, resolution, bitrate, monitor_h, draw_mouse, monitor_idx, hdr_tonemapping, n, available_cores);
    assert(a == head + mid + out);
    assert(a[8] == graph);
    assert(a[a.len() - 1] == out[15]);
    assert(a[a.len() - 16] == out[0]);
    assert(a[a.len() - 15] == out[1]);
    let idx_part = "ddagrab=output_idx="@ + spec_decimal(monitor_idx as nat);
    let dd = spec_ddagrab(monitor_idx, fps, draw_mouse);
    let mouse = (if draw_mouse { "true"@ } else { "false"@ });
    assert(dd == idx_part + (":framerate="@ + fps) + (":draw_mouse="@ + mouse + ":dup_frames=true"@));
    let rest = graph.subrange(dd.len() as int, graph.len() as int);
    assert(graph =~= dd + rest);
    lemma_occurs_in_concat(idx_part, ":framerate="@ + fps, ":draw_mouse="@ + mouse + ":dup_frames=true"@);
    let k = idx_part.len() as int;
    assert(spec_occurs_at(dd, ":framerate="@ + fps, k));
    assert(graph.subrange(k, k + (":framerate="@ + fps).len()) =~= dd.subrange(k, k + (":framerate="@ + fps).len()));
    assert(spec_occurs_at(graph, ":framerate="@ + fps, k));
    assert(graph.subrange(0, idx_part.len() as int) =~= idx_part);
    assert(spec_occurs_at(graph, idx_part, 0));
    if let Some(h) = spec_res_height(resolution) {
        if h < monitor_h {
            let tone = (if hdr_tonemapping { ",tonemap=tonemap=hable:desat=0"@ } else { Seq::empty() });
            let pre = dd + ",hwdownload,format=bgra"@ + tone;
            let sc = ",scale=-2:"@ + spec_decimal(h as nat) + ":flags=fast_bilinear"@;
            let post = ",format="@ + spec_target_format(encoder);
            assert(spec_graph_height(resolution, monitor_h) == h);
            assert(graph == pre + sc + post);
            lemma_occurs_in_concat(pre, sc, post);
        }
    }
}

} // verus!
