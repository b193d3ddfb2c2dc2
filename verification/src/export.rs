//! The editor's export engine: which audio tracks go into an export, the
//! versioned output name, the encoder command line (lossless copy of a full
//! clip, fast re-encode of a trimmed one, or size-targeted compression), the
//! progress read from the encoder's output, and the job's final status.
//!
//! Times are whole milliseconds and volumes thousandths, the precision at
//! which the command line prints them.
use vstd::prelude::*;
use crate::args::{push_lit, push_lit2, push_lit_string, push_lits, push_string};
use crate::editor::{find_char, lemma_find_char_result, slice_range, spec_find_char, AudioTrackMeta};
use crate::text::{parse_unsigned, spec_parse_unsigned};
use crate::paths::{dir_prefix, path_stem, spec_dir_prefix, spec_path_stem};
use crate::text::{
    chars_eq, chars_of, contains, decimal_string, owned, push_char, push_decimal, push_str,
    spec_all_digits, spec_contains, spec_decimal, spec_decimal_value, spec_is_digit,
    spec_starts_with, spec_strings, spec_strs, spec_trim, starts_with, string_from_chars,
    trim_chars,
};

verus! {

// ─── Numbers as printed ─────────────────────────────────────────────────────

/// Three decimal digits of a value below one thousand, with leading zeros.
pub open spec fn spec_three_digits(r: nat) -> Seq<char> {
    spec_decimal(r / 100) + spec_decimal((r / 10) % 10) + spec_decimal(r % 10)
}

/// A number of thousandths printed with three decimals (as `{:.3}` prints
/// the value it stands for).
pub open spec fn spec_thousandths(v: int) -> Seq<char> {
    let a: nat = if v < 0 {
        (-v) as nat
    } else {
        v as nat
    };
    (if v < 0 {
        "-"@
    } else {
        Seq::empty()
    }) + spec_decimal(a / 1000) + "."@ + spec_three_digits(a % 1000)
}

/// Appends a number of thousandths with three decimals.
pub fn push_thousandths(out: &mut String, v: i64)
    ensures
        final(out)@ == old(out)@ + spec_thousandths(v as int),
{
    let a: u64 = if v < 0 {
        (0i128 - (v as i128)) as u64
    } else {
        v as u64
    };
    let ghost an: nat = if v < 0 {
        (-v) as nat
    } else {
        v as nat
    };
    assert(a as nat == an);
    let ghost sign: Seq<char> = if v < 0 {
        "-"@
    } else {
        Seq::empty()
    };
    proof {
        reveal_strlit("-");
        reveal_strlit(".");
    }
    if v < 0 {
        push_char(out, '-');
    }
    assert(out@ =~= old(out)@ + sign);
    push_decimal(out, a / 1000);
    push_char(out, '.');
    let r = a % 1000;
    push_decimal(out, r / 100);
    push_decimal(out, (r / 10) % 10);
    push_decimal(out, r % 10);
    assert(spec_three_digits(an % 1000) == spec_decimal((r / 100) as nat) + spec_decimal(
        ((r / 10) % 10) as nat,
    ) + spec_decimal((r % 10) as nat));
    assert(final(out)@ =~= old(out)@ + spec_thousandths(v as int));
}

/// A number of thousandths with three decimals, as a new `String`.
pub fn thousandths_string(v: i64) -> (r: String)
    ensures
        r@ == spec_thousandths(v as int),
{
    let mut r = String::new();
    push_thousandths(&mut r, v);
    r
}

// ─── Request ────────────────────────────────────────────────────────────────

/// How the user set up one audio track.
#[derive(Clone, Debug)]
pub struct TrackSetting {
    pub name: String,
    pub muted: bool,
    /// Volume in thousandths (1000 keeps the level).
    pub volume_milli: i64,
}

/// The first setting for a track name, if any.
pub open spec fn spec_find_setting(settings: Seq<TrackSetting>, name: Seq<char>, i: int) -> Option<int>
    decreases settings.len() - i,
{
    if i < 0 || i >= settings.len() {
        None
    } else if settings[i].name@ == name {
        Some(i)
    } else {
        spec_find_setting(settings, name, i + 1)
    }
}

/// Whether track `k` of the clip goes into the export: it has a file, its
/// first setting leaves it unmuted, and its file exists.
pub open spec fn spec_track_exported(
    metas: Seq<AudioTrackMeta>,
    settings: Seq<TrackSetting>,
    exists: Seq<bool>,
    k: int,
) -> bool {
    &&& metas[k].wav_filename@.len() > 0
    &&& spec_find_setting(settings, metas[k].process_name@, 0) matches Some(j) && !settings[j].muted
    &&& exists[k]
}

/// The volume (thousandths, never negative) of an exported track.
pub open spec fn spec_track_volume(metas: Seq<AudioTrackMeta>, settings: Seq<TrackSetting>, k: int) -> i64 {
    match spec_find_setting(settings, metas[k].process_name@, 0) {
        Some(j) => if settings[j].volume_milli < 0 {
            0i64
        } else {
            settings[j].volume_milli
        },
        None => 0i64,
    }
}

/// The exported tracks of the first `n` clip tracks: file name and volume,
/// in the clip's order.
pub open spec fn spec_export_tracks(
    metas: Seq<AudioTrackMeta>,
    settings: Seq<TrackSetting>,
    exists: Seq<bool>,
    n: int,
) -> Seq<(Seq<char>, i64)>
    decreases n,
{
    if n <= 0 {
        Seq::empty()
    } else {
        let prev = spec_export_tracks(metas, settings, exists, n - 1);
        if spec_track_exported(metas, settings, exists, n - 1) {
            prev.push((metas[n - 1].wav_filename@, spec_track_volume(metas, settings, n - 1)))
        } else {
            prev
        }
    }
}

/// View of exported tracks.
pub open spec fn spec_track_views(v: Seq<(String, i64)>) -> Seq<(Seq<char>, i64)> {
    v.map_values(|t: (String, i64)| (t.0@, t.1))
}

fn find_setting(settings: &Vec<TrackSetting>, name: &str) -> (r: Option<usize>)
    ensures
        match r {
            Some(j) => spec_find_setting(settings@, name@, 0) == Some(j as int) && j
                < settings@.len(),
            None => spec_find_setting(settings@, name@, 0) is None,
        },
{
    let nc = chars_of(name);
    let mut i: usize = 0;
    while i < settings.len()
        invariant
            i <= settings@.len(),
            nc@ == name@,
            spec_find_setting(settings@, name@, 0) == spec_find_setting(settings@, name@, i as int),
        decreases settings@.len() - i,
    {
        let sc = chars_of(settings[i].name.as_str());
        if chars_eq(sc.as_slice(), nc.as_slice()) {
            return Some(i);
        }
        i = i + 1;
    }
    None
}

/// The tracks that go into an export, with their volumes (see
/// `spec_export_tracks`); `exists[k]` tells whether track `k`'s file is
/// present in the clip's folder.
pub fn select_export_tracks(
    metas: &Vec<AudioTrackMeta>,
    settings: &Vec<TrackSetting>,
    exists: &Vec<bool>,
) -> (r: Vec<(String, i64)>)
    requires
        exists@.len() == metas@.len(),
    ensures
        spec_track_views(r@) == spec_export_tracks(metas@, settings@, exists@, metas@.len() as int),
{
    let mut out: Vec<(String, i64)> = Vec::new();
    let mut k: usize = 0;
    while k < metas.len()
        invariant
            k <= metas@.len(),
            exists@.len() == metas@.len(),
            spec_track_views(out@) == spec_export_tracks(metas@, settings@, exists@, k as int),
        decreases metas@.len() - k,
    {
        let m = &metas[k];
        if m.wav_filename.as_str().unicode_len() > 0 {
            match find_setting(settings, m.process_name.as_str()) {
                Some(j) => {
                    if !settings[j].muted && exists[k] {
                        let v = settings[j].volume_milli;
                        let vol = if v < 0 {
                            0
                        } else {
                            v
                        };
                        let ghost before = out@;
                        out.push((m.wav_filename.clone(), vol));
                        assert(spec_track_views(out@) =~= spec_track_views(before).push(
                            (m.wav_filename@, vol),
                        ));
                    }
                },
                None => {},
            }
        }
        k = k + 1;
    }
    out
}

// ─── Output name ────────────────────────────────────────────────────────────

/// The output file for an export of `input`: `<stem>_edited.mp4` (or
/// `_compressed` for a size-targeted export) next to the input, and from the
/// second candidate on `<stem>_<suffix>_<n>.mp4`.
pub open spec fn spec_versioned_output(input: Seq<char>, compressed: bool, n: u32) -> Seq<char> {
    spec_dir_prefix(input) + spec_path_stem(input) + "_"@ + (if compressed {
        "compressed"@
    } else {
        "edited"@
    }) + (if n >= 2 {
        "_"@ + spec_decimal(n as nat)
    } else {
        Seq::empty()
    }) + ".mp4"@
}

/// The `n`-th candidate output file (see `spec_versioned_output`); the
/// caller tries `n = 1, 2, ...` below 100 until one does not exist.
pub fn versioned_output_path(input: &str, compressed: bool, n: u32) -> (r: String)
    ensures
        r@ == spec_versioned_output(input@, compressed, n),
{
    let mut r = dir_prefix(input);
    let stem = path_stem(input);
    push_str(&mut r, stem.as_str());
    push_str(&mut r, "_");
    push_str(&mut r, if compressed { "compressed" } else { "edited" });
    if n >= 2 {
        push_str(&mut r, "_");
        push_decimal(&mut r, n as u64);
    }
    push_str(&mut r, ".mp4");
    r
}

// ─── Compression ladder ─────────────────────────────────────────────────────

/// Output height and frame rate for a target video bitrate: the 720p to
/// 1080p range is favoured, with frame-rate steps of two.
pub open spec fn spec_compression_quality(kbps: u32) -> (u32, u32) {
    if kbps >= 3600 {
        (1080, 60)
    } else if kbps >= 3300 {
        (1080, 56)
    } else if kbps >= 3000 {
        (1080, 52)
    } else if kbps >= 2700 {
        (1080, 48)
    } else if kbps >= 2400 {
        (1080, 44)
    } else if kbps >= 2150 {
        (1080, 40)
    } else if kbps >= 1950 {
        (1000, 44)
    } else if kbps >= 1750 {
        (1000, 40)
    } else if kbps >= 1600 {
        (960, 42)
    } else if kbps >= 1450 {
        (960, 38)
    } else if kbps >= 1300 {
        (900, 40)
    } else if kbps >= 1180 {
        (900, 36)
    } else if kbps >= 1060 {
        (840, 38)
    } else if kbps >= 960 {
        (840, 34)
    } else if kbps >= 860 {
        (800, 36)
    } else if kbps >= 780 {
        (760, 34)
    } else if kbps >= 700 {
        (760, 30)
    } else if kbps >= 620 {
        (720, 32)
    } else if kbps >= 550 {
        (720, 28)
    } else if kbps >= 480 {
        (720, 26)
    } else if kbps >= 420 {
        (640, 28)
    } else if kbps >= 360 {
        (640, 26)
    } else if kbps >= 300 {
        (560, 26)
    } else if kbps >= 240 {
        (480, 26)
    } else if kbps >= 180 {
        (420, 26)
    } else {
        (360, 26)
    }
}

/// Output height and frame rate for a target video bitrate (see
/// `spec_compression_quality`).
pub fn compression_quality(kbps: u32) -> (r: (u32, u32))
    ensures
        r == spec_compression_quality(kbps),
{
    if kbps >= 3600 {
        (1080, 60)
    } else if kbps >= 3300 {
        (1080, 56)
    } else if kbps >= 3000 {
        (1080, 52)
    } else if kbps >= 2700 {
        (1080, 48)
    } else if kbps >= 2400 {
        (1080, 44)
    } else if kbps >= 2150 {
        (1080, 40)
    } else if kbps >= 1950 {
        (1000, 44)
    } else if kbps >= 1750 {
        (1000, 40)
    } else if kbps >= 1600 {
        (960, 42)
    } else if kbps >= 1450 {
        (960, 38)
    } else if kbps >= 1300 {
        (900, 40)
    } else if kbps >= 1180 {
        (900, 36)
    } else if kbps >= 1060 {
        (840, 38)
    } else if kbps >= 960 {
        (840, 34)
    } else if kbps >= 860 {
        (800, 36)
    } else if kbps >= 780 {
        (760, 34)
    } else if kbps >= 700 {
        (760, 30)
    } else if kbps >= 620 {
        (720, 32)
    } else if kbps >= 550 {
        (720, 28)
    } else if kbps >= 480 {
        (720, 26)
    } else if kbps >= 420 {
        (640, 28)
    } else if kbps >= 360 {
        (640, 26)
    } else if kbps >= 300 {
        (560, 26)
    } else if kbps >= 240 {
        (480, 26)
    } else if kbps >= 180 {
        (420, 26)
    } else {
        (360, 26)
    }
}

/// A lower target bitrate never raises the output height or frame rate.
pub proof fn lemma_compression_quality_monotone(a: u32, b: u32)
    requires
        a <= b,
    ensures
        spec_compression_quality(a).0 <= spec_compression_quality(b).0,
{
}


// ─── Command line ───────────────────────────────────────────────────────────

/// A number clamped to `0..=hi`.
pub open spec fn spec_clamp_ms(v: i64, hi: i64) -> i64 {
    if v < 0 {
        0
    } else if v > hi {
        hi
    } else {
        v
    }
}

/// The volume stage of each exported track: `[<i+1>:a]volume=<v>[a<i>];`.
pub open spec fn spec_volume_stages(tracks: Seq<(Seq<char>, i64)>) -> Seq<char>
    decreases tracks.len(),
{
    if tracks.len() == 0 {
        Seq::empty()
    } else {
        let i = tracks.len() - 1;
        spec_volume_stages(tracks.drop_last()) + "["@ + spec_decimal((i + 1) as nat) + ":a]volume="@
            + spec_thousandths(tracks.last().1 as int) + "[a"@ + spec_decimal(i as nat) + "];"@
    }
}

/// The labels `[a0][a1]...` of the first `n` volume stages.
pub open spec fn spec_stage_labels(n: nat) -> Seq<char>
    decreases n,
{
    if n == 0 {
        Seq::empty()
    } else {
        spec_stage_labels((n - 1) as nat) + "[a"@ + spec_decimal((n - 1) as nat) + "]"@
    }
}

/// The fades and padding after the audio source: a fade-in over the first
/// `fi` milliseconds and a fade-out over the last `fo`, when set.
pub open spec fn spec_fade_stages(dur: i64, fi: i64, fo: i64) -> Seq<char> {
    (if fi > 0 {
        "afade=t=in:st=0:d="@ + spec_thousandths(fi as int) + ","@
    } else {
        Seq::empty()
    }) + (if fo > 0 {
        "afade=t=out:st="@ + spec_thousandths(
            (if dur - fo > 0 {
                dur - fo
            } else {
                0
            }) as int,
        ) + ":d="@ + spec_thousandths(fo as int) + ","@
    } else {
        Seq::empty()
    }) + "apad[aout]"@
}

/// The audio filter graph of an export lasting `dur` milliseconds: silence
/// of that length when no track is exported; otherwise each track at its
/// volume, mixed when there are several, then faded in and out as asked,
/// and padded.
pub open spec fn spec_export_filter(tracks: Seq<(Seq<char>, i64)>, dur: i64, fi: i64, fo: i64) -> Seq<char> {
    if tracks.len() == 0 {
        "aevalsrc=0:d="@ + spec_thousandths(dur as int) + "[aout]"@
    } else {
        spec_volume_stages(tracks) + spec_stage_labels(tracks.len()) + (if tracks.len() == 1 {
            "anull"@
        } else {
            "amix=inputs="@ + spec_decimal(tracks.len()) + ":duration=longest:normalize=0"@
        }) + ","@ + spec_fade_stages(dur, fi, fo)
    }
}

/// Inputs of the exported tracks, each seeked to the trim start.
pub open spec fn spec_track_inputs(tracks: Seq<(Seq<char>, i64)>, start: i64) -> Seq<Seq<char>>
    decreases tracks.len(),
{
    if tracks.len() == 0 {
        Seq::empty()
    } else {
        spec_track_inputs(tracks.drop_last(), start) + seq![
            "-ss"@,
            spec_thousandths(start as int),
            "-i"@,
            tracks.last().0,
        ]
    }
}

/// The video encoder options of a trimmed export, by the best available
/// encoder: NVENC, QuickSync and AMF at high quality, `libx264` otherwise.
pub open spec fn spec_reencode_args(enc: Seq<char>) -> Seq<Seq<char>> {
    if spec_contains(enc, "nvenc"@) {
        seq!["-c:v"@, enc, "-preset"@, "p4"@, "-rc"@, "vbr"@, "-cq"@, "20"@, "-b:v"@, "0"@, "-spatial-aq"@, "1"@]
            + (if !spec_contains(enc, "av1"@) {
            seq!["-temporal-aq"@, "1"@]
        } else {
            Seq::empty()
        }) + seq!["-pix_fmt"@, "yuv420p"@]
    } else if spec_contains(enc, "qsv"@) {
        seq!["-c:v"@, enc, "-preset"@, "faster"@, "-global_quality"@, "20"@, "-pix_fmt"@, "nv12"@]
    } else if spec_contains(enc, "amf"@) {
        seq![
            "-c:v"@,
            enc,
            "-quality"@,
            "speed"@,
            "-rc"@,
            "cqp"@,
            "-qp_i"@,
            "20"@,
            "-qp_p"@,
            "22"@,
            "-pix_fmt"@,
            "nv12"@,
        ]
    } else {
        seq!["-c:v"@, "libx264"@, "-preset"@, "ultrafast"@, "-crf"@, "19"@, "-pix_fmt"@, "yuv420p"@]
    }
}

/// AAC audio at 192 kb/s, the duration and the output, after the video
/// options of a normal export.
pub open spec fn spec_normal_tail(dur: i64, output: Seq<char>) -> Seq<Seq<char>> {
    seq![
        "-c:a"@,
        "aac"@,
        "-b:a"@,
        "192k"@,
        "-t"@,
        spec_thousandths(dur as int),
        "-movflags"@,
        "+faststart"@,
        "-y"@,
        output,
    ]
}

/// Options of a size-targeted export at the given video and audio bitrates.
pub open spec fn spec_compression_args(video_kbps: u32, audio_kbps: u32, dur: i64, output: Seq<char>) -> Seq<Seq<char>> {
    let q = spec_compression_quality(video_kbps);
    let vk = spec_decimal(video_kbps as nat) + "k"@;
    seq![
        "-vf"@,
        "scale=-2:"@ + spec_decimal(q.0 as nat) + ",fps="@ + spec_decimal(q.1 as nat),
        "-c:v"@,
        "libx264"@,
        "-preset"@,
        "medium"@,
        "-b:v"@,
        vk,
        "-maxrate"@,
        vk,
        "-bufsize"@,
        spec_decimal((video_kbps * 2) as nat) + "k"@,
        "-pix_fmt"@,
        "yuv420p"@,
        "-c:a"@,
        "aac"@,
        "-b:a"@,
        spec_decimal(audio_kbps as nat) + "k"@,
        "-t"@,
        spec_thousandths(dur as int),
        "-movflags"@,
        "+faststart"@,
        "-y"@,
        output,
    ]
}

/// Whether an export covers the whole clip (within 50 ms at each end), so
/// that its video is copied without re-encoding.
pub open spec fn spec_is_full_export(start: i64, end: i64, clip_duration: i64) -> bool {
    start <= 50 && end >= clip_duration - 50
}

/// Times stay far from the limits of `i64`.
pub open spec fn spec_time_ok(v: i64) -> bool {
    -0x1000_0000_0000_0000 < v < 0x1000_0000_0000_0000
}

/// The export's command line for a trim from `start` to `end` (see the
/// parts above); an error when the trim is empty or reversed.
pub open spec fn spec_export_args(
    input: Seq<char>,
    start: i64,
    end: i64,
    fade_in: Option<i64>,
    fade_out: Option<i64>,
    tracks: Seq<(Seq<char>, i64)>,
    compression: Option<(u32, u32)>,
    clip_duration: i64,
    encoder: Seq<char>,
    output: Seq<char>,
) -> Result<Seq<Seq<char>>, Seq<char>> {
    let dur = (end - start) as i64;
    if dur <= 0 {
        Err("invalid trim"@)
    } else {
        let fi = spec_clamp_ms(
            match fade_in {
                Some(f) => f,
                None => 0,
            },
            dur,
        );
        let fo = spec_clamp_ms(
            match fade_out {
                Some(f) => f,
                None => 0,
            },
            dur,
        );
        let head = seq![
            "-hide_banner"@,
            "-loglevel"@,
            "error"@,
            "-progress"@,
            "pipe:1"@,
            "-nostats"@,
            "-ss"@,
            spec_thousandths(start as int),
            "-i"@,
            input,
        ] + spec_track_inputs(tracks, start) + seq![
            "-map"@,
            "0:v:0"@,
            "-filter_complex"@,
            spec_export_filter(tracks, dur, fi, fo),
            "-map"@,
            "[aout]"@,
        ];
        Ok(
            head + match compression {
                Some((v, a)) => spec_compression_args(v, a, dur, output),
                None => if spec_is_full_export(start, end, clip_duration) {
                    seq!["-c:v"@, "copy"@] + spec_normal_tail(dur, output)
                } else {
                    spec_reencode_args(encoder) + spec_normal_tail(dur, output)
                },
            },
        )
    }
}

fn volume_stages(tracks: &Vec<(String, i64)>) -> (r: String)
    requires
        tracks@.len() < 0x1_0000_0000,
    ensures
        r@ == spec_volume_stages(spec_track_views(tracks@)),
{
    let ghost tv = spec_track_views(tracks@);
    let n = tracks.len();
    let mut r = String::new();
    let mut i: usize = 0;
    while i < n
        invariant
            n == tracks@.len(),
            n < 0x1_0000_0000,
            i <= n,
            tv == spec_track_views(tracks@),
            r@ == spec_volume_stages(tv.subrange(0, i as int)),
        decreases n - i,
    {
        let ghost before = r@;
        push_str(&mut r, "[");
        push_decimal(&mut r, (i + 1) as u64);
        push_str(&mut r, ":a]volume=");
        push_thousandths(&mut r, tracks[i].1);
        push_str(&mut r, "[a");
        push_decimal(&mut r, i as u64);
        push_str(&mut r, "];");
        proof {
            let sub = tv.subrange(0, i + 1);
            assert(sub.drop_last() =~= tv.subrange(0, i as int));
            assert(sub.last() == tv[i as int]);
            assert(tv[i as int].1 == tracks@[i as int].1);
            assert(r@ =~= spec_volume_stages(sub.drop_last()) + "["@ + spec_decimal(
                (i + 1) as nat,
            ) + ":a]volume="@ + spec_thousandths(sub.last().1 as int) + "[a"@ + spec_decimal(
                i as nat,
            ) + "];"@);
        }
        i = i + 1;
    }
    assert(tv.subrange(0, n as int) =~= tv);
    r
}

fn stage_labels(n: usize) -> (r: String)
    requires
        n < 0x1_0000_0000,
    ensures
        r@ == spec_stage_labels(n as nat),
{
    let mut r = String::new();
    let mut k: usize = 0;
    while k < n
        invariant
            n < 0x1_0000_0000,
            k <= n,
            r@ == spec_stage_labels(k as nat),
        decreases n - k,
    {
        push_str(&mut r, "[a");
        push_decimal(&mut r, k as u64);
        push_str(&mut r, "]");
        k = k + 1;
        assert(r@ =~= spec_stage_labels(k as nat));
    }
    r
}

fn fade_stages(dur: i64, fi: i64, fo: i64) -> (r: String)
    requires
        0 <= fo <= dur,
    ensures
        r@ == spec_fade_stages(dur, fi, fo),
{
    let mut r = String::new();
    if fi > 0 {
        push_str(&mut r, "afade=t=in:st=0:d=");
        push_thousandths(&mut r, fi);
        push_str(&mut r, ",");
    }
    let ghost c = r@;
    if fo > 0 {
        push_str(&mut r, "afade=t=out:st=");
        let st: i64 = if dur - fo > 0 {
            dur - fo
        } else {
            0
        };
        push_thousandths(&mut r, st);
        push_str(&mut r, ":d=");
        push_thousandths(&mut r, fo);
        push_str(&mut r, ",");
    }
    let ghost d = r@;
    push_str(&mut r, "apad[aout]");
    assert(r@ =~= spec_fade_stages(dur, fi, fo));
    r
}

fn export_filter(tracks: &Vec<(String, i64)>, dur: i64, fi: i64, fo: i64) -> (r: String)
    requires
        tracks@.len() < 0x1_0000_0000,
        0 <= fo <= dur,
    ensures
        r@ == spec_export_filter(spec_track_views(tracks@), dur, fi, fo),
{
    let n = tracks.len();
    if n == 0 {
        let mut r = owned("aevalsrc=0:d=");
        push_thousandths(&mut r, dur);
        push_str(&mut r, "[aout]");
        assert(r@ =~= spec_export_filter(spec_track_views(tracks@), dur, fi, fo));
        return r;
    }
    let mut r = volume_stages(tracks);
    let labels = stage_labels(n);
    push_str(&mut r, labels.as_str());
    if n == 1 {
        push_str(&mut r, "anull");
    } else {
        push_str(&mut r, "amix=inputs=");
        push_decimal(&mut r, n as u64);
        push_str(&mut r, ":duration=longest:normalize=0");
    }
    push_str(&mut r, ",");
    let tail = fade_stages(dur, fi, fo);
    push_str(&mut r, tail.as_str());
    assert(r@ =~= spec_export_filter(spec_track_views(tracks@), dur, fi, fo));
    r
}

/// The audio filter graph of an export of `dur_ms` milliseconds (see
/// `spec_export_filter`), with the fades clamped to the export's length.
pub fn audio_filter_graph(
    tracks: &Vec<(String, i64)>,
    dur_ms: i64,
    fade_in_ms: Option<i64>,
    fade_out_ms: Option<i64>,
) -> (r: String)
    requires
        tracks@.len() < 0x1_0000_0000,
        dur_ms > 0,
    ensures
        r@ == spec_export_filter(
            spec_track_views(tracks@),
            dur_ms,
            spec_clamp_ms(
                match fade_in_ms {
                    Some(f) => f,
                    None => 0,
                },
                dur_ms,
            ),
            spec_clamp_ms(
                match fade_out_ms {
                    Some(f) => f,
                    None => 0,
                },
                dur_ms,
            ),
        ),
{
    let fi0: i64 = match fade_in_ms {
        Some(f) => f,
        None => 0,
    };
    let fo0: i64 = match fade_out_ms {
        Some(f) => f,
        None => 0,
    };
    let fi: i64 = if fi0 < 0 {
        0
    } else if fi0 > dur_ms {
        dur_ms
    } else {
        fi0
    };
    let fo: i64 = if fo0 < 0 {
        0
    } else if fo0 > dur_ms {
        dur_ms
    } else {
        fo0
    };
    export_filter(tracks, dur_ms, fi, fo)
}

fn push_reencode_args(v: &mut Vec<String>, enc: &str)
    ensures
        spec_strings(final(v)@) == spec_strings(old(v)@) + spec_reencode_args(enc@),
{
    let ghost before = spec_strings(v@);
    let e = chars_of(enc);
    let nvenc = chars_of("nvenc");
    let qsv = chars_of("qsv");
    let amf = chars_of("amf");
    let av1 = chars_of("av1");
    if contains(e.as_slice(), nvenc.as_slice()) {
        push_lit2(v, "-c:v", enc);
        let lits = vec!["-preset", "p4", "-rc", "vbr", "-cq", "20", "-b:v", "0", "-spatial-aq", "1"];
        assert(spec_strs(lits@) =~= seq![
            "-preset"@,
            "p4"@,
            "-rc"@,
            "vbr"@,
            "-cq"@,
            "20"@,
            "-b:v"@,
            "0"@,
            "-spatial-aq"@,
            "1"@,
        ]);
        push_lits(v, lits);
        let ghost mid = spec_strings(v@);
        if !contains(e.as_slice(), av1.as_slice()) {
            push_lit2(v, "-temporal-aq", "1");
        }
        push_lit2(v, "-pix_fmt", "yuv420p");
    } else if contains(e.as_slice(), qsv.as_slice()) {
        push_lit2(v, "-c:v", enc);
        push_lit2(v, "-preset", "faster");
        push_lit2(v, "-global_quality", "20");
        push_lit2(v, "-pix_fmt", "nv12");
    } else if contains(e.as_slice(), amf.as_slice()) {
        push_lit2(v, "-c:v", enc);
        let lits = vec!["-quality", "speed", "-rc", "cqp", "-qp_i", "20", "-qp_p", "22", "-pix_fmt", "nv12"];
        assert(spec_strs(lits@) =~= seq![
            "-quality"@,
            "speed"@,
            "-rc"@,
            "cqp"@,
            "-qp_i"@,
            "20"@,
            "-qp_p"@,
            "22"@,
            "-pix_fmt"@,
            "nv12"@,
        ]);
        push_lits(v, lits);
    } else {
        let lits = vec!["-c:v", "libx264", "-preset", "ultrafast", "-crf", "19", "-pix_fmt", "yuv420p"];
        assert(spec_strs(lits@) =~= seq![
            "-c:v"@,
            "libx264"@,
            "-preset"@,
            "ultrafast"@,
            "-crf"@,
            "19"@,
            "-pix_fmt"@,
            "yuv420p"@,
        ]);
        push_lits(v, lits);
    }
    assert(spec_strings(v@) =~= before + spec_reencode_args(enc@));
}

fn push_normal_tail(v: &mut Vec<String>, dur: i64, output: &str)
    ensures
        spec_strings(final(v)@) == spec_strings(old(v)@) + spec_normal_tail(dur, output@),
{
    let ghost before = spec_strings(v@);
    push_lit2(v, "-c:a", "aac");
    push_lit2(v, "-b:a", "192k");
    push_lit_string(v, "-t", thousandths_string(dur));
    push_lit2(v, "-movflags", "+faststart");
    push_lit2(v, "-y", output);
    assert(spec_strings(v@) =~= before + spec_normal_tail(dur, output@));
}

fn kbps_string(k: u32) -> (r: String)
    ensures
        r@ == spec_decimal(k as nat) + "k"@,
{
    let mut r = decimal_string(k as u64);
    push_str(&mut r, "k");
    r
}

fn push_compression_args(v: &mut Vec<String>, video_kbps: u32, audio_kbps: u32, dur: i64, output: &str)
    requires
        video_kbps <= u32::MAX / 2,
    ensures
        spec_strings(final(v)@) == spec_strings(old(v)@) + spec_compression_args(
            video_kbps,
            audio_kbps,
            dur,
            output@,
        ),
{
    let ghost before = spec_strings(v@);
    let (h, fps) = compression_quality(video_kbps);
    let mut vf = owned("scale=-2:");
    push_decimal(&mut vf, h as u64);
    push_str(&mut vf, ",fps=");
    push_decimal(&mut vf, fps as u64);
    push_lit_string(v, "-vf", vf);
    push_lit2(v, "-c:v", "libx264");
    push_lit2(v, "-preset", "medium");
    push_lit_string(v, "-b:v", kbps_string(video_kbps));
    push_lit_string(v, "-maxrate", kbps_string(video_kbps));
    push_lit_string(v, "-bufsize", kbps_string(video_kbps * 2));
    push_lit2(v, "-pix_fmt", "yuv420p");
    push_lit2(v, "-c:a", "aac");
    push_lit_string(v, "-b:a", kbps_string(audio_kbps));
    push_lit_string(v, "-t", thousandths_string(dur));
    push_lit2(v, "-movflags", "+faststart");
    push_lit2(v, "-y", output);
    assert(spec_strings(v@) =~= before + spec_compression_args(video_kbps, audio_kbps, dur, output@));
}

fn export_head(input: &str, start_ms: i64, tracks: &Vec<(String, i64)>, dur: i64, fi: i64, fo: i64) -> (r: Vec<String>)
    requires
        tracks@.len() < 0x1_0000_0000,
        0 <= fo <= dur,
    ensures
        spec_strings(r@) == seq![
            "-hide_banner"@,
            "-loglevel"@,
            "error"@,
            "-progress"@,
            "pipe:1"@,
            "-nostats"@,
            "-ss"@,
            spec_thousandths(start_ms as int),
            "-i"@,
            input@,
        ] + spec_track_inputs(spec_track_views(tracks@), start_ms) + seq![
            "-map"@,
            "0:v:0"@,
            "-filter_complex"@,
            spec_export_filter(spec_track_views(tracks@), dur, fi, fo),
            "-map"@,
            "[aout]"@,
        ],
{
    let ghost tv = spec_track_views(tracks@);
    let mut args: Vec<String> = Vec::new();
    let lits = vec!["-hide_banner", "-loglevel", "error", "-progress", "pipe:1", "-nostats", "-ss"];
    assert(spec_strs(lits@) =~= seq![
        "-hide_banner"@,
        "-loglevel"@,
        "error"@,
        "-progress"@,
        "pipe:1"@,
        "-nostats"@,
        "-ss"@,
    ]);
    push_lits(&mut args, lits);
    push_string(&mut args, thousandths_string(start_ms));
    push_lit2(&mut args, "-i", input);
    let ghost base = spec_strings(args@);
    let mut i: usize = 0;
    while i < tracks.len()
        invariant
            i <= tracks@.len(),
            tv == spec_track_views(tracks@),
            spec_strings(args@) == base + spec_track_inputs(tv.subrange(0, i as int), start_ms),
        decreases tracks@.len() - i,
    {
        push_lit_string(&mut args, "-ss", thousandths_string(start_ms));
        push_lit2(&mut args, "-i", tracks[i].0.as_str());
        assert(tv.subrange(0, i + 1).drop_last() =~= tv.subrange(0, i as int));
        assert(spec_strings(args@) =~= base + spec_track_inputs(tv.subrange(0, i + 1), start_ms));
        i = i + 1;
    }
    assert(tv.subrange(0, tracks@.len() as int) =~= tv);
    push_lit2(&mut args, "-map", "0:v:0");
    push_lit(&mut args, "-filter_complex");
    push_string(&mut args, export_filter(tracks, dur, fi, fo));
    push_lit2(&mut args, "-map", "[aout]");
    assert(spec_strings(args@) =~= seq![
        "-hide_banner"@,
        "-loglevel"@,
        "error"@,
        "-progress"@,
        "pipe:1"@,
        "-nostats"@,
        "-ss"@,
        spec_thousandths(start_ms as int),
        "-i"@,
        input@,
    ] + spec_track_inputs(tv, start_ms) + seq![
        "-map"@,
        "0:v:0"@,
        "-filter_complex"@,
        spec_export_filter(tv, dur, fi, fo),
        "-map"@,
        "[aout]"@,
    ]);
    args
}

/// The export's command line (see `spec_export_args`). `tracks` are the
/// exported track files (joined to the clip's folder) with their volumes,
/// `compression` the video and audio bitrates of a size-targeted export,
/// and `encoder` the best available encoder, used for trimmed exports.
pub fn export_args(
    input: &str,
    start_ms: i64,
    end_ms: i64,
    fade_in_ms: Option<i64>,
    fade_out_ms: Option<i64>,
    tracks: &Vec<(String, i64)>,
    compression: Option<(u32, u32)>,
    clip_duration_ms: i64,
    encoder: &str,
    output: &str,
) -> (r: Result<Vec<String>, String>)
    requires
        spec_time_ok(start_ms),
        spec_time_ok(end_ms),
        spec_time_ok(clip_duration_ms),
        tracks@.len() < 0x1_0000_0000,
        compression matches Some((v, a)) ==> v <= u32::MAX / 2,
    ensures
        match spec_export_args(
            input@,
            start_ms,
            end_ms,
            fade_in_ms,
            fade_out_ms,
            spec_track_views(tracks@),
            compression,
            clip_duration_ms,
            encoder@,
            output@,
        ) {
            Ok(a) => r matches Ok(v) && spec_strings(v@) == a,
            Err(m) => r matches Err(e) && e@ == m,
        },
{
    let dur: i64 = end_ms - start_ms;
    if dur <= 0 {
        return Err(owned("invalid trim"));
    }
    let fi0: i64 = match fade_in_ms {
        Some(f) => f,
        None => 0,
    };
    let fo0: i64 = match fade_out_ms {
        Some(f) => f,
        None => 0,
    };
    let fi: i64 = if fi0 < 0 {
        0
    } else if fi0 > dur {
        dur
    } else {
        fi0
    };
    let fo: i64 = if fo0 < 0 {
        0
    } else if fo0 > dur {
        dur
    } else {
        fo0
    };
    let mut args = export_head(input, start_ms, tracks, dur, fi, fo);
    let ghost head = spec_strings(args@);
    match compression {
        Some((v, a)) => {
            push_compression_args(&mut args, v, a, dur, output);
        },
        None => {
            if start_ms <= 50 && end_ms >= clip_duration_ms - 50 {
                push_lit2(&mut args, "-c:v", "copy");
            } else {
                push_reencode_args(&mut args, encoder);
            }
            push_normal_tail(&mut args, dur, output);
        },
    }
    assert(spec_strings(args@) =~= head + match compression {
        Some((v, a)) => spec_compression_args(v, a, dur, output@),
        None => if spec_is_full_export(start_ms, end_ms, clip_duration_ms) {
            seq!["-c:v"@, "copy"@] + spec_normal_tail(dur, output@)
        } else {
            spec_reencode_args(encoder@) + spec_normal_tail(dur, output@)
        },
    });
    Ok(args)
}


// ─── Progress ───────────────────────────────────────────────────────────────

/// A signed decimal number that fits in `i64`: an optional `-` or `+`, then
/// digits.
pub open spec fn spec_parse_i64(s: Seq<char>) -> Option<int> {
    if s.len() > 0 && s[0] == '-' {
        let rest = s.subrange(1, s.len() as int);
        if rest.len() > 0 && rest[0] != '+' {
            match spec_parse_unsigned(rest) {
                Some(v) => if v <= 0x8000_0000_0000_0000 {
                    Some(-(v as int))
                } else {
                    None
                },
                None => None,
            }
        } else {
            None
        }
    } else {
        match spec_parse_unsigned(s) {
            Some(v) => if v <= i64::MAX {
                Some(v as int)
            } else {
                None
            },
            None => None,
        }
    }
}

/// Progress in hundredths of a percent after `us` microseconds of output of
/// an export of `dur_ms` milliseconds, within 0 to 100 %.
pub open spec fn spec_progress_hundredths(us: int, dur_ms: nat) -> u32 {
    if us <= 0 {
        0
    } else if us >= dur_ms * 1000 {
        10000
    } else {
        ((us * 10) / (dur_ms as int)) as u32
    }
}

/// The progress a line of the encoder's progress output reports, if it is
/// an `out_time_us=<n>` line (surrounding whitespace aside).
pub open spec fn spec_line_progress(line: Seq<char>, dur_ms: nat) -> Option<u32> {
    let t = spec_trim(line);
    if t.len() >= 12 && spec_starts_with(t, "out_time_us="@) {
        match spec_parse_i64(t.subrange(12, t.len() as int)) {
            Some(us) => Some(spec_progress_hundredths(us, dur_ms)),
            None => None,
        }
    } else {
        None
    }
}

/// Progress values of the complete lines of `s` from `pos` on, and where
/// the incomplete rest begins.
pub open spec fn spec_drain_from(s: Seq<char>, pos: int, dur_ms: nat) -> (Seq<u32>, int)
    decreases s.len() - pos,
{
    if pos < 0 || pos >= s.len() {
        (Seq::empty(), pos)
    } else {
        match spec_find_char(s, '\n', pos) {
            None => (Seq::empty(), pos),
            Some(i) => {
                proof {
                    lemma_find_char_result(s, '\n', pos);
                }
                let rest = spec_drain_from(s, i + 1, dur_ms);
                let here: Seq<u32> = match spec_line_progress(s.subrange(pos, i + 1), dur_ms) {
                    Some(p) => seq![p],
                    None => Seq::empty(),
                };
                (here + rest.0, rest.1)
            },
        }
    }
}

fn find_char_from(s: &[char], c: char, start: usize) -> (r: Option<usize>)
    requires
        start <= s@.len(),
    ensures
        match r {
            Some(k) => spec_find_char(s@, c, start as int) == Some(k as int) && start <= k < s@.len(),
            None => spec_find_char(s@, c, start as int) is None,
        },
{
    let mut i: usize = start;
    while i < s.len()
        invariant
            start <= i <= s@.len(),
            spec_find_char(s@, c, start as int) == spec_find_char(s@, c, i as int),
        decreases s@.len() - i,
    {
        if s[i] == c {
            return Some(i);
        }
        i = i + 1;
    }
    None
}

fn parse_i64(s: &[char]) -> (r: Option<i64>)
    ensures
        match r {
            Some(v) => spec_parse_i64(s@) == Some(v as int),
            None => spec_parse_i64(s@) is None,
        },
{
    if s.len() > 0 && s[0] == '-' {
        let rest = slice_range(s, 1, s.len());
        if rest.len() > 0 && rest[0] != '+' {
            match parse_unsigned(rest.as_slice(), 0x8000_0000_0000_0000u64) {
                Some(v) => {
                    let r: i128 = 0i128 - (v as i128);
                    Some(r as i64)
                },
                None => None,
            }
        } else {
            None
        }
    } else {
        match parse_unsigned(s, i64::MAX as u64) {
            Some(v) => Some(v as i64),
            None => None,
        }
    }
}

fn line_progress(line: &[char], dur_ms: u64) -> (r: Option<u32>)
    requires
        1 <= dur_ms <= u64::MAX / 1000,
    ensures
        r == spec_line_progress(line@, dur_ms as nat),
{
    let t = trim_chars(line);
    let key = chars_of("out_time_us=");
    proof {
        reveal_strlit("out_time_us=");
    }
    if t.len() >= 12 && starts_with(t.as_slice(), key.as_slice()) {
        let rest = slice_range(t.as_slice(), 12, t.len());
        match parse_i64(rest.as_slice()) {
            Some(us) => {
                let p: u32 = if us <= 0 {
                    0
                } else if us as u64 >= dur_ms * 1000 {
                    10000
                } else {
                    let num: u128 = us as u128 * 10;
                    let q: u128 = num / (dur_ms as u128);
                    assert(q < 10000) by (nonlinear_arith)
                        requires
                            q as int == (num as int) / (dur_ms as int),
                            num == us * 10,
                            (us as int) < dur_ms * 1000,
                            dur_ms >= 1,
                            us > 0,
                    ;
                    q as u32
                };
                Some(p)
            },
            None => None,
        }
    } else {
        None
    }
}

/// Takes the complete lines out of the pending progress output and returns
/// the progress they report, in hundredths of a percent (see
/// `spec_drain_from`); an incomplete last line stays pending. An export of
/// zero milliseconds counts as one.
pub fn drain_progress_lines(buf: &mut String, dur_ms: u64) -> (r: Vec<u32>)
    requires
        dur_ms <= u64::MAX / 1000,
    ensures
        ({
            let d: nat = if dur_ms == 0 {
                1
            } else {
                dur_ms as nat
            };
            let res = spec_drain_from(old(buf)@, 0, d);
            &&& r@ == res.0
            &&& final(buf)@ == old(buf)@.subrange(res.1, old(buf)@.len() as int)
        }),
{
    let d: u64 = if dur_ms == 0 {
        1
    } else {
        dur_ms
    };
    let s = chars_of(buf.as_str());
    let ghost sv = s@;
    let mut out: Vec<u32> = Vec::new();
    let mut pos: usize = 0;
    loop
        invariant
            sv == s@,
            pos <= s@.len(),
            1 <= d <= u64::MAX / 1000,
            out@ + spec_drain_from(sv, pos as int, d as nat).0 == spec_drain_from(sv, 0, d as nat).0,
            spec_drain_from(sv, pos as int, d as nat).1 == spec_drain_from(sv, 0, d as nat).1,
        ensures
            pos <= s@.len(),
            spec_drain_from(sv, pos as int, d as nat).0 =~= Seq::<u32>::empty(),
            spec_drain_from(sv, pos as int, d as nat).1 == pos as int,
            out@ == spec_drain_from(sv, 0, d as nat).0,
            spec_drain_from(sv, 0, d as nat).1 == pos as int,
        decreases s@.len() - pos,
    {
        if pos >= s.len() {
            break;
        }
        match find_char_from(s.as_slice(), '\n', pos) {
            None => {
                break;
            },
            Some(i) => {
                let line = slice_range(s.as_slice(), pos, i + 1);
                let ghost before = out@;
                match line_progress(line.as_slice(), d) {
                    Some(p) => {
                        out.push(p);
                    },
                    None => {},
                }
                proof {
                    let here: Seq<u32> = match spec_line_progress(sv.subrange(pos as int, i + 1), d as nat) {
                        Some(p) => seq![p],
                        None => Seq::empty(),
                    };
                    assert(out@ == before + here);
                    assert(spec_drain_from(sv, pos as int, d as nat).0 == here + spec_drain_from(
                        sv,
                        i + 1,
                        d as nat,
                    ).0);
                    assert(out@ + spec_drain_from(sv, i + 1, d as nat).0 =~= before + spec_drain_from(
                        sv,
                        pos as int,
                        d as nat,
                    ).0);
                }
                pos = i + 1;
            },
        }
    }
    let rest = slice_range(s.as_slice(), pos, s.len());
    *buf = string_from_chars(rest.as_slice());
    out
}

// ─── Jobs ───────────────────────────────────────────────────────────────────

/// How an export job ended.
#[derive(Clone, Copy, Debug, PartialEq, Eq, Structural)]
pub enum JobOutcome {
    Cancelled,
    Success,
    Error,
}

/// Outputs no larger than this are failed exports.
pub const MIN_EXPORT_BYTES: u64 = 1024;

/// How an export job ended and whether its output is removed: cancelled
/// jobs and jobs whose output is missing or at most 1 KiB lose it.
pub open spec fn spec_job_outcome(cancelled: bool, output_len: Option<u64>) -> (JobOutcome, bool) {
    if cancelled {
        (JobOutcome::Cancelled, true)
    } else if output_len matches Some(n) && n > MIN_EXPORT_BYTES {
        (JobOutcome::Success, false)
    } else {
        (JobOutcome::Error, true)
    }
}

/// How an export job ended (see `spec_job_outcome`).
pub fn finish_job(cancelled: bool, output_len: Option<u64>) -> (r: (JobOutcome, bool))
    ensures
        r == spec_job_outcome(cancelled, output_len),
{
    if cancelled {
        (JobOutcome::Cancelled, true)
    } else {
        match output_len {
            Some(n) => if n > MIN_EXPORT_BYTES {
                (JobOutcome::Success, false)
            } else {
                (JobOutcome::Error, true)
            },
            None => (JobOutcome::Error, true),
        }
    }
}

impl JobOutcome {
    /// The status reported for the job.
    pub fn as_str(self) -> (r: &'static str)
        ensures
            self == JobOutcome::Cancelled ==> r@ == "cancelled"@,
            self == JobOutcome::Success ==> r@ == "success"@,
            self == JobOutcome::Error ==> r@ == "error"@,
    {
        match self {
            JobOutcome::Cancelled => "cancelled",
            JobOutcome::Success => "success",
            JobOutcome::Error => "error",
        }
    }
}

/// The id of a new job: `j<now>-<number of jobs + 1>`.
pub fn job_id(now_secs: u64, job_count: usize) -> (r: String)
    requires
        job_count < usize::MAX,
    ensures
        r@ == "j"@ + spec_decimal(now_secs as nat) + "-"@ + spec_decimal((job_count + 1) as nat),
{
    let mut r = owned("j");
    push_decimal(&mut r, now_secs);
    push_str(&mut r, "-");
    push_decimal(&mut r, (job_count + 1) as u64);
    r
}

/// The command line that grabs one frame at `time_ms` of the clip as a BMP
/// on standard output.
pub fn screenshot_args(time_ms: i64, input: &str) -> (r: Vec<String>)
    ensures
        spec_strings(r@) == seq![
            "-hide_banner"@,
            "-loglevel"@,
            "error"@,
            "-ss"@,
            spec_thousandths(time_ms as int),
            "-i"@,
            input@,
            "-frames:v"@,
            "1"@,
            "-c:v"@,
            "bmp"@,
            "-f"@,
            "image2pipe"@,
            "-"@,
        ],
{
    let mut v: Vec<String> = Vec::new();
    push_lit2(&mut v, "-hide_banner", "-loglevel");
    push_lit2(&mut v, "error", "-ss");
    push_string(&mut v, thousandths_string(time_ms));
    push_lit2(&mut v, "-i", input);
    push_lit2(&mut v, "-frames:v", "1");
    push_lit2(&mut v, "-c:v", "bmp");
    push_lit2(&mut v, "-f", "image2pipe");
    push_lit(&mut v, "-");
    assert(spec_strings(v@) =~= seq![
        "-hide_banner"@,
        "-loglevel"@,
        "error"@,
        "-ss"@,
        spec_thousandths(time_ms as int),
        "-i"@,
        input@,
        "-frames:v"@,
        "1"@,
        "-c:v"@,
        "bmp"@,
        "-f"@,
        "image2pipe"@,
        "-"@,
    ]);
    v
}

/// Whether the arguments `a` hold, from position `at`, the input of track
/// `k`: `-ss <start> -i <file>`.
pub open spec fn spec_track_input_at(
    a: Seq<Seq<char>>,
    at: int,
    tracks: Seq<(Seq<char>, i64)>,
    start: i64,
    k: int,
) -> bool {
    &&& a[at + 4 * k] == "-ss"@
    &&& a[at + 4 * k + 1] == spec_thousandths(start as int)
    &&& a[at + 4 * k + 2] == "-i"@
    &&& a[at + 4 * k + 3] == tracks[k].0
}

proof fn lemma_track_inputs_shape(tracks: Seq<(Seq<char>, i64)>, start: i64)
    ensures
        spec_track_inputs(tracks, start).len() == 4 * tracks.len(),
        forall|k: int|
            0 <= k < tracks.len() ==> #[trigger] spec_track_input_at(spec_track_inputs(tracks, start), 0, tracks, start, k),
    decreases tracks.len(),
{
    if tracks.len() > 0 {
        let p = tracks.drop_last();
        lemma_track_inputs_shape(p, start);
        let a = spec_track_inputs(tracks, start);
        let b = spec_track_inputs(p, start);
        let tail = seq!["-ss"@, spec_thousandths(start as int), "-i"@, tracks.last().0];
        assert(a == b + tail);
        assert forall|k: int| 0 <= k < tracks.len() implies #[trigger] spec_track_input_at(a, 0, tracks, start, k) by {
            if k < p.len() {
                assert(spec_track_input_at(b, 0, p, start, k));
                assert(p[k] == tracks[k]);
                assert(a[4 * k] == b[4 * k]);
                assert(a[4 * k + 1] == b[4 * k + 1]);
                assert(a[4 * k + 2] == b[4 * k + 2]);
                assert(a[4 * k + 3] == b[4 * k + 3]);
            } else {
                assert(a[4 * k] == tail[0]);
                assert(a[4 * k + 1] == tail[1]);
                assert(a[4 * k + 2] == tail[2]);
                assert(a[4 * k + 3] == tail[3]);
            }
        }
    }
}

/// Every exported audio track is read from the trim start, like the video:
/// after the six fixed options the video input is `-ss <start> -i <clip>`,
/// and it is followed by one `-ss <start> -i <track>` per track, in order,
/// where `<start>` is the trim start in seconds with three decimals (see
/// `spec_track_input_at`); the command line exists exactly when the trim
/// ends after it starts.
pub proof fn lemma_export_tracks_seek_with_video(
    input: Seq<char>,
    start: i64,
    end: i64,
    fade_in: Option<i64>,
    fade_out: Option<i64>,
    tracks: Seq<(Seq<char>, i64)>,
    compression: Option<(u32, u32)>,
    clip_duration: i64,
    encoder: Seq<char>,
    output: Seq<char>,
)
    requires
        spec_time_ok(start),
        spec_time_ok(end),
    ensures
        spec_export_args(input, start, end, fade_in, fade_out, tracks, compression, clip_duration, encoder, output)
            is Ok <==> end - start > 0,
        spec_export_args(input, start, end, fade_in, fade_out, tracks, compression, clip_duration, encoder, output)
            matches Ok(a) ==> {
            &&& a.len() >= 10 + 4 * tracks.len()
            &&& a[6] == "-ss"@
            &&& a[7] == spec_thousandths(start as int)
            &&& a[8] == "-i"@
            &&& a[9] == input
            &&& forall|k: int| 0 <= k < tracks.len() ==> #[trigger] spec_track_input_at(a, 10, tracks, start, k)
        },
{
    lemma_track_inputs_shape(tracks, start);
    if let Ok(a) = spec_export_args(input, start, end, fade_in, fade_out, tracks, compression, clip_duration, encoder, output) {
        let ti = spec_track_inputs(tracks, start);
        assert forall|k: int| 0 <= k < tracks.len() implies #[trigger] spec_track_input_at(a, 10, tracks, start, k) by {
            assert(spec_track_input_at(ti, 0, tracks, start, k));
            assert(a[10 + 4 * k] == ti[4 * k]);
            assert(a[10 + 4 * k + 1] == ti[4 * k + 1]);
            assert(a[10 + 4 * k + 2] == ti[4 * k + 2]);
            assert(a[10 + 4 * k + 3] == ti[4 * k + 3]);
        }
    }
}

/// An export lasts exactly the trim: every export command line ends with
/// `-t <end - start> -movflags +faststart -y <output>`, the duration in
/// seconds with three decimals.
pub proof fn lemma_export_duration_and_output(
    input: Seq<char>,
    start: i64,
    end: i64,
    fade_in: Option<i64>,
    fade_out: Option<i64>,
    tracks: Seq<(Seq<char>, i64)>,
    compression: Option<(u32, u32)>,
    clip_duration: i64,
    encoder: Seq<char>,
    output: Seq<char>,
)
    requires
        spec_time_ok(start),
        spec_time_ok(end),
    ensures
        spec_export_args(input, start, end, fade_in, fade_out, tracks, compression, clip_duration, encoder, output)
            matches Ok(a) ==> {
            &&& a.len() >= 16
            &&& a[a.len() - 6] == "-t"@
            &&& a[a.len() - 5] == spec_thousandths(end - start)
            &&& a[a.len() - 4] == "-movflags"@
            &&& a[a.len() - 3] == "+faststart"@
            &&& a[a.len() - 2] == "-y"@
            &&& a[a.len() - 1] == output
        },
{
}

} // verus!
