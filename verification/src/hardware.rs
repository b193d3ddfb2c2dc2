//! Encoder selection and machine classification: which hardware encoders are
//! tried for a codec and in what order, the scaling path an encoder implies,
//! the performance tier of a machine and its efficiency-core mask.
use vstd::prelude::*;
use crate::config::VideoCodec;
use crate::text::{chars_of, chars_eq, contains, starts_with, owned, spec_contains, spec_starts_with, spec_strs, spec_strings};

verus! {

/// How frames are scaled on their way to the encoder.
#[derive(Clone, Copy, Debug, PartialEq, Eq, Structural)]
pub enum ScalingMethod {
    Cuda,
    Qsv,
    D3d11Direct,
    CpuFallback,
}

/// Key under which a codec's chosen encoder is cached.
pub fn codec_key(codec: VideoCodec) -> (r: &'static str)
    ensures
        codec == VideoCodec::H264 ==> r@ == "H264"@,
        codec == VideoCodec::HEVC ==> r@ == "HEVC"@,
        codec == VideoCodec::AV1 ==> r@ == "AV1"@,
{
    match codec {
        VideoCodec::H264 => "H264",
        VideoCodec::HEVC => "HEVC",
        VideoCodec::AV1 => "AV1",
    }
}

/// Hardware encoders tried for a codec, in order.
pub open spec fn spec_hw_candidates(codec: VideoCodec) -> Seq<Seq<char>> {
    match codec {
        VideoCodec::H264 => seq!["h264_nvenc"@, "h264_amf"@, "h264_qsv"@],
        VideoCodec::HEVC => seq!["hevc_nvenc"@, "hevc_amf"@, "hevc_qsv"@],
        VideoCodec::AV1 => seq!["av1_nvenc"@, "av1_amf"@, "av1_qsv"@],
    }
}

/// Software encoder used when no hardware encoder works for a codec.
pub open spec fn spec_software_fallback(codec: VideoCodec) -> Seq<char> {
    match codec {
        VideoCodec::H264 => "libx264"@,
        VideoCodec::HEVC => "libx265"@,
        VideoCodec::AV1 => "libsvtav1"@,
    }
}

/// Hardware encoders of other codecs tried when AV1 has no hardware encoder.
pub open spec fn spec_av1_cross_fallbacks() -> Seq<Seq<char>> {
    seq!["hevc_nvenc"@, "h264_nvenc"@, "hevc_amf"@, "h264_amf"@, "hevc_qsv"@, "h264_qsv"@]
}

/// Every encoder probed for a codec, in probing order.
pub open spec fn spec_probe_order(codec: VideoCodec) -> Seq<Seq<char>> {
    if codec == VideoCodec::AV1 {
        spec_hw_candidates(codec) + spec_av1_cross_fallbacks()
    } else {
        spec_hw_candidates(codec)
    }
}

/// The hardware encoders tried for a codec, in order, and its software fallback.
pub fn encoder_candidates(codec: VideoCodec) -> (r: (Vec<&'static str>, &'static str))
    ensures
        spec_strs(r.0@) == spec_hw_candidates(codec),
        r.1@ == spec_software_fallback(codec),
{
    let (v, f) = match codec {
        VideoCodec::H264 => (vec!["h264_nvenc", "h264_amf", "h264_qsv"], "libx264"),
        VideoCodec::HEVC => (vec!["hevc_nvenc", "hevc_amf", "hevc_qsv"], "libx265"),
        VideoCodec::AV1 => (vec!["av1_nvenc", "av1_amf", "av1_qsv"], "libsvtav1"),
    };
    assert(spec_strs(v@) =~= spec_hw_candidates(codec));
    (v, f)
}

/// Every encoder to probe for a codec, in order: its own hardware encoders
/// and, for AV1, the H.264/HEVC hardware encoders as a last resort.
pub fn encoder_probe_order(codec: VideoCodec) -> (r: Vec<&'static str>)
    ensures
        spec_strs(r@) == spec_probe_order(codec),
{
    let (mut v, _) = encoder_candidates(codec);
    if codec == VideoCodec::AV1 {
        let ghost before = v@;
        v.push("hevc_nvenc");
        v.push("h264_nvenc");
        v.push("hevc_amf");
        v.push("h264_amf");
        v.push("hevc_qsv");
        v.push("h264_qsv");
        assert(spec_strs(v@) =~= spec_strs(before) + spec_av1_cross_fallbacks());
    }
    v
}

/// The first entry of `order` that is among `available`.
pub open spec fn spec_first_available(order: Seq<Seq<char>>, available: Seq<Seq<char>>) -> Option<
    Seq<char>,
>
    decreases order.len(),
{
    if order.len() == 0 {
        None
    } else if available.contains(order[0]) {
        Some(order[0])
    } else {
        spec_first_available(order.subrange(1, order.len() as int), available)
    }
}

/// The encoder chosen for a codec when exactly the encoders in `available` work.
pub open spec fn spec_selected_encoder(codec: VideoCodec, available: Seq<Seq<char>>) -> Seq<char> {
    match spec_first_available(spec_probe_order(codec), available) {
        Some(e) => e,
        None => spec_software_fallback(codec),
    }
}

fn is_available(name: &str, available: &[String]) -> (r: bool)
    ensures
        r == spec_strings(available@).contains(name@),
{
    let n = chars_of(name);
    let mut i: usize = 0;
    while i < available.len()
        invariant
            i <= available@.len(),
            n@ == name@,
            forall|j: int| 0 <= j < i ==> available@[j]@ != name@,
        decreases available@.len() - i,
    {
        let a = chars_of(available[i].as_str());
        if chars_eq(a.as_slice(), n.as_slice()) {
            assert(spec_strings(available@)[i as int] == name@);
            return true;
        }
        i = i + 1;
    }
    proof {
        if spec_strings(available@).contains(name@) {
            let j = choose|j: int| 0 <= j < spec_strings(available@).len() && spec_strings(available@)[j] == name@;
            assert(available@[j]@ == name@);
        }
    }
    false
}

/// The encoder used for a codec given the encoders that passed a probe: the
/// first one in probing order, else the software fallback.
pub fn select_encoder(codec: VideoCodec, available: &[String]) -> (r: String)
    ensures
        r@ == spec_selected_encoder(codec, spec_strings(available@)),
{
    let order = encoder_probe_order(codec);
    let ghost o = spec_strs(order@);
    assert(o.subrange(0, o.len() as int) == o);
    let mut i: usize = 0;
    while i < order.len()
        invariant
            i <= order@.len(),
            o == spec_strs(order@),
            o == spec_probe_order(codec),
            spec_first_available(o, spec_strings(available@)) == spec_first_available(
                o.subrange(i as int, o.len() as int),
                spec_strings(available@),
            ),
        decreases order@.len() - i,
    {
        let cand = order[i];
        let ghost rest = o.subrange(i as int, o.len() as int);
        assert(rest[0] == cand@);
        assert(rest.subrange(1, rest.len() as int) == o.subrange(i + 1, o.len() as int));
        if is_available(cand, available) {
            return owned(cand);
        }
        i = i + 1;
    }
    let (_, fallback) = encoder_candidates(codec);
    owned(fallback)
}

/// Whether an encoder runs on dedicated hardware (not x264/x265/SVT-AV1).
pub open spec fn spec_is_hardware_encoder(encoder: Seq<char>) -> bool {
    !spec_starts_with(encoder, "libx"@) && !spec_starts_with(encoder, "libsvt"@)
}

/// Whether an encoder runs on dedicated hardware.
pub fn is_hardware_encoder(encoder: &str) -> (r: bool)
    ensures
        r == spec_is_hardware_encoder(encoder@),
{
    let e = chars_of(encoder);
    let x = chars_of("libx");
    let svt = chars_of("libsvt");
    !starts_with(e.as_slice(), x.as_slice()) && !starts_with(e.as_slice(), svt.as_slice())
}

/// The scaling path an encoder implies.
pub open spec fn spec_scaling_method(encoder: Seq<char>) -> ScalingMethod {
    if spec_contains(encoder, "qsv"@) {
        ScalingMethod::Qsv
    } else if spec_contains(encoder, "nvenc"@) {
        ScalingMethod::Cuda
    } else if spec_contains(encoder, "amf"@) {
        ScalingMethod::D3d11Direct
    } else {
        ScalingMethod::CpuFallback
    }
}

/// QuickSync encoders scale on the Intel GPU, NVENC encoders with CUDA, AMF
/// encoders through Direct3D 11; everything else scales on the CPU.
pub fn scaling_method_for_encoder(encoder: &str) -> (r: ScalingMethod)
    ensures
        r == spec_scaling_method(encoder@),
{
    let e = chars_of(encoder);
    if contains(e.as_slice(), chars_of("qsv").as_slice()) {
        ScalingMethod::Qsv
    } else if contains(e.as_slice(), chars_of("nvenc").as_slice()) {
        ScalingMethod::Cuda
    } else if contains(e.as_slice(), chars_of("amf").as_slice()) {
        ScalingMethod::D3d11Direct
    } else {
        ScalingMethod::CpuFallback
    }
}

/// The pixel format an encoder is probed with: NV12 for QuickSync and AMF,
/// planar YUV 4:2:0 otherwise.
pub open spec fn spec_probe_pix_fmt(encoder: Seq<char>) -> Seq<char> {
    if spec_contains(encoder, "qsv"@) || spec_contains(encoder, "amf"@) {
        "nv12"@
    } else {
        "yuv420p"@
    }
}

/// The FFmpeg arguments that test an encoder: one frame of a test pattern
/// encoded into nothing.
pub open spec fn spec_probe_args(encoder: Seq<char>) -> Seq<Seq<char>> {
    seq![
        "-hide_banner"@, "-loglevel"@, "error"@, "-f"@, "lavfi"@, "-i"@,
        "testsrc=size=256x256:rate=1"@, "-pix_fmt"@, spec_probe_pix_fmt(encoder), "-frames:v"@,
        "1"@, "-c:v"@, encoder, "-f"@, "null"@, "-"@,
    ]
}

/// The FFmpeg arguments that test an encoder (see `spec_probe_args`).
pub fn probe_args(encoder: &str) -> (r: Vec<String>)
    ensures
        spec_strings(r@) == spec_probe_args(encoder@),
{
    let e = chars_of(encoder);
    let pix_fmt = if contains(e.as_slice(), chars_of("qsv").as_slice()) || contains(
        e.as_slice(),
        chars_of("amf").as_slice(),
    ) {
        "nv12"
    } else {
        "yuv420p"
    };
    let mut v: Vec<String> = Vec::new();
    crate::args::push_lits(
        &mut v,
        vec![
            "-hide_banner", "-loglevel", "error", "-f", "lavfi", "-i",
            "testsrc=size=256x256:rate=1", "-pix_fmt", pix_fmt, "-frames:v", "1", "-c:v",
        ],
    );
    crate::args::push_lit(&mut v, encoder);
    crate::args::push_lits(&mut v, vec!["-f", "null", "-"]);
    proof {
        reveal_strlit("nv12");
        reveal_strlit("yuv420p");
    }
    assert(spec_strings(v@) =~= spec_probe_args(encoder@));
    v
}

// ─── Machine profile ────────────────────────────────────────────────────────

/// Coarse performance class of the machine.
#[derive(Clone, Copy, Debug, PartialEq, Eq, Structural)]
pub enum HardwareTier {
    Weak,
    Mid,
    Strong,
}

/// What is known about the machine's capture capacity.
#[derive(Clone, Debug)]
pub struct HardwareProfile {
    pub tier: HardwareTier,
    pub logical_cores: u32,
    pub has_hw_encoder: bool,
    pub e_cores_mask: Option<usize>,
}

/// The tier of a machine: weak without a hardware encoder and with at most
/// four cores or at most 8 GiB of RAM; strong with a hardware encoder, at
/// least six cores and at least 15000 MiB of RAM; mid otherwise.
pub open spec fn spec_tier(has_hw_encoder: bool, logical_cores: u32, total_ram_mb: u64) -> HardwareTier {
    if !has_hw_encoder && (logical_cores <= 4 || total_ram_mb <= 8192) {
        HardwareTier::Weak
    } else if has_hw_encoder && logical_cores >= 6 && total_ram_mb >= 15000 {
        HardwareTier::Strong
    } else {
        HardwareTier::Mid
    }
}

/// Classifies a machine (see `spec_tier`).
pub fn classify_tier(has_hw_encoder: bool, logical_cores: u32, total_ram_mb: u64) -> (r: HardwareTier)
    ensures
        r == spec_tier(has_hw_encoder, logical_cores, total_ram_mb),
{
    if !has_hw_encoder && (logical_cores <= 4 || total_ram_mb <= 8192) {
        HardwareTier::Weak
    } else if has_hw_encoder && logical_cores >= 6 && total_ram_mb >= 15000 {
        HardwareTier::Strong
    } else {
        HardwareTier::Mid
    }
}

/// The profile of a machine with the given core count, RAM and chosen encoder.
pub fn hardware_profile_from(
    logical_cores: u32,
    total_ram_mb: u64,
    encoder: &str,
    e_cores_mask: Option<usize>,
) -> (r: HardwareProfile)
    ensures
        r.has_hw_encoder == spec_is_hardware_encoder(encoder@),
        r.tier == spec_tier(r.has_hw_encoder, logical_cores, total_ram_mb),
        r.logical_cores == logical_cores,
        r.e_cores_mask == e_cores_mask,
{
    let hw = is_hardware_encoder(encoder);
    HardwareProfile {
        tier: classify_tier(hw, logical_cores, total_ram_mb),
        logical_cores,
        has_hw_encoder: hw,
        e_cores_mask,
    }
}

/// The tier recorded in a cached profile, or mid when nothing is cached yet.
pub fn get_cached_tier(cached: &Option<HardwareProfile>) -> (r: HardwareTier)
    ensures
        cached matches Some(p) ==> r == p.tier,
        cached is None ==> r == HardwareTier::Mid,
{
    match cached {
        Some(p) => p.tier,
        None => HardwareTier::Mid,
    }
}

/// Smallest efficiency class among core entries (`u8::MAX` when empty).
pub open spec fn spec_min_class(e: Seq<(u8, usize)>) -> u8
    decreases e.len(),
{
    if e.len() == 0 {
        255
    } else {
        let m = spec_min_class(e.drop_last());
        if e.last().0 < m {
            e.last().0
        } else {
            m
        }
    }
}

/// Largest efficiency class among core entries (zero when empty).
pub open spec fn spec_max_class(e: Seq<(u8, usize)>) -> u8
    decreases e.len(),
{
    if e.len() == 0 {
        0
    } else {
        let m = spec_max_class(e.drop_last());
        if e.last().0 > m {
            e.last().0
        } else {
            m
        }
    }
}

/// Union of the group masks of the cores of efficiency class `c`.
pub open spec fn spec_class_mask(e: Seq<(u8, usize)>, c: u8) -> usize
    decreases e.len(),
{
    if e.len() == 0 {
        0
    } else if e.last().0 == c {
        spec_class_mask(e.drop_last(), c) | e.last().1
    } else {
        spec_class_mask(e.drop_last(), c)
    }
}

/// The efficiency-core mask of a processor described by (efficiency class,
/// group mask) entries: on a hybrid processor (more than one class) the union
/// of the masks of the cores of the lowest class, when nonzero; `None` on
/// homogeneous processors.
pub open spec fn spec_e_cores_mask(e: Seq<(u8, usize)>) -> Option<usize> {
    let lo = spec_min_class(e);
    if lo < spec_max_class(e) && spec_class_mask(e, lo) != 0 {
        Some(spec_class_mask(e, lo))
    } else {
        None
    }
}

/// Computes the efficiency-core mask (see `spec_e_cores_mask`).
pub fn e_cores_mask_from(entries: &[(u8, usize)]) -> (r: Option<usize>)
    ensures
        r == spec_e_cores_mask(entries@),
{
    let mut lo: u8 = 255;
    let mut hi: u8 = 0;
    let mut i: usize = 0;
    while i < entries.len()
        invariant
            i <= entries@.len(),
            lo == spec_min_class(entries@.subrange(0, i as int)),
            hi == spec_max_class(entries@.subrange(0, i as int)),
        decreases entries@.len() - i,
    {
        assert(entries@.subrange(0, i + 1).drop_last() == entries@.subrange(0, i as int));
        let (c, _) = entries[i];
        if c < lo {
            lo = c;
        }
        if c > hi {
            hi = c;
        }
        i = i + 1;
    }
    assert(entries@.subrange(0, entries@.len() as int) == entries@);
    if lo < hi {
        let mut mask: usize = 0;
        let mut j: usize = 0;
        while j < entries.len()
            invariant
                j <= entries@.len(),
                lo == spec_min_class(entries@),
                mask == spec_class_mask(entries@.subrange(0, j as int), lo),
            decreases entries@.len() - j,
        {
            assert(entries@.subrange(0, j + 1).drop_last() == entries@.subrange(0, j as int));
            let (c, m) = entries[j];
            if c == lo {
                mask = mask | m;
            }
            j = j + 1;
        }
        if mask != 0 {
            return Some(mask);
        }
    }
    None
}

} // verus!
