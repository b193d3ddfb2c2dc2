//! Integer logic around the audio capture: how many samples a track keeps,
//! the capture window and its offset, which tracks of a clip are saved and
//! under which names, the spike markers inside a clip, the float WAV header
//! written for each track, and reading a WAV header back for the editor's
//! waveform.
use vstd::prelude::*;
use crate::paths::{file_name, spec_file_name, spec_stem, stem_and_extension};
use crate::text::{
    chars_eq, chars_of, owned, push_str, spec_strings, string_from_chars, to_lowercase, spec_lowercase,
};
use crate::sorting::{key_order, spec_char_vecs, spec_is_key_order, spec_lowercase_keys};

verus! {

// ─── Track capacity ─────────────────────────────────────────────────────────

/// Samples (over all channels) a track keeps: thirty seconds more than the
/// clip length.
pub open spec fn spec_track_capacity(sample_rate: u32, channels: u16, max_seconds: u32) -> nat {
    (sample_rate as nat) * (channels as nat) * ((max_seconds as nat) + 30)
}

/// Samples a track keeps (see `spec_track_capacity`).
pub fn track_capacity(sample_rate: u32, channels: u16, max_seconds: u32) -> (r: usize)
    requires
        spec_track_capacity(sample_rate, channels, max_seconds) <= usize::MAX,
        max_seconds + 30 <= usize::MAX,
    ensures
        r == spec_track_capacity(sample_rate, channels, max_seconds),
{
    let a: usize = sample_rate as usize;
    let b: usize = channels as usize;
    let c: usize = max_seconds as usize + 30;
    assert((a as nat) * (b as nat) <= (a as nat) * (b as nat) * (c as nat)) by (nonlinear_arith)
        requires
            c >= 1,
    ;
    a * b * c
}

// ─── Capture window ─────────────────────────────────────────────────────────

/// Nanoseconds per millisecond.
pub const NANOS_PER_MILLI: u64 = 1_000_000;

/// An instant (nanoseconds on the capture clock) moved by `offset_ms`:
/// later for a positive offset; earlier for a negative one unless that
/// would fall before the clock's start, in which case it stays.
pub open spec fn spec_shift(t: u64, offset_ms: i64) -> u64 {
    if offset_ms > 0 {
        (t + offset_ms * NANOS_PER_MILLI) as u64
    } else if offset_ms < 0 {
        if t >= (-offset_ms) * NANOS_PER_MILLI {
            (t - (-offset_ms) * NANOS_PER_MILLI) as u64
        } else {
            t
        }
    } else {
        t
    }
}

/// Whether shifting by `offset_ms` stays within the clock's range.
pub open spec fn spec_shift_ok(t: u64, offset_ms: i64) -> bool {
    offset_ms > -0x800_0000_0000 && offset_ms < 0x800_0000_0000 && (offset_ms > 0 ==> t
        + offset_ms * NANOS_PER_MILLI <= u64::MAX)
}

/// The audio window matching the video window `[start, end]`, moved by the
/// user's audio offset (see `spec_shift`).
pub fn calibrate_window(start: u64, end: u64, offset_ms: i64) -> (r: (u64, u64))
    requires
        spec_shift_ok(start, offset_ms),
        spec_shift_ok(end, offset_ms),
    ensures
        r == (spec_shift(start, offset_ms), spec_shift(end, offset_ms)),
{
    (shift(start, offset_ms), shift(end, offset_ms))
}

fn shift(t: u64, offset_ms: i64) -> (r: u64)
    requires
        spec_shift_ok(t, offset_ms),
    ensures
        r == spec_shift(t, offset_ms),
{
    if offset_ms > 0 {
        t + (offset_ms as u64) * NANOS_PER_MILLI
    } else if offset_ms < 0 {
        let d: u64 = ((0i64 - offset_ms) as u64) * NANOS_PER_MILLI;
        if t >= d {
            t - d
        } else {
            t
        }
    } else {
        t
    }
}

/// Offsets (nanoseconds from the window start) of the spikes inside the
/// window `[start, end]`, in the order they were detected.
pub open spec fn spec_spike_offsets(spikes: Seq<u64>, start: u64, end: u64) -> Seq<u64>
    decreases spikes.len(),
{
    if spikes.len() == 0 {
        Seq::empty()
    } else {
        let prev = spec_spike_offsets(spikes.drop_last(), start, end);
        let t = spikes.last();
        if start <= t && t <= end {
            prev.push((t - start) as u64)
        } else {
            prev
        }
    }
}

/// Offsets of the spikes inside the window (see `spec_spike_offsets`).
pub fn spike_offsets(spikes: &Vec<u64>, start: u64, end: u64) -> (r: Vec<u64>)
    ensures
        r@ == spec_spike_offsets(spikes@, start, end),
{
    let mut out: Vec<u64> = Vec::new();
    let mut i: usize = 0;
    while i < spikes.len()
        invariant
            i <= spikes@.len(),
            out@ == spec_spike_offsets(spikes@.subrange(0, i as int), start, end),
        decreases spikes@.len() - i,
    {
        let t = spikes[i];
        if start <= t && t <= end {
            out.push(t - start);
        }
        assert(spikes@.subrange(0, i + 1).drop_last() =~= spikes@.subrange(0, i as int));
        i = i + 1;
    }
    assert(spikes@.subrange(0, spikes@.len() as int) =~= spikes@);
    out
}

// ─── Which tracks are saved ─────────────────────────────────────────────────

/// Index of the last track named `name` among the first `n`.
pub open spec fn spec_last_named(names: Seq<Seq<char>>, name: Seq<char>, n: int) -> Option<int>
    decreases n,
{
    if n <= 0 {
        None
    } else if names[n - 1] == name {
        Some(n - 1)
    } else {
        spec_last_named(names, name, n - 1)
    }
}

/// The per-application tracks with audible sound among the first `n`, in
/// order.
pub open spec fn spec_audible_apps(names: Seq<Seq<char>>, audible: Seq<bool>, n: int) -> Seq<usize>
    decreases n,
{
    if n <= 0 {
        Seq::empty()
    } else {
        let prev = spec_audible_apps(names, audible, n - 1);
        let k = n - 1;
        if names[k] != "Microphone"@ && names[k] != "System"@ && audible[k] {
            prev.push(k as usize)
        } else {
            prev
        }
    }
}

/// The tracks saved with a clip, by index: the audible application tracks
/// (the system mix would double them), or the system mix when there are
/// none, and then the microphone.
pub open spec fn spec_tracks_to_save(names: Seq<Seq<char>>, audible: Seq<bool>) -> Seq<usize> {
    let apps = spec_audible_apps(names, audible, names.len() as int);
    let first: Seq<usize> = if apps.len() > 0 {
        apps
    } else {
        match spec_last_named(names, "System"@, names.len() as int) {
            Some(k) => seq![k as usize],
            None => Seq::empty(),
        }
    };
    first + match spec_last_named(names, "Microphone"@, names.len() as int) {
        Some(k) => seq![k as usize],
        None => Seq::empty(),
    }
}

/// Whether track `k` is an application track with audible sound.
pub open spec fn spec_audible_app(names: Seq<Seq<char>>, audible: Seq<bool>, k: int) -> bool {
    names[k] != "Microphone"@ && names[k] != "System"@ && audible[k]
}

proof fn lemma_audible_apps_members(names: Seq<Seq<char>>, audible: Seq<bool>, n: int)
    requires
        0 <= n <= names.len(),
        names.len() <= usize::MAX,
        audible.len() == names.len(),
    ensures
        forall|x: usize| #[trigger] spec_audible_apps(names, audible, n).contains(x) <==> (x < n && spec_audible_app(names, audible, x as int)),
    decreases n,
{
    if n > 0 {
        lemma_audible_apps_members(names, audible, n - 1);
        let prev = spec_audible_apps(names, audible, n - 1);
        let cur = spec_audible_apps(names, audible, n);
        let last = (n - 1) as usize;
        assert(last as int == n - 1);
        if spec_audible_app(names, audible, n - 1) {
            assert(cur == prev.push(last));
        } else {
            assert(cur == prev);
        }
        assert forall|x: usize| cur.contains(x) implies (x < n && spec_audible_app(names, audible, x as int)) by {
            let j = choose|j: int| 0 <= j < cur.len() && cur[j] == x;
            if j < prev.len() {
                assert(prev[j] == cur[j]);
                assert(prev.contains(x));
                assert((x as int) < n - 1);
                assert(spec_audible_app(names, audible, x as int));
            } else {
                assert(x == last);
                assert(spec_audible_app(names, audible, n - 1));
            }
        }
        assert forall|x: usize| (x < n && spec_audible_app(names, audible, x as int)) implies cur.contains(x) by {
            if (x as int) < n - 1 {
                assert(prev.contains(x));
                let j = choose|j: int| 0 <= j < prev.len() && prev[j] == x;
                assert(cur[j] == x);
            } else {
                assert(x == last);
                assert(cur[prev.len() as int] == x);
            }
        }
    }
}

proof fn lemma_last_named(names: Seq<Seq<char>>, w: Seq<char>, n: int)
    requires
        n <= names.len(),
    ensures
        spec_last_named(names, w, n) matches Some(k) ==> 0 <= k < n && names[k] == w,
        spec_last_named(names, w, n) is None ==> forall|k: int| 0 <= k < n ==> names[k] != w,
    decreases n,
{
    if n > 0 && names[n - 1] != w {
        lemma_last_named(names, w, n - 1);
    }
}

/// Which tracks are saved with a clip: every audible application track; the
/// system mix exactly when no application track is audible and there is a
/// system track; a microphone track whenever there is one; nothing else.
pub proof fn lemma_tracks_to_save_members(names: Seq<Seq<char>>, audible: Seq<bool>)
    requires
        audible.len() == names.len(),
        names.len() <= usize::MAX,
    ensures
        ({
            let r = spec_tracks_to_save(names, audible);
            let any_app = exists|k: int| 0 <= k < names.len() && #[trigger] spec_audible_app(names, audible, k);
            &&& forall|k: int| 0 <= k < names.len() && #[trigger] spec_audible_app(names, audible, k) ==> r.contains(k as usize)
            &&& forall|j: int| 0 <= j < r.len() ==> (#[trigger] r[j] as int) < names.len() && (spec_audible_app(names, audible, r[j] as int)
                || (names[r[j] as int] == "System"@ && !any_app) || names[r[j] as int] == "Microphone"@)
            &&& (!any_app && exists|k: int| 0 <= k < names.len() && names[k] == "System"@) ==> exists|j: int|
                0 <= j < r.len() && names[#[trigger] r[j] as int] == "System"@
            &&& (exists|k: int| 0 <= k < names.len() && names[k] == "Microphone"@) ==> exists|j: int|
                0 <= j < r.len() && names[#[trigger] r[j] as int] == "Microphone"@
        }),
{
    let n = names.len() as int;
    let r = spec_tracks_to_save(names, audible);
    let apps = spec_audible_apps(names, audible, n);
    lemma_audible_apps_members(names, audible, n);
    lemma_last_named(names, "System"@, n);
    lemma_last_named(names, "Microphone"@, n);
    let any_app = exists|k: int| 0 <= k < names.len() && #[trigger] spec_audible_app(names, audible, k);
    let first: Seq<usize> = if apps.len() > 0 {
        apps
    } else {
        match spec_last_named(names, "System"@, n) {
            Some(k) => seq![k as usize],
            None => Seq::empty(),
        }
    };
    let mic: Seq<usize> = match spec_last_named(names, "Microphone"@, n) {
        Some(k) => seq![k as usize],
        None => Seq::empty(),
    };
    assert(r == first + mic);
    if any_app {
        let k = choose|k: int| 0 <= k < names.len() && #[trigger] spec_audible_app(names, audible, k);
        assert(apps.contains(k as usize));
        assert(apps.len() > 0);
    } else {
        if apps.len() > 0 {
            assert(apps.contains(apps[0]));
            assert(spec_audible_app(names, audible, apps[0] as int));
        }
    }
    assert forall|k: int| 0 <= k < names.len() && #[trigger] spec_audible_app(names, audible, k) implies r.contains(k as usize) by {
        assert(apps.contains(k as usize));
        let j = choose|j: int| 0 <= j < apps.len() && apps[j] == k as usize;
        assert(r[j] == k as usize);
    }
    assert forall|j: int| 0 <= j < r.len() implies (#[trigger] r[j] as int) < names.len() && (spec_audible_app(names, audible, r[j] as int)
        || (names[r[j] as int] == "System"@ && !any_app) || names[r[j] as int] == "Microphone"@) by {
        if j < first.len() {
            assert(r[j] == first[j]);
            if apps.len() > 0 {
                assert(apps.contains(apps[j]));
            } else {
                assert(!any_app);
                let k = spec_last_named(names, "System"@, n)->0;
                assert(first[j] == k as usize);
                assert(names[k] == "System"@);
            }
        } else {
            assert(r[j] == mic[j - first.len()]);
            let k = spec_last_named(names, "Microphone"@, n)->0;
            assert(mic[j - first.len()] == k as usize);
            assert(names[k] == "Microphone"@);
        }
    }
    if !any_app && exists|k: int| 0 <= k < names.len() && names[k] == "System"@ {
        assert(apps.len() == 0);
        let k = spec_last_named(names, "System"@, n)->0;
        assert(r[0] == k as usize);
    }
    if exists|k: int| 0 <= k < names.len() && names[k] == "Microphone"@ {
        let k = spec_last_named(names, "Microphone"@, n)->0;
        assert(r[first.len() as int] == k as usize);
    }
}

fn is_word(s: &String, w: &str) -> (r: bool)
    ensures
        r == (s@ == w@),
{
    let a = chars_of(s.as_str());
    let b = chars_of(w);
    chars_eq(a.as_slice(), b.as_slice())
}

/// The tracks saved with a clip (see `spec_tracks_to_save`); `audible[k]`
/// tells whether track `k` reaches an audible level in the window.
pub fn tracks_to_save(names: &Vec<String>, audible: &Vec<bool>) -> (r: Vec<usize>)
    requires
        audible@.len() == names@.len(),
    ensures
        r@ == spec_tracks_to_save(spec_strings(names@), audible@),
{
    let ghost ns = spec_strings(names@);
    proof {
        reveal_strlit("System");
        reveal_strlit("Microphone");
    }
    let mut apps: Vec<usize> = Vec::new();
    let mut sys: Option<usize> = None;
    let mut mic: Option<usize> = None;
    let mut i: usize = 0;
    while i < names.len()
        invariant
            i <= names@.len(),
            audible@.len() == names@.len(),
            ns == spec_strings(names@),
            apps@ == spec_audible_apps(ns, audible@, i as int),
            match sys {
                Some(k) => spec_last_named(ns, "System"@, i as int) == Some(k as int),
                None => spec_last_named(ns, "System"@, i as int) is None,
            },
            match mic {
                Some(k) => spec_last_named(ns, "Microphone"@, i as int) == Some(k as int),
                None => spec_last_named(ns, "Microphone"@, i as int) is None,
            },
        decreases names@.len() - i,
    {
        proof {
            reveal_strlit("System");
            reveal_strlit("Microphone");
            assert(ns[i as int] == names@[i as int]@);
        }
        if is_word(&names[i], "Microphone") {
            mic = Some(i);
        } else if is_word(&names[i], "System") {
            sys = Some(i);
        } else if audible[i] {
            apps.push(i);
        }
        i = i + 1;
    }
    let mut out: Vec<usize> = if apps.len() > 0 {
        apps
    } else {
        match sys {
            Some(k) => vec![k],
            None => Vec::new(),
        }
    };
    let ghost first = out@;
    match mic {
        Some(k) => out.push(k),
        None => {},
    }
    assert(out@ =~= spec_tracks_to_save(ns, audible@));
    out
}

/// The file a saved track is written to, beside the clip: the stem of the
/// clip's base name, `_`, the track name and `.wav`.
pub open spec fn spec_track_wav_name(base: Seq<char>, track: Seq<char>) -> Seq<char> {
    (match spec_file_name(base) {
        Some(n) => spec_stem(n),
        None => Seq::empty(),
    }) + "_"@ + track + ".wav"@
}

/// The file name a saved track is written to (see `spec_track_wav_name`).
pub fn track_wav_name(base: &str, track: &str) -> (r: String)
    ensures
        r@ == spec_track_wav_name(base@, track@),
{
    let mut r = match file_name(base) {
        Some(n) => {
            let cs = chars_of(n.as_str());
            let (stem, _) = stem_and_extension(cs.as_slice());
            string_from_chars(stem.as_slice())
        },
        None => String::new(),
    };
    push_str(&mut r, "_");
    push_str(&mut r, track);
    push_str(&mut r, ".wav");
    r
}

/// The tracks captured for applications, without the system mix and the
/// microphone, in the given order.
pub fn split_app_names(names: &Vec<String>) -> (r: Vec<String>)
    ensures
        spec_strings(r@) == spec_strings(names@).filter(
            |n: Seq<char>| n != "System"@ && n != "Microphone"@,
        ),
{
    let ghost ns = spec_strings(names@);
    let ghost pred = |n: Seq<char>| n != "System"@ && n != "Microphone"@;
    let mut out: Vec<String> = Vec::new();
    let mut i: usize = 0;
    while i < names.len()
        invariant
            i <= names@.len(),
            ns == spec_strings(names@),
            pred == (|n: Seq<char>| n != "System"@ && n != "Microphone"@),
            spec_strings(out@) == ns.subrange(0, i as int).filter(pred),
        decreases names@.len() - i,
    {
        let ghost before = out@;
        proof {
            assert(ns.subrange(0, i + 1) == ns.subrange(0, i as int).push(ns[i as int]));
            ns.subrange(0, i as int).lemma_filter_push(ns[i as int], pred);
        }
        if !is_word(&names[i], "System") && !is_word(&names[i], "Microphone") {
            out.push(names[i].clone());
            assert(spec_strings(out@) =~= spec_strings(before).push(names@[i as int]@));
        }
        i = i + 1;
    }
    assert(ns.subrange(0, names@.len() as int) =~= ns);
    out
}

/// The applications captured on their own tracks: the track names other
/// than the system mix and the microphone, ordered by lowercase name with
/// ties in the given order.
pub fn get_active_split_apps(track_names: &Vec<String>) -> (r: Vec<String>)
    ensures
        ({
            let f = spec_strings(track_names@).filter(
                |n: Seq<char>| n != "System"@ && n != "Microphone"@,
            );
            &&& r@.len() == f.len()
            &&& exists|o: Seq<usize>|
                spec_is_key_order(spec_lowercase_keys(f), o) && forall|j: int|
                    0 <= j < r@.len() ==> (#[trigger] r@[j])@ == f[o[j] as int]
        }),
{
    let names = split_app_names(track_names);
    let ghost f = spec_strings(names@);
    let mut keys: Vec<Vec<char>> = Vec::new();
    let mut j: usize = 0;
    while j < names.len()
        invariant
            f == spec_strings(names@),
            j <= names@.len(),
            keys@.len() == j,
            forall|m: int| 0 <= m < j ==> #[trigger] keys@[m]@ == spec_lowercase(f[m]),
        decreases names@.len() - j,
    {
        let lower = to_lowercase(names[j].as_str());
        keys.push(chars_of(lower.as_str()));
        j = j + 1;
    }
    assert(spec_char_vecs(keys@) =~= spec_lowercase_keys(f));
    let order = key_order(&keys);
    let mut out: Vec<String> = Vec::new();
    let mut t: usize = 0;
    while t < order.len()
        invariant
            f == spec_strings(names@),
            spec_is_key_order(spec_lowercase_keys(f), order@),
            order@.len() == f.len(),
            t <= order@.len(),
            out@.len() == t,
            forall|m: int| 0 <= m < t ==> (#[trigger] out@[m])@ == f[order@[m] as int],
        decreases order@.len() - t,
    {
        out.push(names[order[t]].clone());
        t = t + 1;
    }
    out
}

// ─── WAV header ─────────────────────────────────────────────────────────────

/// Little-endian bytes of a 32-bit number.
pub open spec fn spec_le32(v: nat) -> Seq<u8> {
    seq![(v % 256) as u8, ((v / 256) % 256) as u8, ((v / 65536) % 256) as u8, ((v / 16777216) % 256) as u8]
}

/// Little-endian bytes of a 16-bit number.
pub open spec fn spec_le16(v: nat) -> Seq<u8> {
    seq![(v % 256) as u8, ((v / 256) % 256) as u8]
}

/// The 44-byte header of a WAV file of `n_samples` 32-bit float samples:
/// RIFF/WAVE, a `fmt ` chunk (IEEE float, channels, rate, byte rate, block
/// size, 32 bits) and the `data` chunk's size.
pub open spec fn spec_wav_header(sample_rate: u32, channels: u16, n_samples: nat) -> Seq<u8> {
    let data_len = spec_wav_data_len(n_samples);
    seq![82u8, 73, 70, 70] + spec_le32(36 + data_len) + seq![87u8, 65, 86, 69] + seq![
        102u8,
        109,
        116,
        32,
    ] + spec_le32(16) + spec_le16(3) + spec_le16(channels as nat) + spec_le32(sample_rate as nat)
        + spec_le32((sample_rate as nat) * (channels as nat) * 4) + spec_le16((channels as nat) * 4)
        + spec_le16(32) + seq![100u8, 97, 116, 97] + spec_le32(data_len)
}

fn push_le32(out: &mut Vec<u8>, v: u32)
    ensures
        final(out)@ == old(out)@ + spec_le32(v as nat),
{
    out.push((v % 256) as u8);
    out.push(((v / 256) % 256) as u8);
    out.push(((v / 65536) % 256) as u8);
    out.push(((v / 16777216) % 256) as u8);
    assert(final(out)@ =~= old(out)@ + spec_le32(v as nat));
}

fn push_le16(out: &mut Vec<u8>, v: u16)
    ensures
        final(out)@ == old(out)@ + spec_le16(v as nat),
{
    out.push((v % 256) as u8);
    out.push(((v / 256) % 256) as u8);
    assert(final(out)@ =~= old(out)@ + spec_le16(v as nat));
}

fn push_bytes4(out: &mut Vec<u8>, a: u8, b: u8, c: u8, d: u8)
    ensures
        final(out)@ == old(out)@ + seq![a, b, c, d],
{
    out.push(a);
    out.push(b);
    out.push(c);
    out.push(d);
    assert(final(out)@ =~= old(out)@ + seq![a, b, c, d]);
}

/// The data size field of the header: four bytes per sample, kept to its
/// low 32 bits.
pub open spec fn spec_wav_data_len(n_samples: nat) -> nat {
    (n_samples * 4) % 0x1_0000_0000
}

/// Whether the header can be built without overflow: the byte count of the
/// samples fits in `usize`, the RIFF size (36 plus the data size field), the
/// byte rate and the block size fit their fields.
pub open spec fn spec_wav_sizes_ok(sample_rate: u32, channels: u16, n_samples: nat) -> bool {
    &&& n_samples * 4 <= usize::MAX
    &&& 36 + spec_wav_data_len(n_samples) <= u32::MAX
    &&& (sample_rate as nat) * (channels as nat) * 4 <= u32::MAX
    &&& (channels as nat) * 4 <= u16::MAX
}

/// The header of a float WAV file (see `spec_wav_header`); the samples
/// follow it as little-endian 32-bit floats.
pub fn wav_header(sample_rate: u32, channels: u16, n_samples: usize) -> (r: Vec<u8>)
    requires
        spec_wav_sizes_ok(sample_rate, channels, n_samples as nat),
    ensures
        r@ == spec_wav_header(sample_rate, channels, n_samples as nat),
{
    let bytes: usize = n_samples * 4;
    let data_len: u32 = ((bytes as u64) % 0x1_0000_0000u64) as u32;
    let mut out: Vec<u8> = Vec::new();
    push_bytes4(&mut out, 82, 73, 70, 70);
    push_le32(&mut out, 36 + data_len);
    push_bytes4(&mut out, 87, 65, 86, 69);
    push_bytes4(&mut out, 102, 109, 116, 32);
    push_le32(&mut out, 16);
    push_le16(&mut out, 3);
    push_le16(&mut out, channels);
    push_le32(&mut out, sample_rate);
    let rate_bytes: u32 = sample_rate * (channels as u32) * 4;
    push_le32(&mut out, rate_bytes);
    push_le16(&mut out, channels * 4);
    push_le16(&mut out, 32);
    push_bytes4(&mut out, 100, 97, 116, 97);
    push_le32(&mut out, data_len);
    assert(out@ =~= spec_wav_header(sample_rate, channels, n_samples as nat));
    out
}


// ─── Reading a WAV header ───────────────────────────────────────────────────

/// Little-endian 32-bit number at `i`.
pub open spec fn spec_read_le32(h: Seq<u8>, i: int) -> nat {
    (h[i] as nat) + (h[i + 1] as nat) * 256 + (h[i + 2] as nat) * 65536 + (h[i + 3] as nat) * 16777216
}

/// Little-endian 16-bit number at `i`.
pub open spec fn spec_read_le16(h: Seq<u8>, i: int) -> nat {
    (h[i] as nat) + (h[i + 1] as nat) * 256
}

/// Whether the four bytes at `i` are `tag`.
pub open spec fn spec_tag_at(h: Seq<u8>, i: int, tag: Seq<u8>) -> bool {
    h.subrange(i, i + 4) == tag
}

/// Walks the chunks of a WAV header from `pos`, as far as the header bytes
/// go: the channel count of the last `fmt ` chunk seen (starting from
/// `channels`) and, once a `data` chunk is found, where its samples start
/// and how many bytes they take. Chunks are padded to even sizes.
pub open spec fn spec_walk_chunks(h: Seq<u8>, pos: int, channels: nat) -> (nat, Option<(nat, nat)>)
    decreases (if pos <= h.len() {
        h.len() - pos
    } else {
        0
    }),
{
    if pos < 12 || pos + 8 > h.len() {
        (channels, None)
    } else {
        let size = spec_read_le32(h, pos + 4);
        if spec_tag_at(h, pos, seq![102u8, 109, 116, 32]) && pos + 12 <= h.len() {
            spec_walk_chunks(h, pos + 8 + size + size % 2, spec_read_le16(h, pos + 10))
        } else if spec_tag_at(h, pos, seq![100u8, 97, 116, 97]) {
            (channels, Some(((pos + 8) as nat, size)))
        } else {
            spec_walk_chunks(h, pos + 8 + size + size % 2, channels)
        }
    }
}

/// The layout of a WAV file from its first bytes: channel count, where the
/// samples start and how many bytes they take; an error when the bytes are
/// not a RIFF/WAVE header or show no `data` chunk.
pub open spec fn spec_wav_layout(h: Seq<u8>) -> Result<(nat, nat, nat), Seq<char>> {
    if h.len() < 12 || !spec_tag_at(h, 0, seq![82u8, 73, 70, 70]) || !spec_tag_at(h, 8, seq![87u8, 65, 86, 69]) {
        Err("not a wav"@)
    } else {
        match spec_walk_chunks(h, 12, 1).1 {
            Some((start, size)) => Ok((spec_walk_chunks(h, 12, 1).0, start, size)),
            None => Err("no samples"@),
        }
    }
}

fn tag_at(h: &[u8], i: usize, a: u8, b: u8, c: u8, d: u8) -> (r: bool)
    requires
        i + 4 <= h@.len(),
    ensures
        r == spec_tag_at(h@, i as int, seq![a, b, c, d]),
{
    let r = h[i] == a && h[i + 1] == b && h[i + 2] == c && h[i + 3] == d;
    assert(r == (h@.subrange(i as int, i + 4) =~= seq![a, b, c, d]));
    r
}

/// The layout of a WAV file from its first bytes (see `spec_wav_layout`).
pub fn wav_layout(header: &[u8]) -> (r: Result<(usize, u64, u64), String>)
    requires
        header@.len() <= 4096,
    ensures
        match spec_wav_layout(header@) {
            Ok((ch, start, size)) => r matches Ok(v) && v.0 == ch && v.1 == start && v.2 == size,
            Err(m) => r matches Err(e) && e@ == m,
        },
        r matches Ok(v) ==> v.0 <= u16::MAX && v.2 <= u32::MAX,
{
    let n = header.len();
    if n < 12 || !tag_at(header, 0, 82, 73, 70, 70) || !tag_at(header, 8, 87, 65, 86, 69) {
        return Err(owned("not a wav"));
    }
    let mut pos: u64 = 12;
    let mut channels: usize = 1;
    loop
        invariant
            n == header@.len(),
            n <= 4096,
            12 <= pos <= 4096 + 8 + 0xFFFF_FFFF + 1,
            n >= 12,
            spec_tag_at(header@, 0, seq![82u8, 73, 70, 70]),
            spec_tag_at(header@, 8, seq![87u8, 65, 86, 69]),
            channels <= u16::MAX,
            spec_walk_chunks(header@, pos as int, channels as nat) == spec_walk_chunks(header@, 12, 1),
        decreases (if pos as int <= n as int + 8 {
            n as int + 9 - pos as int
        } else {
            0
        }),
    {
        if pos + 8 > n as u64 {
            return Err(owned("no samples"));
        }
        let p = pos as usize;
        let size: u64 = header[p + 4] as u64 + (header[p + 5] as u64) * 256 + (header[p + 6] as u64)
            * 65536 + (header[p + 7] as u64) * 16777216;
        if tag_at(header, p, 102, 109, 116, 32) && p + 12 <= n {
            channels = header[p + 10] as usize + (header[p + 11] as usize) * 256;
            pos = pos + 8 + size + size % 2;
        } else if tag_at(header, p, 100, 97, 116, 97) {
            let start = pos + 8;
            return Ok((channels, start, size));
        } else {
            pos = pos + 8 + size + size % 2;
        }
    }
}

/// The sample frames read for one waveform bucket: from `start` to `end`
/// (excluded), every `stride`-th.
pub open spec fn spec_bucket(frames: nat, bsize: nat, b: nat) -> (nat, nat, nat) {
    let s = b * bsize;
    let e = if (b + 1) * bsize <= frames {
        (b + 1) * bsize
    } else {
        frames
    };
    let stride = if e > s && (e - s) / 64 >= 1 {
        ((e - s) / 64) as nat
    } else {
        1
    };
    (s, e, stride)
}

/// The buckets from `b` on, up to `buckets` or the first empty one.
pub open spec fn spec_buckets_from(frames: nat, bsize: nat, buckets: nat, b: nat) -> Seq<(nat, nat, nat)>
    decreases buckets - b,
{
    if b >= buckets {
        Seq::empty()
    } else {
        let k = spec_bucket(frames, bsize, b);
        if k.0 >= k.1 {
            Seq::empty()
        } else {
            seq![k] + spec_buckets_from(frames, bsize, buckets, b + 1)
        }
    }
}

/// How a waveform of `buckets` peaks samples a data chunk of `data_size`
/// bytes with `channels` float channels: the frames are split into equal
/// buckets (at least one frame each) and about 64 frames are read per
/// bucket. An error when the chunk holds no whole frame.
pub open spec fn spec_peak_plan(data_size: nat, channels: nat, buckets: nat) -> Result<Seq<(nat, nat, nat)>, Seq<char>> {
    let stride = 4 * (if channels >= 1 {
        channels
    } else {
        1
    });
    let frames = data_size / stride;
    if frames == 0 {
        Err("empty"@)
    } else {
        let bsize = if frames / buckets >= 1 {
            frames / buckets
        } else {
            1
        };
        Ok(spec_buckets_from(frames, bsize, buckets, 0))
    }
}

/// How a waveform samples a data chunk (see `spec_peak_plan`).
pub fn peak_plan(data_size: u64, channels: usize, buckets: usize) -> (r: Result<Vec<(u64, u64, u64)>, String>)
    requires
        data_size <= u32::MAX,
        channels <= u16::MAX,
        buckets > 0 || data_size < 4 * (if channels >= 1 {
            channels as int
        } else {
            1
        }),
    ensures
        match spec_peak_plan(data_size as nat, channels as nat, buckets as nat) {
            Ok(plan) => r matches Ok(v) && v@.len() == plan.len() && forall|i: int|
                0 <= i < plan.len() ==> (#[trigger] v@[i]).0 == plan[i].0 && v@[i].1 == plan[i].1
                    && v@[i].2 == plan[i].2,
            Err(m) => r matches Err(e) && e@ == m,
        },
{
    let ch: u64 = if channels >= 1 {
        channels as u64
    } else {
        1
    };
    let frames: u64 = data_size / (4 * ch);
    if frames == 0 {
        return Err(owned("empty"));
    }
    let nb: u64 = buckets as u64;
    assert(nb > 0) by (nonlinear_arith)
        requires
            frames as int == (data_size as int) / (4 * ch as int),
            frames >= 1,
            ch >= 1,
            ch == (if channels >= 1 { channels as u64 } else { 1u64 }),
            nb == buckets,
            buckets > 0 || data_size < 4 * (if channels >= 1 { channels as int } else { 1 }),
    ;
    let bsize: u64 = if frames / nb >= 1 {
        frames / nb
    } else {
        1
    };
    assert(bsize <= frames) by (nonlinear_arith)
        requires
            bsize == (if frames / nb >= 1 {
                frames / nb
            } else {
                1
            }),
            frames >= 1,
            nb >= 1,
    ;
    let ghost plan = spec_buckets_from(frames as nat, bsize as nat, nb as nat, 0);
    let mut out: Vec<(u64, u64, u64)> = Vec::new();
    let mut b: u64 = 0;
    loop
        invariant
            b <= nb,
            b * bsize <= frames + bsize,
            1 <= bsize <= frames <= u32::MAX,
            plan == spec_buckets_from(frames as nat, bsize as nat, nb as nat, 0),
            out@.len() == b,
            forall|i: int|
                0 <= i < b ==> (#[trigger] out@[i]).0 == plan[i].0 && out@[i].1 == plan[i].1
                    && out@[i].2 == plan[i].2,
            plan.len() >= b,
            plan == plan.subrange(0, b as int) + spec_buckets_from(
                frames as nat,
                bsize as nat,
                nb as nat,
                b as nat,
            ),
        ensures
            out@.len() == b,
            forall|i: int|
                0 <= i < b ==> (#[trigger] out@[i]).0 == plan[i].0 && out@[i].1 == plan[i].1
                    && out@[i].2 == plan[i].2,
            plan == plan.subrange(0, b as int) + spec_buckets_from(
                frames as nat,
                bsize as nat,
                nb as nat,
                b as nat,
            ),
            spec_buckets_from(frames as nat, bsize as nat, nb as nat, b as nat).len() == 0,
        decreases nb - b,
    {
        if b >= nb {
            break;
        }
        assert(b < nb);
        assert((b + 1) * bsize == b * bsize + bsize) by (nonlinear_arith);
        let s: u64 = b * bsize;
        let e0: u64 = (b + 1) * bsize;
        let e: u64 = if e0 <= frames {
            e0
        } else {
            frames
        };
        proof {
            let k = spec_bucket(frames as nat, bsize as nat, b as nat);
            assert(k.0 == s as nat);
            assert(k.1 == e as nat);
        }
        if s >= e {
            break;
        }
        let stride: u64 = if (e - s) / 64 >= 1 {
            (e - s) / 64
        } else {
            1
        };
        out.push((s, e, stride));
        proof {
            let rest = spec_buckets_from(frames as nat, bsize as nat, nb as nat, b as nat);
            assert(rest == seq![spec_bucket(frames as nat, bsize as nat, b as nat)] + spec_buckets_from(
                frames as nat,
                bsize as nat,
                nb as nat,
                (b + 1) as nat,
            ));
            assert(plan =~= plan.subrange(0, b + 1) + spec_buckets_from(
                frames as nat,
                bsize as nat,
                nb as nat,
                (b + 1) as nat,
            ));
        }
        b = b + 1;
    }
    proof {
        let rest = spec_buckets_from(frames as nat, bsize as nat, nb as nat, b as nat);
        assert(rest.len() == 0);
        assert(plan =~= plan.subrange(0, b as int));
    }
    Ok(out)
}

} // verus!
