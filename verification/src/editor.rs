//! The clip editor's local web session: the HTTP byte-range planning of its
//! media routes, the access token check, the audio-track lookups that keep
//! file access inside the clip's folder, and the idle reaper's decision.
use vstd::prelude::*;
use crate::diagnostics::{push_hex, spec_hex};
use crate::text::{
    chars_eq, chars_of, contains, contains_char, owned, parse_unsigned, push_decimal, push_str,
    spec_contains, spec_decimal, spec_parse_unsigned, spec_starts_with, starts_with,
};

verus! {

// ─── Audio track metadata ───────────────────────────────────────────────────

/// An audio track of a clip as the editor sees it.
#[derive(Debug)]
pub struct AudioTrackMeta {
    pub track_index: usize,
    pub process_name: String,
    pub wav_filename: String,
}

impl Clone for AudioTrackMeta {
    fn clone(&self) -> (r: Self)
        ensures
            r == *self,
    {
        AudioTrackMeta {
            track_index: self.track_index,
            process_name: self.process_name.clone(),
            wav_filename: self.wav_filename.clone(),
        }
    }
}

// ─── HTTP byte ranges ───────────────────────────────────────────────────────

/// Media responses carry at most this many bytes.
pub const MAX_RANGE_CHUNK: u64 = 32_000_000;

/// The range header value without any leading repetitions of `bytes=`.
pub open spec fn spec_strip_bytes_unit(s: Seq<char>) -> Seq<char>
    decreases s.len(),
{
    if s.len() >= 6 && spec_starts_with(s, "bytes="@) {
        spec_strip_bytes_unit(s.subrange(6, s.len() as int))
    } else {
        s
    }
}

/// Index of the first occurrence of `c` at or after `i`.
pub open spec fn spec_find_char(s: Seq<char>, c: char, i: int) -> Option<int>
    decreases s.len() - i,
{
    if i < 0 || i >= s.len() {
        None
    } else if s[i] == c {
        Some(i)
    } else {
        spec_find_char(s, c, i + 1)
    }
}

/// Text before the first `c` (all of it when there is none).
pub open spec fn spec_before_char(s: Seq<char>, c: char) -> Seq<char> {
    match spec_find_char(s, c, 0) {
        Some(i) => s.subrange(0, i),
        None => s,
    }
}

/// Text after the first `c`, when there is one.
pub open spec fn spec_after_char(s: Seq<char>, c: char) -> Option<Seq<char>> {
    match spec_find_char(s, c, 0) {
        Some(i) => Some(s.subrange(i + 1, s.len() as int)),
        None => None,
    }
}

/// A decimal number that fits in `u64`, as `str::parse::<u64>` reads it.
pub open spec fn spec_parse_u64(s: Seq<char>) -> Option<u64> {
    match spec_parse_unsigned(s) {
        Some(v) => if v <= u64::MAX {
            Some(v as u64)
        } else {
            None
        },
        None => None,
    }
}

/// The smaller of two numbers.
pub open spec fn spec_min_u64(a: u64, b: u64) -> u64 {
    if a <= b {
        a
    } else {
        b
    }
}

/// The bytes to send of a file of `total` bytes for an optional `Range`
/// header: first and last byte and whether the answer is partial; `None`
/// when the start lies beyond the file (416). Without a header the whole
/// file is sent; with one, a start and an end are read from `<start>-<end>`
/// (the end up to the first comma), the end is kept inside the file, and at
/// most 32 MB are sent. An empty file is sent as it is.
pub open spec fn spec_range_plan(header: Option<Seq<char>>, total: u64) -> Option<(u64, u64, bool)> {
    if total == 0 {
        Some((0u64, 0u64, false))
    } else {
        match header {
            None => Some((0u64, (total - 1) as u64, false)),
            Some(h) => {
                let body = spec_strip_bytes_unit(h);
                let first = spec_before_char(body, '-');
                let start_opt = spec_parse_u64(first);
                let start: u64 = match start_opt {
                    Some(s) => s,
                    None => 0,
                };
                let end_opt: Option<u64> = match spec_after_char(body, '-') {
                    Some(rest) => spec_parse_u64(spec_before_char(rest, ',')),
                    None => None,
                };
                let end: u64 = match end_opt {
                    Some(e) => spec_min_u64(e, (total - 1) as u64),
                    None => (total - 1) as u64,
                };
                let is_range = start_opt is Some || end_opt is Some;
                if start >= total {
                    None
                } else {
                    Some(
                        (
                            start,
                            spec_min_u64(
                                spec_min_u64(end, (start + MAX_RANGE_CHUNK - 1) as u64),
                                (total - 1) as u64,
                            ),
                            is_range,
                        ),
                    )
                }
            },
        }
    }
}

proof fn lemma_strip_step(s: Seq<char>)
    requires
        s.len() >= 6,
        spec_starts_with(s, "bytes="@),
    ensures
        spec_strip_bytes_unit(s) == spec_strip_bytes_unit(s.subrange(6, s.len() as int)),
{
}

fn strip_bytes_unit(s: &[char]) -> (r: Vec<char>)
    ensures
        r@ == spec_strip_bytes_unit(s@),
{
    let unit = chars_of("bytes=");
    proof {
        reveal_strlit("bytes=");
    }
    let mut i: usize = 0;
    let mut rest: Vec<char> = vstd::slice::slice_to_vec(s);
    while rest.len() >= 6 && starts_with(rest.as_slice(), unit.as_slice())
        invariant
            unit@ == "bytes="@,
            unit@.len() == 6,
            spec_strip_bytes_unit(s@) == spec_strip_bytes_unit(rest@),
        decreases rest@.len(),
    {
        proof {
            lemma_strip_step(rest@);
        }
        let mut next: Vec<char> = Vec::new();
        let mut k: usize = 6;
        while k < rest.len()
            invariant
                6 <= k <= rest@.len(),
                next@ == rest@.subrange(6, k as int),
            decreases rest@.len() - k,
        {
            next.push(rest[k]);
            k = k + 1;
        }
        rest = next;
    }
    rest
}

/// Where the first occurrence of a character lies.
pub proof fn lemma_find_char_result(s: Seq<char>, c: char, i: int)
    requires
        0 <= i <= s.len(),
    ensures
        spec_find_char(s, c, i) matches Some(k) ==> i <= k < s.len() && s[k] == c && forall|j: int|
            i <= j < k ==> s[j] != c,
        spec_find_char(s, c, i) is None ==> forall|j: int| i <= j < s.len() ==> s[j] != c,
    decreases s.len() - i,
{
    if i < s.len() && s[i] != c {
        lemma_find_char_result(s, c, i + 1);
    }
}

pub(crate) fn find_char(s: &[char], c: char) -> (r: Option<usize>)
    ensures
        match r {
            Some(k) => spec_find_char(s@, c, 0) == Some(k as int),
            None => spec_find_char(s@, c, 0) is None,
        },
{
    let mut i: usize = 0;
    while i < s.len()
        invariant
            i <= s@.len(),
            spec_find_char(s@, c, 0) == spec_find_char(s@, c, i as int),
        decreases s@.len() - i,
    {
        if s[i] == c {
            return Some(i);
        }
        i = i + 1;
    }
    None
}

pub(crate) fn slice_range(s: &[char], a: usize, b: usize) -> (r: Vec<char>)
    requires
        a <= b <= s@.len(),
    ensures
        r@ == s@.subrange(a as int, b as int),
{
    let mut r: Vec<char> = Vec::new();
    let mut i: usize = a;
    while i < b
        invariant
            a <= i <= b <= s@.len(),
            r@ == s@.subrange(a as int, i as int),
        decreases b - i,
    {
        r.push(s[i]);
        i = i + 1;
    }
    r
}

fn parse_u64(s: &[char]) -> (r: Option<u64>)
    ensures
        r == spec_parse_u64(s@),
{
    parse_unsigned(s, u64::MAX)
}

/// The bytes to send for an optional `Range` header (see
/// `spec_range_plan`). Files are assumed to stay 32 MB short of the largest
/// `u64`, so that the chunk arithmetic cannot overflow.
pub fn plan_byte_range(range_header: Option<&str>, total: u64) -> (r: Option<(u64, u64, bool)>)
    requires
        total <= u64::MAX - MAX_RANGE_CHUNK,
    ensures
        r == spec_range_plan(
            match range_header {
                Some(h) => Some(h@),
                None => None,
            },
            total,
        ),
{
    if total == 0 {
        return Some((0, 0, false));
    }
    let h = match range_header {
        None => {
            return Some((0, total - 1, false));
        },
        Some(h) => h,
    };
    let hc = chars_of(h);
    let body = strip_bytes_unit(hc.as_slice());
    let n = body.len();
    let dash = find_char(body.as_slice(), '-');
    proof {
        lemma_find_char_result(body@, '-', 0);
    }
    let first = match dash {
        Some(i) => slice_range(body.as_slice(), 0, i),
        None => slice_range(body.as_slice(), 0, n),
    };
    assert(first@ == spec_before_char(body@, '-'));
    let start_opt = parse_u64(first.as_slice());
    let start: u64 = match start_opt {
        Some(s) => s,
        None => 0,
    };
    let end_opt: Option<u64> = match dash {
        Some(i) => {
            let rest = slice_range(body.as_slice(), i + 1, n);
            assert(spec_after_char(body@, '-') == Some(rest@));
            let comma = find_char(rest.as_slice(), ',');
            proof {
                lemma_find_char_result(rest@, ',', 0);
            }
            let piece = match comma {
                Some(j) => slice_range(rest.as_slice(), 0, j),
                None => slice_range(rest.as_slice(), 0, rest.len()),
            };
            assert(piece@ == spec_before_char(rest@, ','));
            parse_u64(piece.as_slice())
        },
        None => None,
    };
    let end: u64 = match end_opt {
        Some(e) => if e <= total - 1 {
            e
        } else {
            total - 1
        },
        None => total - 1,
    };
    let is_range = start_opt.is_some() || end_opt.is_some();
    if start >= total {
        return None;
    }
    let cap: u64 = start + MAX_RANGE_CHUNK - 1;
    let e1 = if end <= cap {
        end
    } else {
        cap
    };
    let e2 = if e1 <= total - 1 {
        e1
    } else {
        total - 1
    };
    Some((start, e2, is_range))
}

/// Whether the whole file is answered with 200 rather than 206.
pub open spec fn spec_is_full_response(start: u64, end_incl: u64, is_range: bool, total: u64) -> bool {
    !is_range && start == 0 && end_incl == total - 1
}

/// Whether the whole file is answered with 200 rather than 206.
pub fn is_full_response(start: u64, end_incl: u64, is_range: bool, total: u64) -> (r: bool)
    requires
        total > 0,
    ensures
        r == spec_is_full_response(start, end_incl, is_range, total),
{
    !is_range && start == 0 && end_incl == total - 1
}

/// Number of bytes from `start` to `end_incl`, both included.
pub fn range_length(start: u64, end_incl: u64) -> (r: u64)
    requires
        start <= end_incl < u64::MAX,
    ensures
        r == end_incl - start + 1,
{
    end_incl - start + 1
}

/// The `Content-Range` value `bytes <start>-<end>/<total>`.
pub open spec fn spec_content_range(start: u64, end_incl: u64, total: u64) -> Seq<char> {
    "bytes "@ + spec_decimal(start as nat) + "-"@ + spec_decimal(end_incl as nat) + "/"@
        + spec_decimal(total as nat)
}

/// The `Content-Range` value (see `spec_content_range`).
pub fn content_range(start: u64, end_incl: u64, total: u64) -> (r: String)
    ensures
        r@ == spec_content_range(start, end_incl, total),
{
    let mut r = owned("bytes ");
    push_decimal(&mut r, start);
    push_str(&mut r, "-");
    push_decimal(&mut r, end_incl);
    push_str(&mut r, "/");
    push_decimal(&mut r, total);
    r
}

// ─── Token and track access ─────────────────────────────────────────────────

/// Whether a request carries the session token.
pub fn token_matches(given: Option<&str>, token: &str) -> (r: bool)
    ensures
        r == (match given {
            Some(g) => g@ == token@,
            None => false,
        }),
{
    match given {
        Some(g) => {
            let a = chars_of(g);
            let b = chars_of(token);
            chars_eq(a.as_slice(), b.as_slice())
        },
        None => false,
    }
}

/// A track file name that stays inside the clip's folder: not empty, no
/// `..`, no `/` and no `\`.
pub open spec fn spec_is_safe_wav_filename(name: Seq<char>) -> bool {
    name.len() > 0 && !spec_contains(name, ".."@) && !name.contains('/') && !name.contains('\\')
}

/// Whether a track file name stays inside the clip's folder.
pub fn is_safe_wav_filename(name: &str) -> (r: bool)
    ensures
        r == spec_is_safe_wav_filename(name@),
{
    let n = chars_of(name);
    let dots = chars_of("..");
    n.len() > 0 && !contains(n.as_slice(), dots.as_slice()) && !contains_char(n.as_slice(), '/')
        && !contains_char(n.as_slice(), '\\')
}

/// A decimal number that fits in `usize`.
pub open spec fn spec_parse_index(s: Seq<char>) -> Option<usize> {
    match spec_parse_unsigned(s) {
        Some(v) => if v <= usize::MAX {
            Some(v as usize)
        } else {
            None
        },
        None => None,
    }
}

/// The file name of the track a request names by index, when the index is a
/// number, names a track, and the track's file name is safe.
pub open spec fn spec_track_file(param: Option<Seq<char>>, tracks: Seq<AudioTrackMeta>) -> Option<Seq<char>> {
    match param {
        None => None,
        Some(p) => match spec_parse_index(p) {
            None => None,
            Some(i) => if i < tracks.len() && spec_is_safe_wav_filename(tracks[i as int].wav_filename@) {
                Some(tracks[i as int].wav_filename@)
            } else {
                None
            },
        },
    }
}

/// The file name of the track a request names (see `spec_track_file`); the
/// caller joins it to the clip's folder.
pub fn track_path(param: Option<&str>, tracks: &Vec<AudioTrackMeta>) -> (r: Option<String>)
    ensures
        match r {
            Some(f) => spec_track_file(
                match param {
                    Some(p) => Some(p@),
                    None => None,
                },
                tracks@,
            ) == Some(f@),
            None => spec_track_file(
                match param {
                    Some(p) => Some(p@),
                    None => None,
                },
                tracks@,
            ) is None,
        },
{
    let p = match param {
        Some(p) => p,
        None => return None,
    };
    let pc = chars_of(p);
    let i = match parse_unsigned(pc.as_slice(), usize::MAX as u64) {
        Some(v) => v as usize,
        None => return None,
    };
    if i >= tracks.len() {
        return None;
    }
    let name = &tracks[i].wav_filename;
    if !is_safe_wav_filename(name.as_str()) {
        return None;
    }
    Some(name.clone())
}

/// A file name that names a file of the clip's folder and nothing else:
/// safe as a track file name (see `spec_is_safe_wav_filename`) and without a
/// drive separator `:`.
pub open spec fn spec_is_folder_file_name(name: Seq<char>) -> bool {
    spec_is_safe_wav_filename(name) && !name.contains(':')
}

/// The file of the clip's folder a video request names, if any: the `file`
/// parameter when it is a bare file name of that folder. Paths (absolute or
/// relative, with separators, `..` or a drive) are never taken; the caller
/// serves the clip itself when this gives nothing or the file is missing.
pub fn video_file(param: Option<&str>) -> (r: Option<String>)
    ensures
        match param {
            Some(p) => if spec_is_folder_file_name(p@) {
                r matches Some(f) && f@ == p@
            } else {
                r is None
            },
            None => r is None,
        },
{
    match param {
        Some(p) => {
            if is_safe_wav_filename(p) && !contains_char(chars_of(p).as_slice(), ':') {
                Some(owned(p))
            } else {
                None
            }
        },
        None => None,
    }
}

/// Waveform resolution asked for: a number clamped to 50..=2000, or 600.
pub open spec fn spec_waveform_buckets(param: Option<Seq<char>>) -> usize {
    let b: nat = match param {
        Some(p) => match spec_parse_index(p) {
            Some(v) => v as nat,
            None => 600,
        },
        None => 600,
    };
    if b < 50 {
        50
    } else if b > 2000 {
        2000
    } else {
        b as usize
    }
}

/// Waveform resolution asked for (see `spec_waveform_buckets`).
pub fn waveform_buckets(param: Option<&str>) -> (r: usize)
    ensures
        r == spec_waveform_buckets(
            match param {
                Some(p) => Some(p@),
                None => None,
            },
        ),
{
    let b: usize = match param {
        Some(p) => {
            let pc = chars_of(p);
            match parse_unsigned(pc.as_slice(), usize::MAX as u64) {
                Some(v) => v as usize,
                None => 600,
            }
        },
        None => 600,
    };
    if b < 50 {
        50
    } else if b > 2000 {
        2000
    } else {
        b
    }
}

// ─── Session lifetime ───────────────────────────────────────────────────────

/// Seconds without requests after which a session closes.
pub const SESSION_IDLE_SECS: u64 = 900;

/// Seconds after its opening after which a session closes whatever its
/// activity.
pub const SESSION_MAX_SECS: u64 = 14400;

/// Whether the idle reaper closes a session opened at `opened` whose last
/// request came at `last_seen`: fifteen minutes without a request, or four
/// hours after it was opened.
pub open spec fn spec_session_expired(now: u64, opened: u64, last_seen: u64) -> bool {
    (if now >= last_seen {
        now - last_seen
    } else {
        0
    }) > SESSION_IDLE_SECS || now > opened + SESSION_MAX_SECS
}

/// Whether the idle reaper closes the session (see `spec_session_expired`).
pub fn session_expired(now: u64, opened: u64, last_seen: u64) -> (r: bool)
    ensures
        r == spec_session_expired(now, opened, last_seen),
{
    let idle = if now >= last_seen {
        now - last_seen
    } else {
        0
    };
    idle > SESSION_IDLE_SECS || (now >= opened && now - opened > SESSION_MAX_SECS)
}

/// Whether a track is a per-application track (neither the system mix nor
/// the microphone).
pub open spec fn spec_is_app_track(name: Seq<char>) -> bool {
    name != "System"@ && name != "Microphone"@
}

/// Whether a track is not the system mix.
pub open spec fn spec_not_system() -> spec_fn(AudioTrackMeta) -> bool {
    |t: AudioTrackMeta| t.process_name@ != "System"@
}

/// The tracks the editor offers: when the clip has per-application tracks,
/// the system mix is left out (it would double their sound).
pub open spec fn spec_editor_tracks(tracks: Seq<AudioTrackMeta>) -> Seq<AudioTrackMeta> {
    if exists|i: int| 0 <= i < tracks.len() && spec_is_app_track(#[trigger] tracks[i].process_name@) {
        tracks.filter(spec_not_system())
    } else {
        tracks
    }
}

fn is_named(s: &String, w: &str) -> (r: bool)
    ensures
        r == (s@ == w@),
{
    let a = chars_of(s.as_str());
    let b = chars_of(w);
    chars_eq(a.as_slice(), b.as_slice())
}

/// The tracks the editor offers (see `spec_editor_tracks`).
pub fn editor_tracks(tracks: Vec<AudioTrackMeta>) -> (r: Vec<AudioTrackMeta>)
    ensures
        r@ == spec_editor_tracks(tracks@),
{
    let ghost ts = tracks@;
    let mut has_app = false;
    let mut i: usize = 0;
    while i < tracks.len()
        invariant
            i <= tracks@.len(),
            ts == tracks@,
            has_app == exists|j: int| 0 <= j < i && spec_is_app_track(#[trigger] ts[j].process_name@),
        decreases tracks@.len() - i,
    {
        let name = &tracks[i].process_name;
        if !is_named(name, "System") && !is_named(name, "Microphone") {
            has_app = true;
        }
        i = i + 1;
    }
    if !has_app {
        return tracks;
    }
    let mut out: Vec<AudioTrackMeta> = Vec::new();
    let mut k: usize = 0;
    while k < tracks.len()
        invariant
            k <= tracks@.len(),
            ts == tracks@,
            out@ == ts.subrange(0, k as int).filter(spec_not_system()),
        decreases tracks@.len() - k,
    {
        let t = &tracks[k];
        proof {
            assert(ts.subrange(0, k + 1) == ts.subrange(0, k as int).push(ts[k as int]));
            ts.subrange(0, k as int).lemma_filter_push(ts[k as int], spec_not_system());
        }
        if !is_named(&t.process_name, "System") {
            out.push(t.clone());
        }
        k = k + 1;
    }
    assert(ts.subrange(0, tracks@.len() as int) == ts);
    out
}


// ─── Clock and token ────────────────────────────────────────────────────────

#[verifier::external_type_specification]
#[verifier::external_body]
pub struct ExSystemTime(std::time::SystemTime);

/// `std::time::SystemTime::now`: the current reading of the system clock.
/// Nothing is promised of the value, which depends on the time of the call.
#[verifier::external_body]
fn system_now() -> std::time::SystemTime {
    std::time::SystemTime::now()
}

/// `SystemTime::duration_since(UNIX_EPOCH)` in whole seconds, `None` when
/// `t` is earlier than the epoch. Nothing is stated of the value.
#[verifier::external_body]
fn secs_since_epoch(t: &std::time::SystemTime) -> Option<u64> {
    t.duration_since(std::time::UNIX_EPOCH).ok().map(|d| d.as_secs())
}

/// Seconds since the Unix epoch on the system clock (zero when the clock
/// reads earlier). Depends on the time of the call.
pub fn now_secs() -> u64 {
    let t = system_now();
    match secs_since_epoch(&t) {
        Some(s) => s,
        None => 0,
    }
}

/// `u64::rotate_left` by `k` bits, for `0 < k < 64`.
pub open spec fn spec_rotl(x: u64, k: u64) -> u64 {
    (x << k) | (x >> (64 - k) as u64)
}

fn rotl(x: u64, k: u64) -> (r: u64)
    requires
        0 < k < 64,
    ensures
        r == spec_rotl(x, k),
{
    (x << k) | (x >> (64 - k))
}

/// One mixing round of the session token.
pub open spec fn spec_token_round(mix: u64) -> u64 {
    spec_rotl(vstd::wrapping::u64_specs::wrapping_mul(mix, 0x9E37_79B9_7F4A_7C15), 23) ^ (mix >> 7u64)
}

/// The session token from three entropy sources (the time in nanoseconds,
/// the process id and an address): the sources are mixed, then four rounds
/// each contribute eight or more hexadecimal digits.
pub open spec fn spec_token(nanos: u64, pid: u64, addr: u64) -> Seq<char> {
    let m0 = nanos ^ spec_rotl(pid, 32) ^ spec_rotl(addr, 17);
    let m1 = spec_token_round(m0);
    let m2 = spec_token_round(m1);
    let m3 = spec_token_round(m2);
    let m4 = spec_token_round(m3);
    spec_hex(m1 as nat, 8, false) + spec_hex(m2 as nat, 8, false) + spec_hex(m3 as nat, 8, false)
        + spec_hex(m4 as nat, 8, false)
}

fn token_round(mix: u64) -> (r: u64)
    ensures
        r == spec_token_round(mix),
{
    rotl(mix.wrapping_mul(0x9E37_79B9_7F4A_7C15), 23) ^ (mix >> 7)
}

/// The session token from its entropy sources (see `spec_token`).
pub fn token_from_seed(nanos: u64, pid: u64, addr: u64) -> (r: String)
    ensures
        r@ == spec_token(nanos, pid, addr),
{
    let m0 = nanos ^ rotl(pid, 32) ^ rotl(addr, 17);
    let m1 = token_round(m0);
    let m2 = token_round(m1);
    let m3 = token_round(m2);
    let m4 = token_round(m3);
    let mut r = String::new();
    push_hex(&mut r, m1, 8, false);
    push_hex(&mut r, m2, 8, false);
    push_hex(&mut r, m3, 8, false);
    push_hex(&mut r, m4, 8, false);
    r
}

/// The end a `Range` header asks for: the number after the first `-` (up to
/// a comma), when there is one.
pub open spec fn spec_requested_end(h: Seq<char>) -> Option<u64> {
    match spec_after_char(spec_strip_bytes_unit(h), '-') {
        Some(rest) => spec_parse_u64(spec_before_char(rest, ',')),
        None => None,
    }
}

/// The last byte a request asks for in a file of `total` bytes: the
/// requested end, or the file's last byte without one.
pub open spec fn spec_wanted_last(header: Option<Seq<char>>, total: u64) -> int {
    match header {
        Some(h) => match spec_requested_end(h) {
            Some(x) => x as int,
            None => total - 1,
        },
        None => total - 1,
    }
}

/// The bytes planned for a nonempty file. Without a `Range` header the
/// whole file is sent. With one, the first byte lies in the file and the
/// last byte never past its end; at most 32 MB are sent, counted from the
/// first byte; and as much is sent as allowed: the last byte is the wanted
/// last byte (see `spec_wanted_last`), the 32 MB cap counted from the first
/// byte, or the file's last byte, whichever comes first. So the range is
/// never empty unless the request ends before it starts.
pub proof fn lemma_range_plan_bounds(header: Option<Seq<char>>, total: u64)
    requires
        0 < total <= u64::MAX - MAX_RANGE_CHUNK,
    ensures
        header is None ==> spec_range_plan(header, total) == Some((0u64, (total - 1) as u64, false)),
        spec_range_plan(header, total) matches Some((s, e, _)) ==> s < total && e <= total - 1,
        header is Some ==> (spec_range_plan(header, total) matches Some((s, e, _)) ==> e < s + 32_000_000),
        header is Some ==> (spec_range_plan(header, total) matches Some((s, e, _)) ==> {
            let want = spec_wanted_last(header, total);
            ||| e == want && want <= s + 32_000_000 - 1 && want <= total - 1
            ||| e == s + 32_000_000 - 1 && e <= want && e <= total - 1
            ||| e == total - 1 && e <= want && e <= s + 32_000_000 - 1
        }),
        spec_range_plan(header, total) matches Some((s, e, _)) ==> (spec_wanted_last(header, total) >= s ==> s <= e),
{
}

/// The first byte a `Range` header asks for: the number before the first
/// `-`, or 0 without one.
pub open spec fn spec_requested_start(h: Seq<char>) -> u64 {
    match spec_parse_u64(spec_before_char(spec_strip_bytes_unit(h), '-')) {
        Some(s) => s,
        None => 0,
    }
}

/// A request is refused (416) exactly when it starts at or past the end of a
/// nonempty file; otherwise the planned range starts where it asks, and the
/// answer is partial exactly when a start or an end was given.
pub proof fn lemma_range_plan_start(h: Seq<char>, total: u64)
    requires
        0 < total <= u64::MAX - MAX_RANGE_CHUNK,
    ensures
        spec_range_plan(Some(h), total) is None <==> spec_requested_start(h) >= total,
        spec_range_plan(Some(h), total) matches Some((s, e, partial)) ==> s == spec_requested_start(h)
            && partial == (spec_parse_u64(spec_before_char(spec_strip_bytes_unit(h), '-')) is Some
            || spec_requested_end(h) is Some),
{
}

} // verus!
