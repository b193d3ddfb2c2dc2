//! The replay-buffer recorder's state: the buffer state shown to the user,
//! the session generation that keeps stale pipeline watchdogs inert, the
//! automatic-restart budget, the save-in-flight flag and the video buffer
//! itself, together with the decisions taken when the capture pipeline
//! produces output or exits.
use vstd::prelude::*;
use std::collections::VecDeque;
use crate::hardware::{HardwareTier, ScalingMethod};
use crate::config::VideoCodec;
use crate::mpeg_ts::spec_first_keyframe_from;
use crate::args::{push_lit, push_lit2, push_lits, push_string};
use crate::text::{
    chars_of, decimal_string, is_blank, owned, parse_unsigned, push_char, push_debug_opt_i32,
    push_decimal, push_str, spec_debug_opt_i32, spec_decimal, spec_is_blank, spec_parse_unsigned,
    spec_strings, spec_strs, spec_trim, string_from_chars, trim_chars, spec_contains,
    spec_occurs_at, spec_starts_with, spec_digit_char,
};
use crate::paths::{join_name, spec_join_name};
use crate::video_buffer::{
    spec_evict_count, spec_extract_matches, spec_ts_sorted, ExtractedVideo, InMemoryVideoBuffer,
};

verus! {

// ─── Buffer state ───────────────────────────────────────────────────────────

/// State of the replay buffer as surfaced to the user interface.
#[derive(Clone, Copy, Debug, PartialEq, Eq, Structural)]
pub enum BufferState {
    Stopped,
    Starting,
    Active,
    Paused,
    Error,
}

/// The name under which a state is reported.
pub open spec fn spec_state_name(s: BufferState) -> Seq<char> {
    match s {
        BufferState::Stopped => "stopped"@,
        BufferState::Starting => "starting"@,
        BufferState::Active => "active"@,
        BufferState::Paused => "paused"@,
        BufferState::Error => "error"@,
    }
}

/// The number under which a state is stored.
pub open spec fn spec_state_code(s: BufferState) -> u8 {
    match s {
        BufferState::Stopped => 0,
        BufferState::Starting => 1,
        BufferState::Active => 2,
        BufferState::Paused => 3,
        BufferState::Error => 4,
    }
}

/// The state a stored number stands for; unknown numbers read as stopped.
pub open spec fn spec_state_from_code(c: u8) -> BufferState {
    if c == 1 {
        BufferState::Starting
    } else if c == 2 {
        BufferState::Active
    } else if c == 3 {
        BufferState::Paused
    } else if c == 4 {
        BufferState::Error
    } else {
        BufferState::Stopped
    }
}

impl BufferState {
    /// The name under which the state is reported.
    pub fn as_str(self) -> (r: &'static str)
        ensures
            r@ == spec_state_name(self),
    {
        match self {
            BufferState::Stopped => "stopped",
            BufferState::Starting => "starting",
            BufferState::Active => "active",
            BufferState::Paused => "paused",
            BufferState::Error => "error",
        }
    }
}

/// The number under which a state is stored.
pub fn state_code(s: BufferState) -> (r: u8)
    ensures
        r == spec_state_code(s),
{
    match s {
        BufferState::Stopped => 0,
        BufferState::Starting => 1,
        BufferState::Active => 2,
        BufferState::Paused => 3,
        BufferState::Error => 4,
    }
}

/// The state a stored number stands for; unknown numbers read as stopped.
pub fn state_from_code(c: u8) -> (r: BufferState)
    ensures
        r == spec_state_from_code(c),
{
    match c {
        1 => BufferState::Starting,
        2 => BufferState::Active,
        3 => BufferState::Paused,
        4 => BufferState::Error,
        _ => BufferState::Stopped,
    }
}

/// Storing a state and reading it back gives the same state.
pub proof fn lemma_state_code_roundtrip(s: BufferState)
    ensures
        spec_state_from_code(spec_state_code(s)) == s,
{
}

/// Distinct states are stored under distinct numbers.
pub proof fn lemma_state_code_injective(a: BufferState, b: BufferState)
    ensures
        spec_state_code(a) == spec_state_code(b) ==> a == b,
{
}

// ─── Recorder runtime ───────────────────────────────────────────────────────

/// Automatic restarts allowed after the pipeline dies before the buffer is
/// reported as failed.
pub const MAX_AUTO_RESTARTS: u32 = 3;

/// Output for this long (in nanoseconds) counts as stable and refills the
/// restart budget.
pub const STABLE_OUTPUT_NANOS: u64 = 5_000_000_000;

/// The recorder's shared state.
pub struct RecorderRuntime {
    /// The stored buffer state (see `spec_state_code`).
    pub state_code: u8,
    /// Bumped on every manual start, pause and stop.
    pub generation: u64,
    /// Automatic restarts since the last manual start or stable output.
    pub auto_restarts: u32,
    /// Whether a clip is being saved.
    pub save_in_flight: bool,
    /// The replay buffer, once the pipeline has started.
    pub video_buffer: Option<InMemoryVideoBuffer>,
}

impl RecorderRuntime {
    /// The runtime's consistency: the buffer, when present, is consistent.
    pub open spec fn wf(&self) -> bool {
        self.video_buffer matches Some(b) ==> b.wf()
    }

    /// The reported state.
    pub open spec fn state(&self) -> BufferState {
        spec_state_from_code(self.state_code)
    }

    /// A stopped recorder with no buffer, no save and a full restart budget.
    pub fn new() -> (r: Self)
        ensures
            r.wf(),
            r.state_code == spec_state_code(BufferState::Stopped),
            r.state() == BufferState::Stopped,
            r.generation == 0,
            r.auto_restarts == 0,
            !r.save_in_flight,
            r.video_buffer is None,
    {
        RecorderRuntime {
            state_code: 0,
            generation: 0,
            auto_restarts: 0,
            save_in_flight: false,
            video_buffer: None,
        }
    }
}

/// Records the reported state.
pub fn set_state(rt: &mut RecorderRuntime, s: BufferState)
    ensures
        final(rt).state_code == spec_state_code(s),
        final(rt).state() == s,
        final(rt).generation == old(rt).generation,
        final(rt).auto_restarts == old(rt).auto_restarts,
        final(rt).save_in_flight == old(rt).save_in_flight,
        final(rt).video_buffer == old(rt).video_buffer,
{
    rt.state_code = state_code(s);
}

/// The reported state.
pub fn current_state(rt: &RecorderRuntime) -> (r: BufferState)
    ensures
        r == rt.state(),
{
    state_from_code(rt.state_code)
}

/// The name of the reported state.
pub fn get_buffer_state(rt: &RecorderRuntime) -> (r: String)
    ensures
        r@ == spec_state_name(rt.state()),
{
    owned(current_state(rt).as_str())
}

// ─── Diagnostic report ──────────────────────────────────────────────────────

/// The last diagnostic report written when the pipeline failed.
pub struct DiagnosticLog {
    pub text: String,
}

impl DiagnosticLog {
    /// An empty report.
    pub fn new() -> (r: Self)
        ensures
            r.text@ == Seq::<char>::empty(),
    {
        DiagnosticLog { text: String::new() }
    }
}

/// Replaces the stored report by `log`.
pub fn update_diagnostic_log(store: &mut DiagnosticLog, log: String)
    ensures
        final(store).text@ == log@,
{
    store.text = log;
}

/// The stored report: the text of the last update, empty before any.
pub fn get_last_error_log(store: &DiagnosticLog) -> (r: String)
    ensures
        r@ == store.text@,
{
    store.text.clone()
}

// ─── Sessions ───────────────────────────────────────────────────────────────

/// The next generation number (wrapping, as an atomic counter does).
pub open spec fn spec_next_generation(g: u64) -> u64 {
    if g == u64::MAX {
        0
    } else {
        (g + 1) as u64
    }
}

/// A manual start: a new generation with a full restart budget. Returns the
/// new generation, which the started pipeline carries.
pub fn begin_session(rt: &mut RecorderRuntime) -> (g: u64)
    ensures
        final(rt).generation == spec_next_generation(old(rt).generation),
        g == final(rt).generation,
        final(rt).auto_restarts == 0,
        final(rt).state_code == old(rt).state_code,
        final(rt).save_in_flight == old(rt).save_in_flight,
        final(rt).video_buffer == old(rt).video_buffer,
{
    rt.auto_restarts = 0;
    rt.generation = rt.generation.wrapping_add(1);
    rt.generation
}

/// A manual pause or stop: a new generation, so that the watchdog of the
/// running pipeline stays inert, and the given state.
pub fn end_session(rt: &mut RecorderRuntime, s: BufferState)
    ensures
        final(rt).generation == spec_next_generation(old(rt).generation),
        final(rt).state() == s,
        final(rt).auto_restarts == old(rt).auto_restarts,
        final(rt).save_in_flight == old(rt).save_in_flight,
        final(rt).video_buffer == old(rt).video_buffer,
{
    rt.generation = rt.generation.wrapping_add(1);
    set_state(rt, s);
}

/// After the pipeline of generation `session` was spawned: the buffer turns
/// active if it is still starting and no manual start, pause or stop came in
/// between. Returns whether it turned active.
pub fn confirm_started(rt: &mut RecorderRuntime, session: u64) -> (activated: bool)
    ensures
        activated == (old(rt).state() == BufferState::Starting && old(rt).generation == session),
        activated ==> final(rt).state() == BufferState::Active,
        !activated ==> final(rt).state_code == old(rt).state_code,
        final(rt).generation == old(rt).generation,
        final(rt).auto_restarts == old(rt).auto_restarts,
        final(rt).save_in_flight == old(rt).save_in_flight,
        final(rt).video_buffer == old(rt).video_buffer,
{
    if current_state(rt) == BufferState::Starting && rt.generation == session {
        set_state(rt, BufferState::Active);
        true
    } else {
        false
    }
}

/// Output that has flowed for `elapsed_nanos` since the pipeline started
/// refills the restart budget once it counts as stable.
pub fn note_output(rt: &mut RecorderRuntime, elapsed_nanos: u64)
    ensures
        elapsed_nanos >= STABLE_OUTPUT_NANOS ==> final(rt).auto_restarts == 0,
        elapsed_nanos < STABLE_OUTPUT_NANOS ==> final(rt).auto_restarts == old(rt).auto_restarts,
        final(rt).state_code == old(rt).state_code,
        final(rt).generation == old(rt).generation,
        final(rt).save_in_flight == old(rt).save_in_flight,
        final(rt).video_buffer == old(rt).video_buffer,
{
    if elapsed_nanos >= STABLE_OUTPUT_NANOS {
        rt.auto_restarts = 0;
    }
}

/// What to do when the capture pipeline has exited.
#[derive(Clone, Copy, Debug, PartialEq, Eq, Structural)]
pub enum WatchdogAction {
    /// Nothing: the pipeline belonged to an older session, or the buffer was
    /// not meant to be running.
    Ignore,
    /// Kill what is left of the pipeline and start it again; `attempt`
    /// counts from one.
    Restart { attempt: u32 },
    /// Kill what is left of the pipeline and report the buffer as failed.
    Fail,
}

/// The restart counter after one more attempt (wrapping, as an atomic
/// counter does).
pub open spec fn spec_next_attempts(a: u32) -> u32 {
    if a == u32::MAX {
        0
    } else {
        (a + 1) as u32
    }
}

/// The watchdog's decision once the pipeline of generation `session` has
/// exited. A pipeline of an older session, or one that exits while the
/// buffer is neither active nor starting, changes nothing. Otherwise the
/// pipeline is restarted (state `Starting`) while fewer than three automatic
/// restarts have been made, and reported as failed (state `Error`) after.
pub fn on_pipeline_exit(rt: &mut RecorderRuntime, session: u64) -> (a: WatchdogAction)
    ensures
        ({
            let live = old(rt).generation == session && (old(rt).state() == BufferState::Active
                || old(rt).state() == BufferState::Starting);
            &&& !live ==> a == WatchdogAction::Ignore && *final(rt) == *old(rt)
            &&& live ==> final(rt).auto_restarts == spec_next_attempts(old(rt).auto_restarts)
            &&& live && old(rt).auto_restarts < MAX_AUTO_RESTARTS ==> a == (WatchdogAction::Restart {
                attempt: (old(rt).auto_restarts + 1) as u32,
            }) && final(rt).state() == BufferState::Starting
            &&& live && old(rt).auto_restarts >= MAX_AUTO_RESTARTS ==> a == WatchdogAction::Fail
                && final(rt).state() == BufferState::Error
            &&& final(rt).generation == old(rt).generation
            &&& final(rt).save_in_flight == old(rt).save_in_flight
            &&& final(rt).video_buffer == old(rt).video_buffer
        }),
{
    if rt.generation != session {
        return WatchdogAction::Ignore;
    }
    let st = current_state(rt);
    if st != BufferState::Active && st != BufferState::Starting {
        return WatchdogAction::Ignore;
    }
    let attempts = rt.auto_restarts;
    rt.auto_restarts = attempts.wrapping_add(1);
    if attempts < MAX_AUTO_RESTARTS {
        set_state(rt, BufferState::Starting);
        WatchdogAction::Restart { attempt: attempts + 1 }
    } else {
        set_state(rt, BufferState::Error);
        WatchdogAction::Fail
    }
}

// ─── Saving ─────────────────────────────────────────────────────────────────

/// Whether a clip is being saved.
pub fn is_saving(rt: &RecorderRuntime) -> (r: bool)
    ensures
        r == rt.save_in_flight,
{
    rt.save_in_flight
}

/// Claims the single save slot. Returns `false`, changing nothing, when a
/// save is already in flight; otherwise marks a save as in flight and
/// returns `true`.
pub fn try_begin_save(rt: &mut RecorderRuntime) -> (claimed: bool)
    ensures
        claimed == !old(rt).save_in_flight,
        final(rt).save_in_flight == spec_slot_step(old(rt).save_in_flight, SaveEvent::Claim),
        final(rt).save_in_flight,
        final(rt).state_code == old(rt).state_code,
        final(rt).generation == old(rt).generation,
        final(rt).auto_restarts == old(rt).auto_restarts,
        final(rt).video_buffer == old(rt).video_buffer,
{
    let was = rt.save_in_flight;
    rt.save_in_flight = true;
    !was
}

/// Releases the save slot.
pub fn end_save(rt: &mut RecorderRuntime)
    ensures
        final(rt).save_in_flight == spec_slot_step(old(rt).save_in_flight, SaveEvent::Release),
        !final(rt).save_in_flight,
        final(rt).state_code == old(rt).state_code,
        final(rt).generation == old(rt).generation,
        final(rt).auto_restarts == old(rt).auto_restarts,
        final(rt).video_buffer == old(rt).video_buffer,
{
    rt.save_in_flight = false;
}

/// Two saves never overlap: once a claim has succeeded, a further claim
/// fails until the slot is released.
pub proof fn lemma_save_exclusive(
    start: RecorderRuntime,
    mid: RecorderRuntime,
    claimed_first: bool,
    claimed_second: bool,
)
    requires
        claimed_first == !start.save_in_flight,
        mid.save_in_flight,
        claimed_second == !mid.save_in_flight,
    ensures
        !claimed_second,
{
}


/// An operation on the save slot.
#[derive(Clone, Copy, PartialEq, Eq, Structural)]
pub enum SaveEvent {
    /// `try_begin_save`.
    Claim,
    /// `end_save`.
    Release,
}

/// The slot after one operation (see `try_begin_save` and `end_save`).
pub open spec fn spec_slot_step(in_flight: bool, e: SaveEvent) -> bool {
    match e {
        SaveEvent::Claim => true,
        SaveEvent::Release => false,
    }
}

/// The slot after a sequence of operations, from `start`.
pub open spec fn spec_slot_after(start: bool, evs: Seq<SaveEvent>) -> bool
    decreases evs.len(),
{
    if evs.len() == 0 {
        start
    } else {
        spec_slot_step(spec_slot_after(start, evs.drop_last()), evs.last())
    }
}

/// Whether the claim at position `k` of `evs` succeeds: the slot is free
/// after the operations before it.
pub open spec fn spec_claim_succeeds(start: bool, evs: Seq<SaveEvent>, k: int) -> bool {
    evs[k] == SaveEvent::Claim && !spec_slot_after(start, evs.subrange(0, k))
}

proof fn lemma_slot_held(start: bool, evs: Seq<SaveEvent>, i: int, j: int)
    requires
        0 <= i < j <= evs.len(),
        evs[i] == SaveEvent::Claim,
        forall|m: int| i < m < j ==> evs[m] != SaveEvent::Release,
    ensures
        spec_slot_after(start, evs.subrange(0, j)),
    decreases j - i,
{
    let p = evs.subrange(0, j);
    assert(p.drop_last() =~= evs.subrange(0, j - 1));
    assert(p.last() == evs[j - 1]);
    if j - 1 > i {
        lemma_slot_held(start, evs, i, j - 1);
    }
}

/// Over any sequence of claims and releases, two claims that both succeed
/// have a release between them: at most one save is ever in flight.
pub proof fn lemma_save_slot_run(start: bool, evs: Seq<SaveEvent>, i: int, j: int)
    requires
        0 <= i < j < evs.len(),
        spec_claim_succeeds(start, evs, i),
        spec_claim_succeeds(start, evs, j),
    ensures
        exists|m: int| i < m < j && evs[m] == SaveEvent::Release,
{
    if forall|m: int| i < m < j ==> evs[m] != SaveEvent::Release {
        lemma_slot_held(start, evs, i, j);
    }
}

// ─── The video buffer ───────────────────────────────────────────────────────

/// Bitrate text without one trailing `k` or `K`.
pub open spec fn spec_strip_kilo(s: Seq<char>) -> Seq<char> {
    if s.len() > 0 && (s.last() == 'k' || s.last() == 'K') {
        s.drop_last()
    } else {
        s
    }
}

/// A decimal number that fits in `usize`, as `str::parse::<usize>` reads it.
pub open spec fn spec_parse_usize(s: Seq<char>) -> Option<nat> {
    match spec_parse_unsigned(s) {
        Some(v) => if v <= usize::MAX {
            Some(v)
        } else {
            None
        },
        None => None,
    }
}

/// Kilobits per second named by a bitrate such as `12000k`; 20000 when the
/// text is not a number.
pub open spec fn spec_buffer_kbps(bitrate: Seq<char>) -> nat {
    match spec_parse_usize(spec_strip_kilo(bitrate)) {
        Some(v) => v,
        None => 20000,
    }
}

/// Bytes the stream produces in `secs + 30` seconds at the named bitrate.
pub open spec fn spec_buffer_request(secs: u32, bitrate: Seq<char>) -> nat {
    (spec_buffer_kbps(bitrate) * 1000 / 8) * (secs + 30) as nat
}

/// The smallest buffer ever made: 64 MiB.
pub const MIN_VIDEO_BUFFER_BYTES: usize = 67_108_864;

/// Byte limit of the buffer for `secs` seconds of clips at `bitrate`: room
/// for thirty seconds more than asked, and never under 64 MiB.
pub open spec fn spec_buffer_capacity(secs: u32, bitrate: Seq<char>) -> nat {
    let r = spec_buffer_request(secs, bitrate);
    if r >= MIN_VIDEO_BUFFER_BYTES {
        r
    } else {
        MIN_VIDEO_BUFFER_BYTES as nat
    }
}

/// Whether the buffer size arithmetic stays within `usize`.
pub open spec fn spec_buffer_request_fits(secs: u32, bitrate: Seq<char>) -> bool {
    &&& spec_buffer_kbps(bitrate) * 1000 <= usize::MAX
    &&& secs + 30 <= usize::MAX
    &&& spec_buffer_request(secs, bitrate) <= usize::MAX
}

/// The byte limit of the buffer for `buffer_length_secs` seconds at
/// `bitrate_str` (see `spec_buffer_capacity`).
pub fn video_buffer_capacity(buffer_length_secs: u32, bitrate_str: &str) -> (r: usize)
    requires
        spec_buffer_request_fits(buffer_length_secs, bitrate_str@),
    ensures
        r == spec_buffer_capacity(buffer_length_secs, bitrate_str@),
{
    let cs = chars_of(bitrate_str);
    let n = cs.len();
    let mut num: Vec<char> = cs.clone();
    if n > 0 && (cs[n - 1] == 'k' || cs[n - 1] == 'K') {
        num.pop();
    }
    assert(num@ == spec_strip_kilo(bitrate_str@));
    let kbps: usize = match parse_unsigned(num.as_slice(), usize::MAX as u64) {
        Some(v) => v as usize,
        None => 20000,
    };
    assert(kbps == spec_buffer_kbps(bitrate_str@));
    let per_sec: usize = kbps * 1000 / 8;
    let secs: usize = buffer_length_secs as usize + 30;
    assert(per_sec * secs == spec_buffer_request(buffer_length_secs, bitrate_str@));
    let requested: usize = per_sec * secs;
    if requested >= MIN_VIDEO_BUFFER_BYTES {
        requested
    } else {
        MIN_VIDEO_BUFFER_BYTES
    }
}

/// Makes a fresh, empty buffer sized for `buffer_length_secs` seconds of
/// clips at `bitrate_str` (see `spec_buffer_capacity`), replacing any
/// previous one. The hardware tier does not change the size.
pub fn init_video_buffer(
    rt: &mut RecorderRuntime,
    buffer_length_secs: u32,
    bitrate_str: &str,
    _tier: HardwareTier,
)
    requires
        spec_buffer_request_fits(buffer_length_secs, bitrate_str@),
    ensures
        final(rt).wf(),
        (final(rt).video_buffer matches Some(b) && b.chunks@.len() == 0 && b.current_bytes == 0
            && b.max_bytes == spec_buffer_capacity(buffer_length_secs, bitrate_str@)),
        final(rt).state_code == old(rt).state_code,
        final(rt).generation == old(rt).generation,
        final(rt).auto_restarts == old(rt).auto_restarts,
        final(rt).save_in_flight == old(rt).save_in_flight,
{
    let max_bytes = video_buffer_capacity(buffer_length_secs, bitrate_str);
    rt.video_buffer = Some(InMemoryVideoBuffer::new(max_bytes));
}

/// Hands a batch of pipeline output to the buffer, if there is one (see
/// `InMemoryVideoBuffer::push_chunk`).
pub fn push_video_chunk(rt: &mut RecorderRuntime, data: Vec<u8>)
    requires
        old(rt).wf(),
    ensures
        final(rt).wf(),
        old(rt).video_buffer is None ==> final(rt).video_buffer is None,
        old(rt).video_buffer matches Some(b0) ==> (final(rt).video_buffer matches Some(b1) && {
            &&& b1.max_bytes == b0.max_bytes
            &&& spec_ts_sorted(b0.chunks@) ==> spec_ts_sorted(b1.chunks@)
            &&& data@.len() == 0 || data@.len() > b0.max_bytes ==> b1.chunks@ == b0.chunks@
            &&& data@.len() > 0 && data@.len() <= b0.max_bytes ==> {
                let k = spec_evict_count(b0.chunks@, data@.len(), b0.max_bytes as nat);
                &&& b1.chunks@.len() == b0.chunks@.len() - k + 1
                &&& b1.chunks@.subrange(0, b1.chunks@.len() - 1) == b0.chunks@.subrange(
                    k as int,
                    b0.chunks@.len() as int,
                )
                &&& b1.chunks@.last().data@ == data@
                &&& b1.chunks@.last().is_keyframe == (spec_first_keyframe_from(data@, 0) is Some)
                &&& b0.chunks@.len() > 0 ==> b1.chunks@.last().timestamp >= b0.chunks@.last().timestamp
                &&& spec_ts_sorted(b0.chunks@) ==> forall|i: int| 0 <= i < b0.chunks@.len() ==> #[trigger] b0.chunks@[i].timestamp
                    <= b1.chunks@.last().timestamp
            }
        }),
        final(rt).state_code == old(rt).state_code,
        final(rt).generation == old(rt).generation,
        final(rt).auto_restarts == old(rt).auto_restarts,
        final(rt).save_in_flight == old(rt).save_in_flight,
{
    match rt.video_buffer.take() {
        Some(mut b) => {
            b.push_chunk(data);
            rt.video_buffer = Some(b);
        },
        None => {},
    }
}

/// Stored bytes, byte limit, time span in nanoseconds and chunk count of the
/// buffer (see `InMemoryVideoBuffer::stats`); all zero without a buffer.
pub fn get_video_buffer_stats(rt: &RecorderRuntime) -> (r: (usize, usize, u64, usize))
    ensures
        rt.video_buffer is None ==> r == (0usize, 0usize, 0u64, 0usize),
        rt.video_buffer matches Some(b) ==> {
            &&& r.0 == b.current_bytes
            &&& r.1 == b.max_bytes
            &&& r.3 == b.chunks@.len()
            &&& r.2 == (if b.chunks@.len() > 0 && b.chunks@.last().timestamp >= b.chunks@[0].timestamp {
                (b.chunks@.last().timestamp - b.chunks@[0].timestamp) as u64
            } else {
                0u64
            })
        },
{
    match &rt.video_buffer {
        Some(b) => b.stats(),
        None => (0, 0, 0, 0),
    }
}

/// Message when a clip is asked for before the pipeline ever started.
pub open spec fn spec_buffer_missing_message() -> Seq<char> {
    "Video buffer not initialized"@
}

/// Cuts the newest `requested_nanos` of video from the buffer (see
/// `InMemoryVideoBuffer::extract`); an error when there is no buffer.
pub fn extract_video_buffer(rt: &RecorderRuntime, requested_nanos: u64) -> (r: Result<ExtractedVideo, String>)
    ensures
        rt.video_buffer is None ==> (r matches Err(e) && e@ == spec_buffer_missing_message()),
        rt.video_buffer matches Some(b) ==> (r matches Ok(v) && {
            &&& b.chunks@.len() == 0 ==> v.data@.len() == 0 && v.duration_nanos == 0
            &&& b.chunks@.len() > 0 ==> spec_extract_matches(b.chunks@, requested_nanos, v)
        }),
{
    match &rt.video_buffer {
        Some(b) => Ok(b.extract(requested_nanos)),
        None => Err(owned("Video buffer not initialized")),
    }
}


// ─── Pipeline output ────────────────────────────────────────────────────────

/// Pending output is handed to the buffer once it holds this many bytes.
pub const FLUSH_BYTES: usize = 65536;

/// Pending output is handed to the buffer once this many nanoseconds have
/// passed since the last hand-over.
pub const FLUSH_INTERVAL_NANOS: u64 = 50_000_000;

/// Whether pending output of `len` bytes is due at `now` when the last
/// hand-over was at `last`; time that appears to run backwards counts as
/// none having passed.
pub open spec fn spec_flush_due(len: nat, last: u64, now: u64) -> bool {
    len >= FLUSH_BYTES || (now >= last && now - last >= FLUSH_INTERVAL_NANOS)
}

/// Batches the pipeline's standard output into larger chunks.
pub struct OutputBatcher {
    pub pending: Vec<u8>,
    pub last_flush_nanos: u64,
}

impl OutputBatcher {
    /// An empty batcher whose last hand-over is `now`.
    pub fn new(now: u64) -> (r: Self)
        ensures
            r.pending@.len() == 0,
            r.last_flush_nanos == now,
    {
        OutputBatcher { pending: Vec::new(), last_flush_nanos: now }
    }

    /// Adds output that arrived at `now`. When the pending bytes are due
    /// (see `spec_flush_due`) they are all returned, in arrival order, and
    /// the batcher starts over at `now`; otherwise they are kept.
    pub fn feed(&mut self, bytes: &[u8], now: u64) -> (r: Option<Vec<u8>>)
        ensures
            ({
                let all = old(self).pending@ + bytes@;
                if spec_flush_due(all.len(), old(self).last_flush_nanos, now) {
                    &&& r matches Some(batch) && batch@ == all
                    &&& final(self).pending@.len() == 0
                    &&& final(self).last_flush_nanos == now
                } else {
                    &&& r is None
                    &&& final(self).pending@ == all
                    &&& final(self).last_flush_nanos == old(self).last_flush_nanos
                }
            }),
    {
        let mut incoming = vstd::slice::slice_to_vec(bytes);
        self.pending.append(&mut incoming);
        let due = self.pending.len() >= FLUSH_BYTES || (now >= self.last_flush_nanos && now
            - self.last_flush_nanos >= FLUSH_INTERVAL_NANOS);
        if due {
            let mut out: Vec<u8> = Vec::new();
            std::mem::swap(&mut out, &mut self.pending);
            self.last_flush_nanos = now;
            Some(out)
        } else {
            None
        }
    }

    /// When the pipeline ends: the pending bytes, if there are any.
    pub fn finish(&mut self) -> (r: Option<Vec<u8>>)
        ensures
            old(self).pending@.len() == 0 ==> r is None,
            old(self).pending@.len() > 0 ==> (r matches Some(batch) && batch@ == old(self).pending@),
            final(self).pending@.len() == 0,
            final(self).last_flush_nanos == old(self).last_flush_nanos,
    {
        if self.pending.len() == 0 {
            None
        } else {
            let mut out: Vec<u8> = Vec::new();
            std::mem::swap(&mut out, &mut self.pending);
            Some(out)
        }
    }
}

/// Lines of the pipeline's error output kept for the report.
pub const ERR_TAIL_LINES: usize = 40;

/// Keeps the newest error-output lines: when forty are kept already, the
/// oldest is dropped before `line` is added.
pub fn push_err_line(tail: &mut VecDeque<String>, line: String)
    ensures
        old(tail)@.len() >= ERR_TAIL_LINES ==> final(tail)@ == old(tail)@.drop_first().push(line),
        old(tail)@.len() < ERR_TAIL_LINES ==> final(tail)@ == old(tail)@.push(line),
{
    if tail.len() >= ERR_TAIL_LINES {
        tail.pop_front();
    }
    tail.push_back(line);
}

/// Index of the newest non-blank line before `end`, if any.
pub open spec fn spec_last_non_blank(lines: Seq<Seq<char>>, end: int) -> Option<int>
    decreases end,
{
    if end <= 0 || end > lines.len() {
        None
    } else if !spec_is_blank(lines[end - 1]) {
        Some(end - 1)
    } else {
        spec_last_non_blank(lines, end - 1)
    }
}

/// The message the buffer fails with: the newest non-blank error line, or a
/// note with the exit code when there is none.
pub open spec fn spec_last_meaningful_error(lines: Seq<Seq<char>>, exit_code: Option<i32>) -> Seq<char> {
    match spec_last_non_blank(lines, lines.len() as int) {
        Some(i) => lines[i],
        None => "FFmpeg beendet (Exit Code: "@ + spec_debug_opt_i32(exit_code) + ")"@,
    }
}

/// The message the buffer fails with (see `spec_last_meaningful_error`).
pub fn last_meaningful_error(tail: &VecDeque<String>, exit_code: Option<i32>) -> (r: String)
    ensures
        r@ == spec_last_meaningful_error(spec_strings(tail@), exit_code),
{
    let ghost lines = spec_strings(tail@);
    let mut i: usize = tail.len();
    while i > 0
        invariant
            i <= tail@.len(),
            lines == spec_strings(tail@),
            spec_last_non_blank(lines, lines.len() as int) == spec_last_non_blank(lines, i as int),
        decreases i,
    {
        let cs = chars_of(tail[i - 1].as_str());
        if !is_blank(cs.as_slice()) {
            return tail[i - 1].clone();
        }
        i = i - 1;
    }
    let mut m = String::new();
    push_str(&mut m, "FFmpeg beendet (Exit Code: ");
    push_debug_opt_i32(&mut m, exit_code);
    push_str(&mut m, ")");
    assert(m@ =~= spec_last_meaningful_error(lines, exit_code));
    m
}

/// The whole command as shown in reports: `ffmpeg` and the arguments, each
/// after one space.
pub open spec fn spec_command_line(args: Seq<Seq<char>>) -> Seq<char>
    decreases args.len(),
{
    if args.len() == 0 {
        "ffmpeg"@
    } else {
        spec_command_line(args.drop_last()) + " "@ + args.last()
    }
}

/// The whole command as shown in reports (see `spec_command_line`).
pub fn command_line(args: &Vec<String>) -> (r: String)
    ensures
        r@ == spec_command_line(spec_strings(args@)),
{
    let ghost all = spec_strings(args@);
    let mut r = owned("ffmpeg");
    let mut i: usize = 0;
    while i < args.len()
        invariant
            i <= args@.len(),
            all == spec_strings(args@),
            r@ == spec_command_line(all.subrange(0, i as int)),
        decreases args@.len() - i,
    {
        push_str(&mut r, " ");
        push_str(&mut r, args[i].as_str());
        assert(all.subrange(0, i + 1).drop_last() =~= all.subrange(0, i as int));
        i = i + 1;
    }
    assert(all.subrange(0, args@.len() as int) =~= all);
    r
}

/// The error-output part of a report: each kept line indented by two spaces
/// on a line of its own.
pub open spec fn spec_indented_lines(lines: Seq<Seq<char>>) -> Seq<char>
    decreases lines.len(),
{
    if lines.len() == 0 {
        Seq::empty()
    } else {
        spec_indented_lines(lines.drop_last()) + "  "@ + lines.last() + "\n"@
    }
}

/// The report written when the pipeline's output ends: the header, the
/// command, the exit status when the pipeline terminated (exit code and
/// signal), the kept error output and a closing rule.
pub open spec fn spec_exit_report(
    header: Seq<char>,
    command: Seq<char>,
    termination: Option<(Option<i32>, Option<i32>)>,
    lines: Seq<Seq<char>>,
) -> Seq<char> {
    header + "\nFFmpeg Befehl:\n"@ + command + "\n"@ + (match termination {
        Some((code, signal)) => "\nStatus: Beendet (Exit Code: "@ + spec_debug_opt_i32(code)
            + ", Signal: "@ + spec_debug_opt_i32(signal) + ")\n"@,
        None => Seq::empty(),
    }) + "\n--- FFmpeg Konsolenausgabe (stderr) ---\n"@ + (if lines.len() == 0 {
        "(Keine Fehlermeldung auf stderr ausgegeben)\n"@
    } else {
        spec_indented_lines(lines)
    }) + "========================================"@
}

/// The report written when the pipeline's output ends (see
/// `spec_exit_report`).
pub fn exit_report(
    header: &str,
    command: &str,
    termination: Option<(Option<i32>, Option<i32>)>,
    tail: &VecDeque<String>,
) -> (r: String)
    ensures
        r@ == spec_exit_report(header@, command@, termination, spec_strings(tail@)),
{
    let ghost lines = spec_strings(tail@);
    let mut r = owned(header);
    push_str(&mut r, "\nFFmpeg Befehl:\n");
    push_str(&mut r, command);
    push_str(&mut r, "\n");
    let ghost before_status = r@;
    match termination {
        Some((code, signal)) => {
            push_str(&mut r, "\nStatus: Beendet (Exit Code: ");
            push_debug_opt_i32(&mut r, code);
            push_str(&mut r, ", Signal: ");
            push_debug_opt_i32(&mut r, signal);
            push_str(&mut r, ")\n");
        },
        None => {},
    }
    let ghost before_lines = r@;
    push_str(&mut r, "\n--- FFmpeg Konsolenausgabe (stderr) ---\n");
    let ghost lines_start = r@;
    if tail.len() == 0 {
        push_str(&mut r, "(Keine Fehlermeldung auf stderr ausgegeben)\n");
    } else {
        let mut i: usize = 0;
        while i < tail.len()
            invariant
                i <= tail@.len(),
                lines == spec_strings(tail@),
                r@ == lines_start + spec_indented_lines(lines.subrange(0, i as int)),
            decreases tail@.len() - i,
        {
            push_str(&mut r, "  ");
            push_str(&mut r, tail[i].as_str());
            push_str(&mut r, "\n");
            assert(lines.subrange(0, i + 1).drop_last() =~= lines.subrange(0, i as int));
            assert(r@ =~= lines_start + spec_indented_lines(lines.subrange(0, i + 1)));
            i = i + 1;
        }
        assert(lines.subrange(0, tail@.len() as int) =~= lines);
    }
    push_str(&mut r, "========================================");
    assert(r@ =~= spec_exit_report(header@, command@, termination, lines));
    r
}



/// How a codec is named in reports.
pub open spec fn spec_codec_debug(c: VideoCodec) -> Seq<char> {
    match c {
        VideoCodec::H264 => "H264"@,
        VideoCodec::HEVC => "HEVC"@,
        VideoCodec::AV1 => "AV1"@,
    }
}

/// How a scaling method is named in reports.
pub open spec fn spec_scaling_debug(m: ScalingMethod) -> Seq<char> {
    match m {
        ScalingMethod::Cuda => "Cuda"@,
        ScalingMethod::Qsv => "Qsv"@,
        ScalingMethod::D3d11Direct => "D3d11Direct"@,
        ScalingMethod::CpuFallback => "CpuFallback"@,
    }
}

/// How a hardware tier is named in reports.
pub open spec fn spec_tier_debug(t: HardwareTier) -> Seq<char> {
    match t {
        HardwareTier::Weak => "Weak"@,
        HardwareTier::Mid => "Mid"@,
        HardwareTier::Strong => "Strong"@,
    }
}

/// The settings a pipeline was started with, as reported in diagnostics.
pub struct PipelineSettings {
    /// Local time of the start, already formatted.
    pub time: String,
    pub codec: VideoCodec,
    pub encoder: String,
    pub scaling: ScalingMethod,
    pub resolution: String,
    pub monitor_width: u32,
    pub monitor_height: u32,
    pub bitrate: String,
    pub fps: String,
    pub tier: HardwareTier,
    pub logical_cores: u32,
    pub mic_device: String,
    /// Microphone gain, already formatted.
    pub mic_volume: String,
}

/// The header of every diagnostic report of a pipeline.
pub open spec fn spec_diagnostic_header(p: PipelineSettings) -> Seq<char> {
    "=== CLIP TOOL BUFFER DIAGNOSE-BERICHT ===\nZeitpunkt: "@ + p.time@ + "\nGewählter Codec: "@
        + spec_codec_debug(p.codec) + "\nErkannter Encoder: "@ + p.encoder@ + "\nScaling Methode: "@
        + spec_scaling_debug(p.scaling) + "\nAuflösung: "@ + p.resolution@ + " (Monitor: "@
        + spec_decimal(p.monitor_width as nat) + "x"@ + spec_decimal(p.monitor_height as nat)
        + ")\nBitrate: "@ + p.bitrate@ + "\nFPS: "@ + p.fps@ + "\nHardware Tier: "@ + spec_tier_debug(
        p.tier,
    ) + " (CPUs: "@ + spec_decimal(p.logical_cores as nat) + ")\nMikrofon: "@ + p.mic_device@
        + " (Vol: "@ + p.mic_volume@ + ")\n"@
}

/// The header of every diagnostic report of a pipeline (see
/// `spec_diagnostic_header`).
pub fn diagnostic_header(p: &PipelineSettings) -> (r: String)
    ensures
        r@ == spec_diagnostic_header(*p),
{
    let mut r = owned("=== CLIP TOOL BUFFER DIAGNOSE-BERICHT ===\nZeitpunkt: ");
    push_str(&mut r, p.time.as_str());
    push_str(&mut r, "\nGewählter Codec: ");
    push_str(
        &mut r,
        match p.codec {
            VideoCodec::H264 => "H264",
            VideoCodec::HEVC => "HEVC",
            VideoCodec::AV1 => "AV1",
        },
    );
    push_str(&mut r, "\nErkannter Encoder: ");
    push_str(&mut r, p.encoder.as_str());
    push_str(&mut r, "\nScaling Methode: ");
    push_str(
        &mut r,
        match p.scaling {
            ScalingMethod::Cuda => "Cuda",
            ScalingMethod::Qsv => "Qsv",
            ScalingMethod::D3d11Direct => "D3d11Direct",
            ScalingMethod::CpuFallback => "CpuFallback",
        },
    );
    push_str(&mut r, "\nAuflösung: ");
    push_str(&mut r, p.resolution.as_str());
    push_str(&mut r, " (Monitor: ");
    push_decimal(&mut r, p.monitor_width as u64);
    push_str(&mut r, "x");
    push_decimal(&mut r, p.monitor_height as u64);
    push_str(&mut r, ")\nBitrate: ");
    push_str(&mut r, p.bitrate.as_str());
    push_str(&mut r, "\nFPS: ");
    push_str(&mut r, p.fps.as_str());
    push_str(&mut r, "\nHardware Tier: ");
    push_str(
        &mut r,
        match p.tier {
            HardwareTier::Weak => "Weak",
            HardwareTier::Mid => "Mid",
            HardwareTier::Strong => "Strong",
        },
    );
    push_str(&mut r, " (CPUs: ");
    push_decimal(&mut r, p.logical_cores as u64);
    push_str(&mut r, ")\nMikrofon: ");
    push_str(&mut r, p.mic_device.as_str());
    push_str(&mut r, " (Vol: ");
    push_str(&mut r, p.mic_volume.as_str());
    push_str(&mut r, ")\n");
    assert(r@ =~= spec_diagnostic_header(*p));
    r
}

/// The step at which starting the pipeline failed.
#[derive(Clone, Copy, Debug, PartialEq, Eq, Structural)]
pub enum SetupFailure {
    /// The capture arguments could not be built.
    Arguments,
    /// The encoder program could not be located.
    Sidecar,
    /// The encoder process could not be started.
    Spawn,
}

/// The report written when starting the pipeline failed: the header, the
/// command (only once it exists, when spawning failed), the failed step and
/// the error, and a closing rule.
pub open spec fn spec_setup_report(
    header: Seq<char>,
    failure: SetupFailure,
    command: Seq<char>,
    error: Seq<char>,
) -> Seq<char> {
    header + match failure {
        SetupFailure::Arguments => "\nFEHLER BEIM ERSTELLEN DER ARGS:\n"@,
        SetupFailure::Sidecar => "\nFEHLER BEIM SIDECAR-LADEN:\n"@,
        SetupFailure::Spawn => "\nFFmpeg Befehl:\n"@ + command + "\n\nFEHLER BEIM PROZESS-START (spawn):\n"@,
    } + error + "\n========================================"@
}

/// The report written when starting the pipeline failed (see
/// `spec_setup_report`).
pub fn setup_report(header: &str, failure: SetupFailure, command: &str, error: &str) -> (r: String)
    ensures
        r@ == spec_setup_report(header@, failure, command@, error@),
{
    let mut r = owned(header);
    match failure {
        SetupFailure::Arguments => push_str(&mut r, "\nFEHLER BEIM ERSTELLEN DER ARGS:\n"),
        SetupFailure::Sidecar => push_str(&mut r, "\nFEHLER BEIM SIDECAR-LADEN:\n"),
        SetupFailure::Spawn => {
            push_str(&mut r, "\nFFmpeg Befehl:\n");
            push_str(&mut r, command);
            push_str(&mut r, "\n\nFEHLER BEIM PROZESS-START (spawn):\n");
        },
    }
    push_str(&mut r, error);
    push_str(&mut r, "\n========================================");
    assert(r@ =~= spec_setup_report(header@, failure, command@, error@));
    r
}

// ─── Saving clips ───────────────────────────────────────────────────────────

/// `char::is_control`: the C0 and C1 control characters.
pub open spec fn spec_is_control(c: char) -> bool {
    c <= '\u{1f}' || ('\u{7f}' <= c && c <= '\u{9f}')
}

/// A game-name character as it may appear in a file name: characters that
/// Windows forbids in file names, and control characters, become `_`.
pub open spec fn spec_file_safe_char(c: char) -> char {
    if c == '<' || c == '>' || c == ':' || c == '"' || c == '/' || c == '\\' || c == '|' || c == '?'
        || c == '*' || spec_is_control(c) {
        '_'
    } else {
        c
    }
}

/// The folder and file-name stem for a game's clips: the name with unsafe
/// characters replaced and surrounding whitespace removed, or `Desktop`
/// when nothing is left.
pub open spec fn spec_clean_game_name(name: Seq<char>) -> Seq<char> {
    let t = spec_trim(name.map_values(|c: char| spec_file_safe_char(c)));
    if t.len() == 0 {
        "Desktop"@
    } else {
        t
    }
}

fn file_safe_char(c: char) -> (r: char)
    ensures
        r == spec_file_safe_char(c),
{
    if c == '<' || c == '>' || c == ':' || c == '"' || c == '/' || c == '\\' || c == '|' || c == '?'
        || c == '*' || c <= '\u{1f}' || ('\u{7f}' <= c && c <= '\u{9f}') {
        '_'
    } else {
        c
    }
}

/// Where a saved clip goes: the game's folder under the clip folder, the
/// clip file, and the common start of its audio track files.
pub struct ClipPaths {
    /// The cleaned game name (see `spec_clean_game_name`).
    pub game: String,
    /// The game's folder: the clip folder joined with the game name.
    pub game_dir: String,
    /// `<game>-<timestamp>.mp4` in the game's folder.
    pub clip_file: String,
    /// `<game>-<timestamp>` in the game's folder; each audio track adds
    /// `_<track>.wav`.
    pub audio_base: String,
}

/// The base name of a clip's files: the game name, `-` and the timestamp.
pub open spec fn spec_clip_base(game: Seq<char>, timestamp: Seq<char>) -> Seq<char> {
    game + "-"@ + timestamp
}

/// The paths of a clip of `game_name` saved under `save_path` at
/// `timestamp` (see `ClipPaths`; paths are joined as `spec_join_name`).
pub fn clip_paths(save_path: &str, game_name: &str, timestamp: &str) -> (r: ClipPaths)
    ensures
        r.game@ == spec_clean_game_name(game_name@),
        r.game_dir@ == spec_join_name(save_path@, r.game@),
        r.clip_file@ == spec_join_name(r.game_dir@, spec_clip_base(r.game@, timestamp@) + ".mp4"@),
        r.audio_base@ == spec_join_name(r.game_dir@, spec_clip_base(r.game@, timestamp@)),
{
    let game = clean_game_name(game_name);
    let game_dir = join_name(save_path, game.as_str());
    let mut base = game.clone();
    push_str(&mut base, "-");
    push_str(&mut base, timestamp);
    let mut file = base.clone();
    push_str(&mut file, ".mp4");
    let clip_file = join_name(game_dir.as_str(), file.as_str());
    let audio_base = join_name(game_dir.as_str(), base.as_str());
    ClipPaths { game, game_dir, clip_file, audio_base }
}

/// The folder and file-name stem for a game's clips (see
/// `spec_clean_game_name`).
pub fn clean_game_name(game_name: &str) -> (r: String)
    ensures
        r@ == spec_clean_game_name(game_name@),
{
    let cs = chars_of(game_name);
    let mut mapped: Vec<char> = Vec::new();
    let mut i: usize = 0;
    while i < cs.len()
        invariant
            i <= cs@.len(),
            cs@ == game_name@,
            mapped@ == cs@.subrange(0, i as int).map_values(|c: char| spec_file_safe_char(c)),
        decreases cs@.len() - i,
    {
        mapped.push(file_safe_char(cs[i]));
        assert(cs@.subrange(0, i + 1).map_values(|c: char| spec_file_safe_char(c)) =~= cs@.subrange(
            0,
            i as int,
        ).map_values(|c: char| spec_file_safe_char(c)).push(spec_file_safe_char(cs@[i as int])));
        i = i + 1;
    }
    assert(cs@.subrange(0, cs@.len() as int) =~= cs@);
    let t = trim_chars(mapped.as_slice());
    if t.len() == 0 {
        owned("Desktop")
    } else {
        string_from_chars(t.as_slice())
    }
}

/// The audio inputs of the mix: `[1:a][2:a]...[n:a]`.
pub open spec fn spec_amix_inputs(n: nat) -> Seq<char>
    decreases n,
{
    if n == 0 {
        Seq::empty()
    } else {
        spec_amix_inputs((n - 1) as nat) + "["@ + spec_decimal(n) + ":a]"@
    }
}

/// The audio filter: one track is resampled to follow the video clock;
/// several are mixed first, without level normalisation, ending with the
/// shortest.
pub open spec fn spec_audio_filter(n: nat) -> Seq<char> {
    if n == 1 {
        "[1:a]aresample=async=1[aout]"@
    } else {
        spec_amix_inputs(n) + "amix=inputs="@ + spec_decimal(n)
            + ":duration=shortest:normalize=0,aresample=async=1[aout]"@
    }
}

/// The `-i <track>` inputs of the audio tracks, in order.
pub open spec fn spec_track_inputs(tracks: Seq<Seq<char>>) -> Seq<Seq<char>>
    decreases tracks.len(),
{
    if tracks.len() == 0 {
        Seq::empty()
    } else {
        spec_track_inputs(tracks.drop_last()) + seq!["-i"@, tracks.last()]
    }
}

/// The HEVC tag that players expect in MP4, when the clip is HEVC.
pub open spec fn spec_hevc_tag(is_hevc: bool) -> Seq<Seq<char>> {
    if is_hevc {
        seq!["-tag:v"@, "hvc1"@]
    } else {
        Seq::empty()
    }
}

/// The command line that remuxes the saved video and mixes the audio tracks
/// into the final MP4: the video is copied, the tracks are mixed to AAC at
/// 192 kb/s, and the file is written for fast start.
pub open spec fn spec_merge_args(
    video: Seq<char>,
    tracks: Seq<Seq<char>>,
    is_hevc: bool,
    output: Seq<char>,
) -> Seq<Seq<char>> {
    let head = seq![
        "-probesize"@,
        "32"@,
        "-analyzeduration"@,
        "0"@,
        "-fflags"@,
        "+genpts+discardcorrupt"@,
        "-i"@,
        video,
    ];
    if tracks.len() > 0 {
        head + spec_track_inputs(tracks) + seq![
            "-map"@,
            "0:v"@,
            "-filter_complex"@,
            spec_audio_filter(tracks.len()),
            "-map"@,
            "[aout]"@,
            "-c:v"@,
            "copy"@,
        ] + spec_hevc_tag(is_hevc) + seq![
            "-c:a"@,
            "aac"@,
            "-b:a"@,
            "192k"@,
            "-threads"@,
            "4"@,
            "-max_muxing_queue_size"@,
            "2048"@,
            "-avoid_negative_ts"@,
            "make_zero"@,
            "-shortest"@,
            "-movflags"@,
            "+faststart"@,
            "-y"@,
            output,
        ]
    } else {
        head + seq!["-c:v"@, "copy"@] + spec_hevc_tag(is_hevc) + seq![
            "-max_muxing_queue_size"@,
            "2048"@,
            "-avoid_negative_ts"@,
            "make_zero"@,
            "-movflags"@,
            "+faststart"@,
            "-y"@,
            output,
        ]
    }
}

fn audio_filter(n: usize) -> (r: String)
    requires
        n >= 1,
    ensures
        r@ == spec_audio_filter(n as nat),
{
    if n == 1 {
        return owned("[1:a]aresample=async=1[aout]");
    }
    let mut r = String::new();
    let mut i: usize = 0;
    while i < n
        invariant
            i <= n,
            r@ == spec_amix_inputs(i as nat),
        decreases n - i,
    {
        i = i + 1;
        push_str(&mut r, "[");
        push_decimal(&mut r, i as u64);
        push_str(&mut r, ":a]");
        assert(r@ =~= spec_amix_inputs(i as nat));
    }
    push_str(&mut r, "amix=inputs=");
    push_decimal(&mut r, n as u64);
    push_str(&mut r, ":duration=shortest:normalize=0,aresample=async=1[aout]");
    assert(r@ =~= spec_audio_filter(n as nat));
    r
}

fn push_hevc_tag(v: &mut Vec<String>, is_hevc: bool)
    ensures
        spec_strings(final(v)@) == spec_strings(old(v)@) + spec_hevc_tag(is_hevc),
{
    if is_hevc {
        push_lit2(v, "-tag:v", "hvc1");
    } else {
        assert(spec_strings(v@) =~= spec_strings(v@) + spec_hevc_tag(is_hevc));
    }
}

/// The command line that produces the final clip (see `spec_merge_args`).
pub fn merge_args(video: &str, tracks: &Vec<String>, is_hevc: bool, output: &str) -> (r: Vec<String>)
    ensures
        spec_strings(r@) == spec_merge_args(video@, spec_strings(tracks@), is_hevc, output@),
{
    let ghost ts = spec_strings(tracks@);
    let mut v: Vec<String> = Vec::new();
    let head = vec!["-probesize", "32", "-analyzeduration", "0", "-fflags", "+genpts+discardcorrupt"];
    push_lits(&mut v, head);
    push_lit2(&mut v, "-i", video);
    let ghost head_v = spec_strings(v@);
    assert(head_v =~= seq![
        "-probesize"@,
        "32"@,
        "-analyzeduration"@,
        "0"@,
        "-fflags"@,
        "+genpts+discardcorrupt"@,
        "-i"@,
        video@,
    ]);
    if tracks.len() > 0 {
        let mut i: usize = 0;
        while i < tracks.len()
            invariant
                i <= tracks@.len(),
                ts == spec_strings(tracks@),
                spec_strings(v@) == head_v + spec_track_inputs(ts.subrange(0, i as int)),
            decreases tracks@.len() - i,
        {
            push_lit2(&mut v, "-i", tracks[i].as_str());
            assert(ts.subrange(0, i + 1).drop_last() =~= ts.subrange(0, i as int));
            i = i + 1;
        }
        assert(ts.subrange(0, tracks@.len() as int) =~= ts);
        push_lit2(&mut v, "-map", "0:v");
        push_lit(&mut v, "-filter_complex");
        push_string(&mut v, audio_filter(tracks.len()));
        push_lit2(&mut v, "-map", "[aout]");
        push_lit2(&mut v, "-c:v", "copy");
        push_hevc_tag(&mut v, is_hevc);
        let tail = vec![
            "-c:a",
            "aac",
            "-b:a",
            "192k",
            "-threads",
            "4",
            "-max_muxing_queue_size",
            "2048",
            "-avoid_negative_ts",
            "make_zero",
            "-shortest",
            "-movflags",
            "+faststart",
            "-y",
        ];
        push_lits(&mut v, tail);
        push_lit(&mut v, output);
    } else {
        push_lit2(&mut v, "-c:v", "copy");
        push_hevc_tag(&mut v, is_hevc);
        let tail = vec![
            "-max_muxing_queue_size",
            "2048",
            "-avoid_negative_ts",
            "make_zero",
            "-movflags",
            "+faststart",
            "-y",
        ];
        push_lits(&mut v, tail);
        push_lit(&mut v, output);
    }
    assert(spec_strings(v@) =~= spec_merge_args(video@, ts, is_hevc, output@));
    v
}

/// The label of the audio of input `k`: `[k:a]`.
pub open spec fn spec_audio_label(k: nat) -> Seq<char> {
    "["@ + spec_decimal(k) + ":a]"@
}

proof fn lemma_decimal_digits(n: nat)
    ensures
        spec_decimal(n).len() >= 1,
        forall|i: int| 0 <= i < spec_decimal(n).len() ==> '0' <= #[trigger] spec_decimal(n)[i] <= '9',
        (spec_decimal(n)[0] == '0') == (n == 0),
    decreases n,
{
    if n >= 10 {
        lemma_decimal_digits(n / 10);
        let d = spec_decimal(n / 10);
        assert(spec_decimal(n) == d.push(spec_digit_char(n % 10)));
        assert(spec_decimal(n)[0] == d[0]);
    }
}

proof fn lemma_amix_brackets(n: nat)
    ensures
        forall|p: int|
            0 <= p < spec_amix_inputs(n).len() && #[trigger] spec_amix_inputs(n)[p] == '[' ==> p + 1
                < spec_amix_inputs(n).len() && spec_amix_inputs(n)[p + 1] != '0',
    decreases n,
{
    reveal_strlit("[");
    reveal_strlit(":a]");
    if n > 0 {
        lemma_amix_brackets((n - 1) as nat);
        lemma_decimal_digits(n);
        let a = spec_amix_inputs((n - 1) as nat);
        let d = spec_decimal(n);
        let l = "["@ + d + ":a]"@;
        let m = spec_amix_inputs(n);
        assert(m == a + l);
        assert forall|p: int| 0 <= p < m.len() && #[trigger] m[p] == '[' implies p + 1 < m.len() && m[p + 1] != '0' by {
            if p < a.len() {
                assert(a[p] == m[p]);
                assert(m[p + 1] == a[p + 1]);
            } else {
                let q = p - a.len();
                assert(l[q] == m[p]);
                if q >= 1 && q < 1 + d.len() {
                    assert(l[q] == d[q - 1]);
                    assert('0' <= d[q - 1] <= '9');
                }
                assert(q == 0);
                assert(m[p + 1] == l[1]);
                assert(l[1] == d[0]);
            }
        }
    }
}

proof fn lemma_amix_labels(n: nat)
    ensures
        forall|k: nat| 1 <= k <= n ==> #[trigger] spec_contains(spec_amix_inputs(n), spec_audio_label(k)),
        n >= 1 ==> spec_starts_with(spec_amix_inputs(n), "[1:a]"@),
    decreases n,
{
    reveal_strlit("[");
    reveal_strlit(":a]");
    reveal_strlit("[1:a]");
    if n > 0 {
        lemma_amix_labels((n - 1) as nat);
        let a = spec_amix_inputs((n - 1) as nat);
        let l = spec_audio_label(n);
        let m = spec_amix_inputs(n);
        assert(m == a + l);
        assert forall|k: nat| 1 <= k <= n implies #[trigger] spec_contains(m, spec_audio_label(k)) by {
            let lk = spec_audio_label(k);
            if k < n {
                assert(spec_contains(a, lk));
                let j = choose|j: int| #[trigger] spec_occurs_at(a, lk, j);
                assert(m.subrange(j, j + lk.len()) =~= a.subrange(j, j + lk.len()));
                assert(spec_occurs_at(m, lk, j));
            } else {
                assert(m.subrange(a.len() as int, (a.len() + l.len()) as int) =~= l);
                assert(spec_occurs_at(m, lk, a.len() as int));
            }
        }
        if n == 1 {
            assert(spec_decimal(1) == seq!['1']);
            assert(a.len() == 0);
            assert(m =~= "[1:a]"@);
            assert(m.subrange(0, 5) =~= m);
        } else {
            assert(m.subrange(0, 5) =~= a.subrange(0, 5));
        }
    }
}

/// The audio mix of a saved clip reads the audio of inputs 1 to `n`, one
/// per track file: it starts with `[1:a]`, names `[k:a]` for every `k` from
/// 1 to `n`, and never names `[0:a]`, the video input.
pub proof fn lemma_amix_reads_track_inputs(n: nat)
    ensures
        forall|k: nat| 1 <= k <= n ==> #[trigger] spec_contains(spec_amix_inputs(n), spec_audio_label(k)),
        n >= 1 ==> spec_starts_with(spec_amix_inputs(n), "[1:a]"@),
        !spec_contains(spec_amix_inputs(n), "[0:a]"@),
        n >= 2 ==> spec_starts_with(spec_audio_filter(n), spec_amix_inputs(n)),
{
    reveal_strlit("[0:a]");
    lemma_amix_labels(n);
    lemma_amix_brackets(n);
    let m = spec_amix_inputs(n);
    if spec_contains(m, "[0:a]"@) {
        let j = choose|j: int| #[trigger] spec_occurs_at(m, "[0:a]"@, j);
        assert(m.subrange(j, j + 5)[0] == m[j]);
        assert(m.subrange(j, j + 5)[1] == m[j + 1]);
        assert(m[j] == '[');
        assert(false);
    }
    if n >= 2 {
        let f = spec_audio_filter(n);
        assert(f.subrange(0, m.len() as int) =~= m);
    }
}

/// Whether the arguments `a` hold, from position `at`, the input of track
/// `k`: `-i <file>`.
pub open spec fn spec_merge_input_at(a: Seq<Seq<char>>, at: int, tracks: Seq<Seq<char>>, k: int) -> bool {
    a[at + 2 * k] == "-i"@ && a[at + 2 * k + 1] == tracks[k]
}

proof fn lemma_merge_track_inputs_shape(tracks: Seq<Seq<char>>)
    ensures
        spec_track_inputs(tracks).len() == 2 * tracks.len(),
        forall|k: int| 0 <= k < tracks.len() ==> #[trigger] spec_merge_input_at(spec_track_inputs(tracks), 0, tracks, k),
    decreases tracks.len(),
{
    if tracks.len() > 0 {
        let p = tracks.drop_last();
        lemma_merge_track_inputs_shape(p);
        let a = spec_track_inputs(tracks);
        let b = spec_track_inputs(p);
        let tail = seq!["-i"@, tracks.last()];
        assert(a == b + tail);
        assert forall|k: int| 0 <= k < tracks.len() implies #[trigger] spec_merge_input_at(a, 0, tracks, k) by {
            if k < p.len() {
                assert(spec_merge_input_at(b, 0, p, k));
                assert(p[k] == tracks[k]);
                assert(a[2 * k] == b[2 * k]);
                assert(a[2 * k + 1] == b[2 * k + 1]);
            } else {
                assert(a[2 * k] == tail[0]);
                assert(a[2 * k + 1] == tail[1]);
            }
        }
    }
}

/// The command line that saves a clip reads the buffered video as input 0
/// and the track files as inputs 1 to `n`, in order; with tracks it keeps
/// the video of input 0, mixes the audio with the filter for `n` tracks
/// (a lone track is only resampled, from input 1) and maps the mix; it
/// writes the output file last.
pub proof fn lemma_merge_inputs(video: Seq<char>, tracks: Seq<Seq<char>>, is_hevc: bool, output: Seq<char>)
    ensures
        ({
            let a = spec_merge_args(video, tracks, is_hevc, output);
            let n = tracks.len() as int;
            &&& a.len() >= 8 + 2 * n + 1
            &&& a[6] == "-i"@
            &&& a[7] == video
            &&& forall|k: int| 0 <= k < n ==> #[trigger] spec_merge_input_at(a, 8, tracks, k)
            &&& n > 0 ==> a[8 + 2 * n] == "-map"@ && a[9 + 2 * n] == "0:v"@ && a[10 + 2 * n] == "-filter_complex"@
                && a[11 + 2 * n] == spec_audio_filter(n as nat) && a[12 + 2 * n] == "-map"@ && a[13 + 2 * n]
                == "[aout]"@
            &&& n == 1 ==> a[11 + 2 * n] == "[1:a]aresample=async=1[aout]"@
            &&& a[a.len() - 1] == output
        }),
{
    lemma_merge_track_inputs_shape(tracks);
    let a = spec_merge_args(video, tracks, is_hevc, output);
    let ti = spec_track_inputs(tracks);
    let n = tracks.len() as int;
    assert forall|k: int| 0 <= k < n implies #[trigger] spec_merge_input_at(a, 8, tracks, k) by {
        assert(spec_merge_input_at(ti, 0, tracks, k));
        if n > 0 {
            assert(a[8 + 2 * k] == ti[2 * k]);
            assert(a[8 + 2 * k + 1] == ti[2 * k + 1]);
        }
    }
}

} // verus!
