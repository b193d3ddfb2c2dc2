//! The in-memory replay buffer: a byte-bounded FIFO of transport-stream chunks,
//! each stamped with its arrival time on a monotonic clock, from which the
//! last N seconds are cut starting at a keyframe.
use vstd::prelude::*;
use crate::mpeg_ts::{is_ts_keyframe, spec_first_keyframe_from};
use std::collections::VecDeque;

verus! {

// ─── Monotonic clock ────────────────────────────────────────────────────────

#[verifier::external_type_specification]
#[verifier::external_body]
pub struct ExInstant(std::time::Instant);

/// `std::time::Instant::now`: the current instant of the monotonic clock.
/// Nothing is promised of the value, which depends on the time of the call.
#[verifier::external_body]
fn instant_now() -> std::time::Instant {
    std::time::Instant::now()
}

/// `std::time::Instant::elapsed`, in whole nanoseconds (saturating at the
/// largest `u64`). Nothing is promised of the value, which depends on the
/// time of the call.
#[verifier::external_body]
fn nanos_since(origin: &std::time::Instant) -> u64 {
    u64::try_from(origin.elapsed().as_nanos()).unwrap_or(u64::MAX)
}

/// A monotonic clock that reads nanoseconds elapsed since its creation.
#[derive(Clone, Copy)]
pub struct MonotonicClock {
    origin: std::time::Instant,
}

impl MonotonicClock {
    /// The instant the clock counts from.
    pub closed spec fn spec_origin(&self) -> std::time::Instant {
        self.origin
    }

    /// A clock whose origin is the current instant.
    pub fn start() -> Self {
        MonotonicClock { origin: instant_now() }
    }

    /// The instant the clock counts from.
    pub fn origin(&self) -> (o: std::time::Instant)
        ensures
            o == self.spec_origin(),
    {
        self.origin
    }

    /// Nanoseconds elapsed since the origin.
    pub fn now_nanos(&self) -> u64 {
        nanos_since(&self.origin)
    }
}

/// Ten milliseconds: the shortest duration an extracted clip reports.
pub const MIN_EXTRACT_DURATION_NANOS: u64 = 10_000_000;

/// Nanoseconds per second.
pub const NANOS_PER_SEC: u64 = 1_000_000_000;

// ─── Chunks ─────────────────────────────────────────────────────────────────

/// A piece of the transport stream as received from the encoder.
pub struct TsChunk {
    pub data: Vec<u8>,
    /// Arrival time, in nanoseconds on the buffer's clock.
    pub timestamp: u64,
    /// Whether the chunk contains a keyframe packet.
    pub is_keyframe: bool,
}

/// Total payload bytes of a sequence of chunks.
pub open spec fn spec_total_bytes(s: Seq<TsChunk>) -> nat
    decreases s.len(),
{
    if s.len() == 0 {
        0
    } else {
        spec_total_bytes(s.drop_last()) + s.last().data@.len()
    }
}

/// The payloads of a sequence of chunks, concatenated in order.
pub open spec fn spec_concat_data(s: Seq<TsChunk>) -> Seq<u8>
    decreases s.len(),
{
    if s.len() == 0 {
        Seq::empty()
    } else {
        spec_concat_data(s.drop_last()) + s.last().data@
    }
}

/// Number of oldest chunks that must be dropped so that `incoming` more bytes
/// fit within `max` bytes.
pub open spec fn spec_evict_count(s: Seq<TsChunk>, incoming: nat, max: nat) -> nat
    decreases s.len(),
{
    if s.len() == 0 || spec_total_bytes(s) + incoming <= max {
        0
    } else {
        1 + spec_evict_count(s.subrange(1, s.len() as int), incoming, max)
    }
}

/// Whether the flag of a chunk agrees with its payload.
pub open spec fn spec_chunk_flag_ok(c: TsChunk) -> bool {
    c.is_keyframe == (spec_first_keyframe_from(c.data@, 0) is Some)
}

proof fn lemma_total_front(s: Seq<TsChunk>)
    requires
        s.len() > 0,
    ensures
        spec_total_bytes(s) == s[0].data@.len() + spec_total_bytes(s.subrange(1, s.len() as int)),
    decreases s.len(),
{
    let t = s.subrange(1, s.len() as int);
    assert(spec_total_bytes(s) == spec_total_bytes(s.drop_last()) + s.last().data@.len());
    if s.len() > 1 {
        lemma_total_front(s.drop_last());
        assert(s.drop_last().subrange(1, s.drop_last().len() as int) == t.drop_last());
        assert(t.last() == s.last());
        assert(s.drop_last()[0] == s[0]);
        assert(spec_total_bytes(t) == spec_total_bytes(t.drop_last()) + t.last().data@.len());
    } else {
        assert(s.drop_last().len() == 0);
        assert(spec_total_bytes(s.drop_last()) == 0);
        assert(t.len() == 0);
        assert(spec_total_bytes(t) == 0);
    }
}

proof fn lemma_evict_le(s: Seq<TsChunk>, incoming: nat, max: nat)
    ensures
        spec_evict_count(s, incoming, max) <= s.len(),
    decreases s.len(),
{
    if s.len() > 0 {
        lemma_evict_le(s.subrange(1, s.len() as int), incoming, max);
    }
}

proof fn lemma_total_push(s: Seq<TsChunk>, c: TsChunk)
    ensures
        spec_total_bytes(s.push(c)) == spec_total_bytes(s) + c.data@.len(),
{
    assert(s.push(c).drop_last() == s);
}

proof fn lemma_concat_push(s: Seq<TsChunk>, c: TsChunk)
    ensures
        spec_concat_data(s.push(c)) == spec_concat_data(s) + c.data@,
{
    assert(s.push(c).drop_last() == s);
}

// ─── Extraction ─────────────────────────────────────────────────────────────

/// The bytes cut from the buffer for a clip, with the time span they cover.
pub struct ExtractedVideo {
    pub data: Vec<u8>,
    /// Arrival time of the first chunk of the cut, in clock nanoseconds.
    pub start_ts: u64,
    /// Arrival time of the last chunk (never before `start_ts`).
    pub end_ts: u64,
    /// `end_ts - start_ts`, but at least ten milliseconds (zero for an empty buffer).
    pub duration_nanos: u64,
}

/// Whether every keyframe chunk up to index `k` arrived no later than `t`.
pub open spec fn spec_keyframes_upto_before(s: Seq<TsChunk>, k: int, t: u64) -> bool {
    forall|m: int| 0 <= m <= k && #[trigger] s[m].is_keyframe ==> s[m].timestamp <= t
}

/// The keyframe at which a cut for target time `t` provisionally begins: the
/// last keyframe before the first keyframe that arrived after `t`, or the
/// oldest chunk when no keyframe qualifies or `t` precedes the oldest chunk.
pub open spec fn spec_is_raw_start(s: Seq<TsChunk>, t: u64, r: int) -> bool {
    if t <= s[0].timestamp || !(exists|k: int|
        0 <= k < s.len() && #[trigger] s[k].is_keyframe && spec_keyframes_upto_before(s, k, t)) {
        r == 0
    } else {
        &&& 0 <= r < s.len()
        &&& s[r].is_keyframe
        &&& spec_keyframes_upto_before(s, r, t)
        &&& forall|k: int|
            r < k < s.len() && #[trigger] s[k].is_keyframe ==> !spec_keyframes_upto_before(
                s,
                k,
                t,
            )
    }
}

/// The first keyframe at or after index `i`.
pub open spec fn spec_first_keyframe_at_or_after(s: Seq<TsChunk>, i: int) -> Option<int>
    decreases s.len() - i,
{
    if i < 0 || i >= s.len() {
        None
    } else if s[i].is_keyframe {
        Some(i)
    } else {
        spec_first_keyframe_at_or_after(s, i + 1)
    }
}

/// The last keyframe strictly before index `i`.
pub open spec fn spec_last_keyframe_before(s: Seq<TsChunk>, i: int) -> Option<int>
    decreases i,
{
    if i <= 0 || i > s.len() {
        None
    } else if s[i - 1].is_keyframe {
        Some(i - 1)
    } else {
        spec_last_keyframe_before(s, i - 1)
    }
}

/// The start index moved onto a keyframe: the first keyframe at or after
/// `raw`, else the last one before it, else `raw` itself.
pub open spec fn spec_aligned_start(s: Seq<TsChunk>, raw: int) -> int {
    match spec_first_keyframe_at_or_after(s, raw) {
        Some(k) => k,
        None => match spec_last_keyframe_before(s, raw) {
            Some(k) => k,
            None => raw,
        },
    }
}

/// The time from which a cut of `target` nanoseconds ending at the newest
/// chunk starts (the oldest chunk's time when `target` reaches before zero).
pub open spec fn spec_target_start(s: Seq<TsChunk>, target: u64) -> u64 {
    if target <= s.last().timestamp {
        (s.last().timestamp - target) as u64
    } else {
        s[0].timestamp
    }
}

/// What a cut of `target` nanoseconds from a nonempty buffer holds.
pub open spec fn spec_extract_matches(s: Seq<TsChunk>, target: u64, e: ExtractedVideo) -> bool {
    exists|raw: int|
        spec_is_raw_start(s, spec_target_start(s, target), raw) && {
            let st = spec_aligned_start(s, raw);
            let first = s[st].timestamp;
            let end = if s.last().timestamp >= first {
                s.last().timestamp
            } else {
                first
            };
            &&& e.data@ == spec_concat_data(s.subrange(st, s.len() as int))
            &&& e.start_ts == first
            &&& e.end_ts == end
            &&& e.duration_nanos == (if end - first >= MIN_EXTRACT_DURATION_NANOS {
                (end - first) as u64
            } else {
                MIN_EXTRACT_DURATION_NANOS
            })
        }
}

// ─── The buffer ─────────────────────────────────────────────────────────────

/// Whether chunk timestamps never decrease from oldest to newest.
pub open spec fn spec_ts_sorted(s: Seq<TsChunk>) -> bool {
    forall|i: int, j: int| 0 <= i <= j < s.len() ==> s[i].timestamp <= s[j].timestamp
}

/// Byte-bounded FIFO of transport-stream chunks.
pub struct InMemoryVideoBuffer {
    pub chunks: VecDeque<TsChunk>,
    pub max_bytes: usize,
    pub current_bytes: usize,
    pub clock: MonotonicClock,
}

impl InMemoryVideoBuffer {
    /// The buffer's consistency: the byte count matches the chunks, stays
    /// within the limit, and every keyframe flag agrees with its payload.
    pub open spec fn wf(&self) -> bool {
        &&& self.current_bytes == spec_total_bytes(self.chunks@)
        &&& self.current_bytes <= self.max_bytes
        &&& forall|i: int| 0 <= i < self.chunks@.len() ==> spec_chunk_flag_ok(#[trigger] self.chunks@[i])
    }

    /// An empty buffer holding at most `max_bytes` bytes.
    pub fn new(max_bytes: usize) -> (r: Self)
        ensures
            r.wf(),
            r.chunks@.len() == 0,
            spec_ts_sorted(r.chunks@),
            r.max_bytes == max_bytes,
            r.current_bytes == 0,
    {
        InMemoryVideoBuffer {
            chunks: VecDeque::with_capacity(4096),
            max_bytes,
            current_bytes: 0,
            clock: MonotonicClock::start(),
        }
    }

    /// The clock the chunk timestamps are read from.
    pub fn clock(&self) -> (c: MonotonicClock)
        ensures
            c == self.clock,
    {
        self.clock
    }

    /// Appends a chunk stamped with the current time (see `push_chunk_at`).
    /// The clock never runs backwards, so the stamp is never earlier than
    /// the newest stored chunk's; should a stored chunk carry a later time
    /// (one stored by other means), the new chunk takes that time, so that
    /// stamps stay in arrival order.
    pub fn push_chunk(&mut self, data: Vec<u8>)
        requires
            old(self).wf(),
        ensures
            spec_ts_sorted(old(self).chunks@) ==> spec_ts_sorted(final(self).chunks@),
            data@.len() > 0 && data@.len() <= old(self).max_bytes && old(self).chunks@.len() > 0
                ==> final(self).chunks@.last().timestamp >= old(self).chunks@.last().timestamp,
            data@.len() > 0 && data@.len() <= old(self).max_bytes && spec_ts_sorted(old(self).chunks@)
                ==> forall|i: int| 0 <= i < old(self).chunks@.len() ==> #[trigger] old(self).chunks@[i].timestamp
                <= final(self).chunks@.last().timestamp,
            final(self).wf(),
            final(self).max_bytes == old(self).max_bytes,
            data@.len() == 0 || data@.len() > old(self).max_bytes ==> final(self).chunks@
                == old(self).chunks@,
            data@.len() > 0 && data@.len() <= old(self).max_bytes ==> {
                let k = spec_evict_count(old(self).chunks@, data@.len(), old(self).max_bytes as nat);
                &&& final(self).chunks@.len() == old(self).chunks@.len() - k + 1
                &&& final(self).chunks@.subrange(0, final(self).chunks@.len() - 1)
                    == old(self).chunks@.subrange(k as int, old(self).chunks@.len() as int)
                &&& final(self).chunks@.last().data@ == data@
                &&& final(self).chunks@.last().is_keyframe == (spec_first_keyframe_from(data@, 0) is Some)
            },
    {
        let ghost d = data@;
        let reading = self.clock.now_nanos();
        let n = self.chunks.len();
        let now = if n > 0 && self.chunks[n - 1].timestamp > reading {
            self.chunks[n - 1].timestamp
        } else {
            reading
        };
        self.push_chunk_at(data, now);
        proof {
            lemma_evict_le(old(self).chunks@, d.len(), old(self).max_bytes as nat);
            if d.len() > 0 && d.len() <= old(self).max_bytes {
                let o = old(self).chunks@;
                let k = spec_evict_count(o, d.len(), old(self).max_bytes as nat);
                let f = self.chunks@;
                if spec_ts_sorted(o) {
                    assert forall|i: int, j: int| 0 <= i <= j < f.len() implies f[i].timestamp
                        <= f[j].timestamp by {
                        if j < f.len() - 1 {
                            assert(f[i] == o[i + k]);
                            assert(f[j] == o[j + k]);
                        } else if i < f.len() - 1 {
                            assert(f[i] == o[i + k]);
                        }
                    }
                }
            }
        }
    }

    /// Appends a copy of `bytes` stamped with the current time.
    pub fn push_bytes(&mut self, bytes: &[u8])
        requires
            old(self).wf(),
        ensures
            spec_ts_sorted(old(self).chunks@) ==> spec_ts_sorted(final(self).chunks@),
            bytes@.len() > 0 && bytes@.len() <= old(self).max_bytes && old(self).chunks@.len() > 0
                ==> final(self).chunks@.last().timestamp >= old(self).chunks@.last().timestamp,
            bytes@.len() > 0 && bytes@.len() <= old(self).max_bytes && spec_ts_sorted(old(self).chunks@)
                ==> forall|i: int| 0 <= i < old(self).chunks@.len() ==> #[trigger] old(self).chunks@[i].timestamp
                <= final(self).chunks@.last().timestamp,
            final(self).wf(),
            final(self).max_bytes == old(self).max_bytes,
            bytes@.len() == 0 || bytes@.len() > old(self).max_bytes ==> final(self).chunks@
                == old(self).chunks@,
            bytes@.len() > 0 && bytes@.len() <= old(self).max_bytes ==> {
                let k = spec_evict_count(old(self).chunks@, bytes@.len(), old(self).max_bytes as nat);
                &&& final(self).chunks@.len() == old(self).chunks@.len() - k + 1
                &&& final(self).chunks@.subrange(0, final(self).chunks@.len() - 1)
                    == old(self).chunks@.subrange(k as int, old(self).chunks@.len() as int)
                &&& final(self).chunks@.last().data@ == bytes@
                &&& final(self).chunks@.last().is_keyframe == (spec_first_keyframe_from(bytes@, 0) is Some)
            },
    {
        self.push_chunk(vstd::slice::slice_to_vec(bytes));
    }

    /// Appends a chunk that arrived at `now`. Empty chunks and chunks larger
    /// than the whole buffer are ignored; otherwise the oldest chunks are
    /// dropped until the new one fits, and it is appended with its keyframe
    /// flag.
    pub fn push_chunk_at(&mut self, data: Vec<u8>, now: u64)
        requires
            old(self).wf(),
        ensures
            final(self).wf(),
            final(self).max_bytes == old(self).max_bytes,
            data@.len() == 0 || data@.len() > old(self).max_bytes ==> final(self).chunks@
                == old(self).chunks@,
            data@.len() > 0 && data@.len() <= old(self).max_bytes ==> final(self).chunks@
                == old(self).chunks@.subrange(
                spec_evict_count(old(self).chunks@, data@.len(), old(self).max_bytes as nat) as int,
                old(self).chunks@.len() as int,
            ).push(
                (TsChunk {
                    data: data,
                    timestamp: now,
                    is_keyframe: spec_first_keyframe_from(data@, 0) is Some,
                }),
            ),
    {
        let len = data.len();
        if len == 0 || len > self.max_bytes {
            return;
        }
        let ghost orig = self.chunks@;
        let ghost max = self.max_bytes as nat;
        let ghost mut k: int = 0;
        while self.current_bytes > self.max_bytes - len
            invariant
                len == data@.len(),
                0 < len <= self.max_bytes,
                max == self.max_bytes,
                0 <= k <= orig.len(),
                self.chunks@ == orig.subrange(k, orig.len() as int),
                self.current_bytes == spec_total_bytes(self.chunks@),
                self.current_bytes <= self.max_bytes,
                spec_evict_count(orig, len as nat, max) == k + spec_evict_count(
                    self.chunks@,
                    len as nat,
                    max,
                ),
                forall|i: int|
                    0 <= i < self.chunks@.len() ==> spec_chunk_flag_ok(#[trigger] self.chunks@[i]),
            decreases self.chunks@.len(),
        {
            let ghost before = self.chunks@;
            proof {
                if before.len() == 0 {
                    assert(spec_total_bytes(before) == 0);
                }
                lemma_total_front(before);
                assert(before.subrange(1, before.len() as int) == orig.subrange(
                    k + 1,
                    orig.len() as int,
                ));
                k = k + 1;
            }
            let front = self.chunks.pop_front().unwrap();
            self.current_bytes = self.current_bytes - front.data.len();
        }
        proof {
            assert(spec_evict_count(self.chunks@, len as nat, max) == 0);
        }
        let is_key = is_ts_keyframe(data.as_slice());
        let chunk = TsChunk { data, timestamp: now, is_keyframe: is_key };
        proof {
            lemma_total_push(self.chunks@, chunk);
        }
        self.current_bytes = self.current_bytes + len;
        self.chunks.push_back(chunk);
    }

    /// Index of the keyframe at which a cut for target time `t` provisionally begins.
    fn raw_start_index(&self, t: u64) -> (r: usize)
        requires
            self.chunks@.len() > 0,
        ensures
            spec_is_raw_start(self.chunks@, t, r as int),
            r < self.chunks@.len(),
    {
        let ghost s = self.chunks@;
        if t <= self.chunks[0].timestamp {
            return 0;
        }
        let n = self.chunks.len();
        let mut best: usize = 0;
        let mut found = false;
        let mut idx: usize = 0;
        while idx < n
            invariant
                n == s.len(),
                s == self.chunks@,
                idx <= n,
                best < n,
                t > s[0].timestamp,
                spec_keyframes_upto_before(s, idx - 1, t),
                found ==> best < idx && s[best as int].is_keyframe,
                found ==> forall|k: int| best < k < idx ==> !(#[trigger] s[k].is_keyframe),
                !found ==> best == 0 && forall|k: int| 0 <= k < idx ==> !(#[trigger] s[k].is_keyframe),
            decreases n - idx,
        {
            let c = &self.chunks[idx];
            if c.is_keyframe {
                if c.timestamp <= t {
                    best = idx;
                    found = true;
                } else {
                    proof {
                        assert forall|k: int|
                            best < k < s.len() && #[trigger] s[k].is_keyframe implies !spec_keyframes_upto_before(
                            s,
                            k,
                            t,
                        ) by {
                            if k >= idx {
                                assert(s[idx as int].is_keyframe);
                            } else {
                                assert(found);
                            }
                        }
                        if found {
                            assert(spec_keyframes_upto_before(s, best as int, t));
                            assert(s[best as int].is_keyframe);
                            assert(t > s[0].timestamp);
                            assert(spec_is_raw_start(s, t, best as int));
                        } else {
                            assert forall|k: int|
                                0 <= k < s.len() && #[trigger] s[k].is_keyframe implies !spec_keyframes_upto_before(
                                s,
                                k,
                                t,
                            ) by {
                                if k >= idx {
                                    assert(s[idx as int].is_keyframe);
                                }
                            }
                        }
                    }
                    return best;
                }
            }
            idx = idx + 1;
        }
        proof {
            assert forall|k: int|
                0 <= k < s.len() && #[trigger] s[k].is_keyframe implies spec_keyframes_upto_before(
                s,
                k,
                t,
            ) by {}
        }
        best
    }

    /// The start index moved onto a keyframe (see `spec_aligned_start`).
    fn aligned_start_index(&self, raw: usize) -> (r: usize)
        requires
            raw < self.chunks@.len(),
        ensures
            r as int == spec_aligned_start(self.chunks@, raw as int),
            r < self.chunks@.len(),
    {
        let ghost s = self.chunks@;
        let n = self.chunks.len();
        let mut i = raw;
        while i < n
            invariant
                n == s.len(),
                s == self.chunks@,
                raw <= i <= n,
                spec_first_keyframe_at_or_after(s, raw as int) == spec_first_keyframe_at_or_after(
                    s,
                    i as int,
                ),
            decreases n - i,
        {
            if self.chunks[i].is_keyframe {
                return i;
            }
            i = i + 1;
        }
        let mut j = raw;
        while j > 0
            invariant
                n == s.len(),
                s == self.chunks@,
                j <= raw < n,
                spec_first_keyframe_at_or_after(s, raw as int) is None,
                spec_last_keyframe_before(s, raw as int) == spec_last_keyframe_before(s, j as int),
            decreases j,
        {
            if self.chunks[j - 1].is_keyframe {
                return j - 1;
            }
            j = j - 1;
        }
        raw
    }

    /// Cuts the newest `target_nanos` of video from a nonempty buffer: from the
    /// keyframe chosen by `spec_extract_matches` up to the newest chunk.
    pub fn extract_nonempty(&self, target_nanos: u64) -> (r: ExtractedVideo)
        requires
            self.chunks@.len() > 0,
        ensures
            spec_extract_matches(self.chunks@, target_nanos, r),
    {
        let ghost s = self.chunks@;
        let n = self.chunks.len();
        let earliest = self.chunks[0].timestamp;
        let last = self.chunks[n - 1].timestamp;
        let target_start = if target_nanos <= last {
            last - target_nanos
        } else {
            earliest
        };
        let raw = self.raw_start_index(target_start);
        let start = self.aligned_start_index(raw);
        let first_ts = self.chunks[start].timestamp;
        let end_ts = if last >= first_ts {
            last
        } else {
            first_ts
        };
        let span = end_ts - first_ts;
        let duration = if span >= MIN_EXTRACT_DURATION_NANOS {
            span
        } else {
            MIN_EXTRACT_DURATION_NANOS
        };
        let mut out: Vec<u8> = Vec::new();
        let mut i = start;
        while i < n
            invariant
                n == s.len(),
                s == self.chunks@,
                start <= i <= n,
                out@ == spec_concat_data(s.subrange(start as int, i as int)),
            decreases n - i,
        {
            let ghost prev = out@;
            out.extend_from_slice(self.chunks[i].data.as_slice());
            proof {
                assert(out@ =~= prev + s[i as int].data@);
                assert(s.subrange(start as int, i + 1) == s.subrange(start as int, i as int).push(
                    s[i as int],
                ));
                lemma_concat_push(s.subrange(start as int, i as int), s[i as int]);
            }
            i = i + 1;
        }
        let r = ExtractedVideo { data: out, start_ts: first_ts, end_ts, duration_nanos: duration };
        assert(spec_is_raw_start(s, spec_target_start(s, target_nanos), raw as int));
        r
    }

    /// Cuts the newest `target_nanos` of video (see `extract_nonempty`); an
    /// empty buffer yields no bytes, a zero duration and the current time.
    pub fn extract(&self, target_nanos: u64) -> (r: ExtractedVideo)
        ensures
            self.chunks@.len() == 0 ==> r.data@.len() == 0 && r.duration_nanos == 0 && r.start_ts
                == r.end_ts,
            self.chunks@.len() > 0 ==> spec_extract_matches(self.chunks@, target_nanos, r),
    {
        if self.chunks.len() == 0 {
            let now = self.clock.now_nanos();
            return ExtractedVideo { data: Vec::new(), start_ts: now, end_ts: now, duration_nanos: 0 };
        }
        self.extract_nonempty(target_nanos)
    }

    /// Stored bytes, byte limit, time span between the oldest and newest chunk
    /// (zero when the newest is older, or when empty) and chunk count.
    pub fn stats(&self) -> (r: (usize, usize, u64, usize))
        ensures
            r.0 == self.current_bytes,
            r.1 == self.max_bytes,
            r.3 == self.chunks@.len(),
            r.2 == (if self.chunks@.len() > 0 && self.chunks@.last().timestamp
                >= self.chunks@[0].timestamp {
                (self.chunks@.last().timestamp - self.chunks@[0].timestamp) as u64
            } else {
                0u64
            }),
    {
        let n = self.chunks.len();
        let span = if n > 0 && self.chunks[n - 1].timestamp >= self.chunks[0].timestamp {
            self.chunks[n - 1].timestamp - self.chunks[0].timestamp
        } else {
            0
        };
        (self.current_bytes, self.max_bytes, span, n)
    }
}

// ─── Properties ─────────────────────────────────────────────────────────────

proof fn lemma_first_keyframe_at_or_after(s: Seq<TsChunk>, i: int)
    requires
        0 <= i,
    ensures
        spec_first_keyframe_at_or_after(s, i) matches Some(k) ==> i <= k < s.len()
            && s[k].is_keyframe,
        spec_first_keyframe_at_or_after(s, i) is None ==> forall|k: int|
            i <= k < s.len() ==> !#[trigger] s[k].is_keyframe,
    decreases s.len() - i,
{
    if i < s.len() && !s[i].is_keyframe {
        lemma_first_keyframe_at_or_after(s, i + 1);
    }
}

proof fn lemma_last_keyframe_before(s: Seq<TsChunk>, i: int)
    requires
        i <= s.len(),
    ensures
        spec_last_keyframe_before(s, i) matches Some(k) ==> 0 <= k < i && s[k].is_keyframe,
        spec_last_keyframe_before(s, i) is None ==> forall|k: int|
            0 <= k < i ==> !#[trigger] s[k].is_keyframe,
    decreases i,
{
    if i > 0 && !s[i - 1].is_keyframe {
        lemma_last_keyframe_before(s, i - 1);
    }
}

/// Whenever the buffer holds a keyframe chunk, every cut begins with a
/// keyframe chunk: the bytes of a cut are the payloads of the chunks from a
/// keyframe chunk to the newest chunk.
pub proof fn lemma_extract_starts_at_keyframe(s: Seq<TsChunk>, target: u64, e: ExtractedVideo)
    requires
        s.len() > 0,
        spec_extract_matches(s, target, e),
        exists|k: int| 0 <= k < s.len() && #[trigger] s[k].is_keyframe,
    ensures
        exists|st: int|
            0 <= st < s.len() && #[trigger] s[st].is_keyframe && e.data@ == spec_concat_data(
                s.subrange(st, s.len() as int),
            ) && e.start_ts == s[st].timestamp,
{
    let raw = choose|raw: int| spec_is_raw_start(s, spec_target_start(s, target), raw);
    assert(0 <= raw < s.len());
    lemma_first_keyframe_at_or_after(s, raw);
    lemma_last_keyframe_before(s, raw);
    let st = spec_aligned_start(s, raw);
    let k = choose|k: int| 0 <= k < s.len() && #[trigger] s[k].is_keyframe;
    if spec_first_keyframe_at_or_after(s, raw) is None && spec_last_keyframe_before(s, raw) is None {
        if k >= raw {
        } else {
        }
        assert(false);
    }
    assert(s[st].is_keyframe);
}

proof fn lemma_raw_start_unique(s: Seq<TsChunk>, t: u64, r1: int, r2: int)
    requires
        s.len() > 0,
        spec_is_raw_start(s, t, r1),
        spec_is_raw_start(s, t, r2),
    ensures
        r1 == r2,
{
    if !(t <= s[0].timestamp || !(exists|k: int|
        0 <= k < s.len() && #[trigger] s[k].is_keyframe && spec_keyframes_upto_before(s, k, t))) {
        if r1 < r2 {
            assert(s[r2].is_keyframe);
        } else if r2 < r1 {
            assert(s[r1].is_keyframe);
        }
    }
}

/// A cut depends on the buffer and the target alone: two cuts of the same
/// target from the same buffer hold the same bytes, times and duration.
pub proof fn lemma_extract_deterministic(s: Seq<TsChunk>, target: u64, e1: ExtractedVideo, e2: ExtractedVideo)
    requires
        s.len() > 0,
        spec_extract_matches(s, target, e1),
        spec_extract_matches(s, target, e2),
    ensures
        e1.data@ == e2.data@,
        e1.start_ts == e2.start_ts,
        e1.end_ts == e2.end_ts,
        e1.duration_nanos == e2.duration_nanos,
{
    let t = spec_target_start(s, target);
    let r1 = choose|raw: int|
        spec_is_raw_start(s, t, raw) && {
            let st = spec_aligned_start(s, raw);
            let first = s[st].timestamp;
            let end = if s.last().timestamp >= first {
                s.last().timestamp
            } else {
                first
            };
            &&& e1.data@ == spec_concat_data(s.subrange(st, s.len() as int))
            &&& e1.start_ts == first
            &&& e1.end_ts == end
            &&& e1.duration_nanos == (if end - first >= MIN_EXTRACT_DURATION_NANOS {
                (end - first) as u64
            } else {
                MIN_EXTRACT_DURATION_NANOS
            })
        };
    let r2 = choose|raw: int|
        spec_is_raw_start(s, t, raw) && {
            let st = spec_aligned_start(s, raw);
            let first = s[st].timestamp;
            let end = if s.last().timestamp >= first {
                s.last().timestamp
            } else {
                first
            };
            &&& e2.data@ == spec_concat_data(s.subrange(st, s.len() as int))
            &&& e2.start_ts == first
            &&& e2.end_ts == end
            &&& e2.duration_nanos == (if end - first >= MIN_EXTRACT_DURATION_NANOS {
                (end - first) as u64
            } else {
                MIN_EXTRACT_DURATION_NANOS
            })
        };
    lemma_raw_start_unique(s, t, r1, r2);
}

/// Where a cut for target time `t` begins when the chunks arrived in order:
/// the newest keyframe chunk that arrived by `t`, when `t` is after the
/// oldest chunk and such a keyframe exists; otherwise the oldest keyframe
/// chunk, or the oldest chunk when there is no keyframe.
pub open spec fn spec_is_cut_start(s: Seq<TsChunk>, t: u64, st: int) -> bool {
    if t > s[0].timestamp && exists|k: int|
        0 <= k < s.len() && #[trigger] s[k].is_keyframe && s[k].timestamp <= t {
        &&& 0 <= st < s.len()
        &&& s[st].is_keyframe
        &&& s[st].timestamp <= t
        &&& forall|k: int| st < k < s.len() && #[trigger] s[k].is_keyframe ==> s[k].timestamp > t
    } else {
        match spec_first_keyframe_at_or_after(s, 0) {
            Some(k) => st == k,
            None => st == 0,
        }
    }
}

/// For chunks stored in arrival order, a cut of `target` nanoseconds begins
/// at the newest keyframe that arrived by the target time (the newest
/// chunk's time less `target`), or at the oldest keyframe when the target
/// time is not after the oldest chunk or no keyframe arrived by it, or at the
/// oldest chunk when there is no keyframe (see `spec_is_cut_start`); the cut
/// holds the payloads from there to the newest chunk.
pub proof fn lemma_extract_cut_start(s: Seq<TsChunk>, target: u64, e: ExtractedVideo)
    requires
        s.len() > 0,
        spec_ts_sorted(s),
        spec_extract_matches(s, target, e),
    ensures
        exists|st: int|
            spec_is_cut_start(s, spec_target_start(s, target), st) && 0 <= st < s.len()
                && e.data@ == spec_concat_data(s.subrange(st, s.len() as int))
                && e.start_ts == s[st].timestamp,
{
    let t = spec_target_start(s, target);
    let r = choose|raw: int|
        spec_is_raw_start(s, t, raw) && {
            let st = spec_aligned_start(s, raw);
            let first = s[st].timestamp;
            let end = if s.last().timestamp >= first {
                s.last().timestamp
            } else {
                first
            };
            &&& e.data@ == spec_concat_data(s.subrange(st, s.len() as int))
            &&& e.start_ts == first
            &&& e.end_ts == end
            &&& e.duration_nanos == (if end - first >= MIN_EXTRACT_DURATION_NANOS {
                (end - first) as u64
            } else {
                MIN_EXTRACT_DURATION_NANOS
            })
        };
    let st = spec_aligned_start(s, r);
    assert(0 <= r < s.len());
    lemma_first_keyframe_at_or_after(s, r);
    lemma_last_keyframe_before(s, r);
    lemma_first_keyframe_at_or_after(s, 0);
    let raw_cond = t <= s[0].timestamp || !(exists|k: int|
        0 <= k < s.len() && #[trigger] s[k].is_keyframe && spec_keyframes_upto_before(s, k, t));
    let cut_cond = t > s[0].timestamp && exists|k: int|
        0 <= k < s.len() && #[trigger] s[k].is_keyframe && s[k].timestamp <= t;
    if cut_cond {
        let k = choose|k: int| 0 <= k < s.len() && #[trigger] s[k].is_keyframe && s[k].timestamp <= t;
        assert(spec_keyframes_upto_before(s, k, t));
    }
    if !raw_cond {
        let k = choose|k: int|
            0 <= k < s.len() && #[trigger] s[k].is_keyframe && spec_keyframes_upto_before(s, k, t);
        assert(s[k].timestamp <= t);
    }
    if raw_cond {
        assert(r == 0);
        assert(!cut_cond);
        assert(spec_last_keyframe_before(s, 0) is None);
    } else {
        assert(cut_cond);
        assert(s[r].is_keyframe);
        assert(spec_first_keyframe_at_or_after(s, r) == Some(r));
        assert(st == r);
        assert(s[r].timestamp <= t);
        assert forall|k: int| r < k < s.len() && #[trigger] s[k].is_keyframe implies s[k].timestamp > t by {
            assert(!spec_keyframes_upto_before(s, k, t));
            let m = choose|m: int| 0 <= m <= k && #[trigger] s[m].is_keyframe && !(s[m].timestamp <= t);
            assert(s[m].timestamp <= s[k].timestamp);
        }
    }
    assert(spec_is_cut_start(s, t, st));
    assert(0 <= st < s.len());
    assert(e.data@ == spec_concat_data(s.subrange(st, s.len() as int)));
    assert(e.start_ts == s[st].timestamp);
}

} // verus!
