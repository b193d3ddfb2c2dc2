//! The ring buffer of one audio stream: packets stored with their arrival
//! times, consecutive silence folded into one counted run, consecutive
//! sound coalesced into pieces of at most a tenth of a second, and the
//! oldest audio dropped once the track holds more samples than it keeps.
//!
//! The buffer is generic in the sample type; whether a packet is silence is
//! decided by the caller, from the sample values.
use vstd::prelude::*;
use std::collections::VecDeque;
use crate::audio_files::{spec_track_capacity, track_capacity};
use crate::video_buffer::MonotonicClock;
use crate::text::{chars_eq, chars_of};

verus! {

/// The contents of a stored piece of audio.
pub enum AudioChunkData<S> {
    /// Samples (interleaved over the channels).
    Samples(Vec<S>),
    /// A run of this many silent samples.
    Silence(usize),
}

/// A stored piece of audio with the arrival time of its last packet, in
/// nanoseconds on the capture clock.
pub struct AudioChunk<S> {
    pub data: AudioChunkData<S>,
    pub timestamp: u64,
}

/// The values of a chunk: whether it is silence, its samples (none for
/// silence), its length in samples and its timestamp.
pub open spec fn spec_chunk_view<S>(c: AudioChunk<S>) -> (bool, Seq<S>, nat, u64) {
    match c.data {
        AudioChunkData::Samples(v) => (false, v@, v@.len(), c.timestamp),
        AudioChunkData::Silence(n) => (true, Seq::empty(), n as nat, c.timestamp),
    }
}

impl<S> AudioChunk<S> {
    /// Length in samples.
    pub fn len(&self) -> (r: usize)
        ensures
            r == spec_chunk_view(*self).2,
    {
        match &self.data {
            AudioChunkData::Samples(v) => v.len(),
            AudioChunkData::Silence(n) => *n,
        }
    }

    /// Whether the chunk holds no samples.
    pub fn is_empty(&self) -> (r: bool)
        ensures
            r == (spec_chunk_view(*self).2 == 0),
    {
        self.len() == 0
    }
}

/// Total length in samples of a sequence of chunk values.
pub open spec fn spec_total<S>(cs: Seq<(bool, Seq<S>, nat, u64)>) -> nat
    decreases cs.len(),
{
    if cs.len() == 0 {
        0
    } else {
        cs[0].2 + spec_total(cs.subrange(1, cs.len() as int))
    }
}

proof fn lemma_total_push<S>(cs: Seq<(bool, Seq<S>, nat, u64)>, x: (bool, Seq<S>, nat, u64))
    ensures
        spec_total(cs.push(x)) == spec_total(cs) + x.2,
    decreases cs.len(),
{
    let p = cs.push(x);
    if cs.len() == 0 {
        assert(p.subrange(1, 1) =~= Seq::<(bool, Seq<S>, nat, u64)>::empty());
        assert(p[0] == x);
        assert(spec_total(p.subrange(1, 1)) == 0);
    } else {
        let t = cs.subrange(1, cs.len() as int);
        lemma_total_push(t, x);
        assert(p.subrange(1, p.len() as int) =~= t.push(x));
        assert(p[0] == cs[0]);
    }
}

proof fn lemma_total_update<S>(cs: Seq<(bool, Seq<S>, nat, u64)>, i: int, x: (bool, Seq<S>, nat, u64))
    requires
        0 <= i < cs.len(),
    ensures
        spec_total(cs.update(i, x)) + cs[i].2 == spec_total(cs) + x.2,
    decreases cs.len(),
{
    let u = cs.update(i, x);
    let t = cs.subrange(1, cs.len() as int);
    if i == 0 {
        assert(u.subrange(1, u.len() as int) =~= t);
    } else {
        lemma_total_update(t, i - 1, x);
        assert(u.subrange(1, u.len() as int) =~= t.update(i - 1, x));
    }
}

proof fn lemma_total_last<S>(cs: Seq<(bool, Seq<S>, nat, u64)>)
    requires
        cs.len() > 0,
    ensures
        spec_total(cs) == spec_total(cs.drop_last()) + cs.last().2,
{
    lemma_total_push(cs.drop_last(), cs.last());
    assert(cs.drop_last().push(cs.last()) =~= cs);
}

/// Samples per tenth of a second (at least one sample per second counted):
/// the longest piece that consecutive sound is coalesced into.
pub open spec fn spec_max_chunk(sample_rate: u32, channels: u16) -> nat {
    let spf = (sample_rate as nat) * (channels as nat);
    (if spf == 0 {
        1
    } else {
        spf
    }) / 10
}

/// The chunk values after a non-empty packet `data` arrived at `ts`: silence
/// extends a trailing silent run (any length); sound extends a trailing
/// piece of sound while the piece stays within `max_chunk` samples; anything
/// else starts a new chunk. The extended chunk takes the new timestamp.
pub open spec fn spec_append<S>(
    cs: Seq<(bool, Seq<S>, nat, u64)>,
    data: Seq<S>,
    silent: bool,
    ts: u64,
    max_chunk: nat,
) -> Seq<(bool, Seq<S>, nat, u64)> {
    if silent {
        if cs.len() > 0 && cs.last().0 {
            cs.update(cs.len() - 1, (true, Seq::empty(), cs.last().2 + data.len(), ts))
        } else {
            cs.push((true, Seq::empty(), data.len(), ts))
        }
    } else {
        if cs.len() > 0 && !cs.last().0 && cs.last().2 + data.len() <= max_chunk {
            cs.update(cs.len() - 1, (false, cs.last().1 + data, cs.last().2 + data.len(), ts))
        } else {
            cs.push((false, data, data.len(), ts))
        }
    }
}

/// The chunk values once `stored` samples are brought within `max`: oldest
/// chunks that fit in the excess are dropped; a silent run larger than the
/// excess is shortened by it; a piece of sound larger than the excess stops
/// the eviction and stays.
pub open spec fn spec_evict<S>(cs: Seq<(bool, Seq<S>, nat, u64)>, stored: nat, max: nat) -> Seq<
    (bool, Seq<S>, nat, u64),
>
    decreases cs.len(),
{
    if stored <= max || cs.len() == 0 {
        cs
    } else if cs[0].2 <= stored - max {
        spec_evict(cs.subrange(1, cs.len() as int), (stored - cs[0].2) as nat, max)
    } else if cs[0].0 {
        cs.update(0, (true, Seq::empty(), (cs[0].2 - (stored - max)) as nat, cs[0].3))
    } else {
        cs
    }
}

/// What eviction leaves: within the limit, or over it only by part of one
/// piece of sound at the front that eviction could not cut.
pub proof fn lemma_evict_bound<S>(cs: Seq<(bool, Seq<S>, nat, u64)>, stored: nat, max: nat)
    requires
        stored == spec_total(cs),
    ensures
        ({
            let r = spec_evict(cs, stored, max);
            spec_total(r) <= max || (r.len() > 0 && !r[0].0 && r[0].2 > spec_total(r) - max)
        }),
    decreases cs.len(),
{
    if stored <= max || cs.len() == 0 {
    } else if cs[0].2 <= stored - max {
        lemma_evict_bound(cs.subrange(1, cs.len() as int), (stored - cs[0].2) as nat, max);
    } else if cs[0].0 {
        let x = (true, Seq::<S>::empty(), (cs[0].2 - (stored - max)) as nat, cs[0].3);
        lemma_total_update(cs, 0, x);
    }
}

/// A count capped at the largest `usize`.
pub open spec fn spec_capped(n: nat) -> nat {
    if n > usize::MAX {
        usize::MAX as nat
    } else {
        n
    }
}

/// Bytes taken by one chunk: the chunk record itself, plus its samples.
pub open spec fn spec_chunk_bytes<S>(c: (bool, Seq<S>, nat, u64), sample_bytes: nat, chunk_bytes: nat) -> nat {
    if c.0 {
        chunk_bytes
    } else {
        c.2 * sample_bytes + chunk_bytes
    }
}

/// Bytes taken by a sequence of chunks.
pub open spec fn spec_memory<S>(cs: Seq<(bool, Seq<S>, nat, u64)>, sample_bytes: nat, chunk_bytes: nat) -> nat
    decreases cs.len(),
{
    if cs.len() == 0 {
        0
    } else {
        spec_memory(cs.drop_last(), sample_bytes, chunk_bytes) + spec_chunk_bytes(
            cs.last(),
            sample_bytes,
            chunk_bytes,
        )
    }
}

/// The ring buffer of one audio stream.
pub struct AudioTrack<S> {
    pub name: String,
    chunks: VecDeque<AudioChunk<S>>,
    pub sample_rate: u32,
    pub channels: u16,
    max_samples: usize,
    stored_samples: usize,
}

impl<S> AudioTrack<S> {
    /// The stored chunks, oldest first, by value.
    pub closed spec fn view_chunks(&self) -> Seq<(bool, Seq<S>, nat, u64)> {
        self.chunks@.map_values(|c: AudioChunk<S>| spec_chunk_view(c))
    }

    /// The track's name.
    pub closed spec fn track_name(&self) -> Seq<char> {
        self.name@
    }

    /// Sample rate and channel count of the stream.
    pub closed spec fn format(&self) -> (u32, u16) {
        (self.sample_rate, self.channels)
    }

    /// Samples the track keeps.
    pub closed spec fn max(&self) -> nat {
        self.max_samples as nat
    }

    /// Samples the track holds.
    pub closed spec fn stored(&self) -> nat {
        self.stored_samples as nat
    }

    /// The track's consistency: it holds as many samples as its chunks have.
    pub closed spec fn wf(&self) -> bool {
        self.stored_samples == spec_total(self.view_chunks())
    }

    /// An empty track of `name` keeping thirty seconds more than
    /// `max_seconds` of audio (see `spec_track_capacity`).
    pub fn new(name: String, sample_rate: u32, channels: u16, max_seconds: u32) -> (r: Self)
        requires
            spec_track_capacity(sample_rate, channels, max_seconds) <= usize::MAX,
            max_seconds + 30 <= usize::MAX,
        ensures
            r.wf(),
            r.track_name() == name@,
            r.format() == (sample_rate, channels),
            r.view_chunks() == Seq::<(bool, Seq<S>, nat, u64)>::empty(),
            r.stored() == 0,
            r.max() == spec_track_capacity(sample_rate, channels, max_seconds),
    {
        let max_samples = track_capacity(sample_rate, channels, max_seconds);
        let r = AudioTrack {
            name,
            chunks: VecDeque::new(),
            sample_rate,
            channels,
            max_samples,
            stored_samples: 0,
        };
        assert(r.view_chunks() =~= Seq::<(bool, Seq<S>, nat, u64)>::empty());
        r
    }

    /// Samples the track holds.
    pub fn stored_samples(&self) -> (r: usize)
        ensures
            r == self.stored(),
    {
        self.stored_samples
    }

    /// Samples the track keeps.
    pub fn max_samples(&self) -> (r: usize)
        ensures
            r == self.max(),
    {
        self.max_samples
    }

    /// Number of stored chunks.
    pub fn chunk_count(&self) -> (r: usize)
        ensures
            r == self.view_chunks().len(),
    {
        self.chunks.len()
    }

    /// The stored chunk at position `i` (oldest first).
    pub fn chunk(&self, i: usize) -> (r: &AudioChunk<S>)
        requires
            i < self.view_chunks().len(),
        ensures
            spec_chunk_view(*r) == self.view_chunks()[i as int],
    {
        &self.chunks[i]
    }
    /// Stores a non-empty packet of samples that arrived at `ts` (see
    /// `spec_append`; `silent` says whether the packet is silence), then
    /// drops the oldest audio while the track holds more than it keeps (see
    /// `spec_evict`). An empty packet changes nothing.
    pub fn push_chunk_with_timestamp(&mut self, data: Vec<S>, silent: bool, ts: u64)
        requires
            old(self).wf(),
            old(self).stored() + data@.len() <= usize::MAX,
        ensures
            final(self).wf(),
            final(self).track_name() == old(self).track_name(),
            final(self).format() == old(self).format(),
            final(self).max() == old(self).max(),
            data@.len() == 0 ==> final(self).view_chunks() == old(self).view_chunks(),
            data@.len() > 0 ==> final(self).view_chunks() == spec_evict(
                spec_append(
                    old(self).view_chunks(),
                    data@,
                    silent,
                    ts,
                    spec_max_chunk(old(self).format().0, old(self).format().1),
                ),
                old(self).stored() + data@.len(),
                old(self).max(),
            ),
            final(self).stored() == spec_total(final(self).view_chunks()),
            data@.len() > 0 ==> final(self).stored() <= final(self).max() || ({
                let r = final(self).view_chunks();
                r.len() > 0 && !r[0].0 && r[0].2 > final(self).stored() - final(self).max()
            }),
    {
        let n = data.len();
        if n == 0 {
            return;
        }
        let ghost v0 = self.view_chunks();
        let ghost d0 = data@;
        let ghost stored0 = self.stored_samples;
        let ghost mc = spec_max_chunk(self.sample_rate, self.channels);
        let ghost appended = spec_append(v0, d0, silent, ts, mc);
        let sr: u64 = self.sample_rate as u64;
        let ch: u64 = self.channels as u64;
        assert(sr * ch <= 0xffff_ffff_u64 * 0xffff_u64) by (nonlinear_arith)
            requires
                sr <= 0xffff_ffff_u64,
                ch <= 0xffff_u64,
        ;
        let spf: u64 = sr * ch;
        let max_chunk: u64 = (if spf == 0 {
            1
        } else {
            spf
        }) / 10;
        assert(max_chunk == mc);
        proof {
            if v0.len() > 0 {
                lemma_total_last(v0);
            }
        }
        let ghost q0 = self.chunks@;
        let last = self.chunks.pop_back();
        match last {
            Some(c) => {
                assert(v0.last() == spec_chunk_view(c));
                let AudioChunk { data: cdata, timestamp: cts } = c;
                match cdata {
                    AudioChunkData::Silence(count) => {
                        if silent {
                            self.chunks.push_back(
                                AudioChunk { data: AudioChunkData::Silence(count + n), timestamp: ts },
                            );
                        } else {
                            self.chunks.push_back(
                                AudioChunk { data: AudioChunkData::Silence(count), timestamp: cts },
                            );
                            self.chunks.push_back(
                                AudioChunk { data: AudioChunkData::Samples(data), timestamp: ts },
                            );
                        }
                    },
                    AudioChunkData::Samples(v) => {
                        if silent {
                            self.chunks.push_back(
                                AudioChunk { data: AudioChunkData::Samples(v), timestamp: cts },
                            );
                            self.chunks.push_back(
                                AudioChunk { data: AudioChunkData::Silence(n), timestamp: ts },
                            );
                        } else if (v.len() + n) as u64 <= max_chunk {
                            let mut v = v;
                            let mut d = data;
                            v.append(&mut d);
                            self.chunks.push_back(
                                AudioChunk { data: AudioChunkData::Samples(v), timestamp: ts },
                            );
                        } else {
                            self.chunks.push_back(
                                AudioChunk { data: AudioChunkData::Samples(v), timestamp: cts },
                            );
                            self.chunks.push_back(
                                AudioChunk { data: AudioChunkData::Samples(data), timestamp: ts },
                            );
                        }
                    },
                }
            },
            None => {
                if silent {
                    self.chunks.push_back(AudioChunk { data: AudioChunkData::Silence(n), timestamp: ts });
                } else {
                    self.chunks.push_back(AudioChunk { data: AudioChunkData::Samples(data), timestamp: ts });
                }
            },
        }
        proof {
            assert(self.view_chunks() =~= appended);
            if v0.len() > 0 && ((silent && v0.last().0) || (!silent && !v0.last().0 && v0.last().2
                + d0.len() <= mc)) {
                lemma_total_update(v0, v0.len() - 1, appended[v0.len() - 1]);
            } else {
                lemma_total_push(v0, appended.last());
                assert(appended =~= v0.push(appended.last()));
            }
        }
        self.stored_samples = self.stored_samples + n;
        proof {
            lemma_evict_bound(appended, (stored0 + n) as nat, self.max_samples as nat);
        }
        let ghost target = spec_evict(appended, (stored0 + n) as nat, self.max_samples as nat);
        let ghost name0 = self.name@;
        let ghost max0 = self.max_samples;
        let ghost fmt0 = (self.sample_rate, self.channels);
        loop
            invariant
                (self.sample_rate, self.channels) == fmt0,
                self.name@ == name0,
                self.max_samples == max0,
                self.stored_samples == spec_total(self.view_chunks()),
                spec_evict(self.view_chunks(), self.stored_samples as nat, self.max_samples as nat)
                    == target,
            ensures
                (self.sample_rate, self.channels) == fmt0,
                self.name@ == name0,
                self.max_samples == max0,
                self.view_chunks() == target,
                self.stored_samples == spec_total(self.view_chunks()),
            decreases self.chunks@.len(),
        {
            if self.stored_samples <= self.max_samples {
                break;
            }
            let ghost vb = self.view_chunks();
            let front = self.chunks.pop_front();
            match front {
                None => {
                    assert(vb.len() == 0);
                    assert(self.view_chunks() =~= vb);
                    break;
                },
                Some(c) => {
                    assert(vb[0] == spec_chunk_view(c));
                    assert(self.view_chunks() =~= vb.subrange(1, vb.len() as int));
                    let clen = c.len();
                    let excess = self.stored_samples - self.max_samples;
                    if clen <= excess {
                        self.stored_samples = self.stored_samples - clen;
                    } else {
                        let AudioChunk { data: cdata, timestamp: cts } = c;
                        match cdata {
                            AudioChunkData::Silence(count) => {
                                self.chunks.push_front(
                                    AudioChunk {
                                        data: AudioChunkData::Silence(count - excess),
                                        timestamp: cts,
                                    },
                                );
                                proof {
                                    let x = (true, Seq::<S>::empty(), (count - excess) as nat, cts);
                                    assert(self.view_chunks() =~= vb.update(0, x));
                                    lemma_total_update(vb, 0, x);
                                }
                                self.stored_samples = self.stored_samples - excess;
                            },
                            AudioChunkData::Samples(v) => {
                                self.chunks.push_front(
                                    AudioChunk { data: AudioChunkData::Samples(v), timestamp: cts },
                                );
                                assert(self.view_chunks() =~= vb);
                            },
                        }
                        break;
                    }
                },
            }
        }
    }

    /// Bytes the track's audio takes, counting `sample_bytes` per stored
    /// sample and `chunk_bytes` per chunk (see `spec_memory`), saturating at
    /// the largest `usize`.
    pub fn memory_bytes(&self, sample_bytes: usize, chunk_bytes: usize) -> (r: usize)
        ensures
            r == spec_capped(spec_memory(self.view_chunks(), sample_bytes as nat, chunk_bytes as nat)),
    {
        let ghost cs = self.view_chunks();
        let mut bytes: usize = 0;
        let mut i: usize = 0;
        assert(cs.subrange(0, 0) =~= Seq::<(bool, Seq<S>, nat, u64)>::empty());
        while i < self.chunks.len()
            invariant
                cs == self.view_chunks(),
                i <= cs.len(),
                bytes == spec_capped(spec_memory(cs.subrange(0, i as int), sample_bytes as nat, chunk_bytes as nat)),
            decreases cs.len() - i,
        {
            proof {
                assert(cs.subrange(0, i + 1).drop_last() =~= cs.subrange(0, i as int));
            }
            let c = &self.chunks[i];
            assert(spec_chunk_view(*c) == cs[i as int]);
            let cost: usize = match &c.data {
                AudioChunkData::Samples(v) => {
                    let m = match v.len().checked_mul(sample_bytes) {
                        Some(x) => x,
                        None => usize::MAX,
                    };
                    assert(m == spec_capped(v@.len() * (sample_bytes as nat)));
                    m.saturating_add(chunk_bytes)
                },
                AudioChunkData::Silence(_) => chunk_bytes,
            };
            assert(cost == spec_capped(spec_chunk_bytes(cs[i as int], sample_bytes as nat, chunk_bytes as nat)));
            bytes = bytes.saturating_add(cost);
            i = i + 1;
        }
        assert(cs.subrange(0, cs.len() as int) =~= cs);
        bytes
    }

    /// Stores a packet of samples arriving now on `clock` (see
    /// `push_chunk_with_timestamp`).
    pub fn push_samples(&mut self, data: Vec<S>, silent: bool, clock: &MonotonicClock)
        requires
            old(self).wf(),
            old(self).stored() + data@.len() <= usize::MAX,
        ensures
            final(self).wf(),
            final(self).track_name() == old(self).track_name(),
            final(self).format() == old(self).format(),
            final(self).max() == old(self).max(),
            data@.len() == 0 ==> final(self).view_chunks() == old(self).view_chunks(),
            data@.len() > 0 ==> exists|ts: u64|
                final(self).view_chunks() == spec_evict(
                    spec_append(
                        old(self).view_chunks(),
                        data@,
                        silent,
                        ts,
                        spec_max_chunk(old(self).format().0, old(self).format().1),
                    ),
                    old(self).stored() + data@.len(),
                    old(self).max(),
                ),
    {
        let ts = clock.now_nanos();
        self.push_chunk_with_timestamp(data, silent, ts);
    }
}

// ─── Spike markers ──────────────────────────────────────────────────────────

/// Loudness spikes closer than this (in nanoseconds) to the last recorded
/// one are not recorded.
pub const SPIKE_COOLDOWN_NANOS: u64 = 1_800_000_000;

/// The recorded spike times after dropping, from the oldest on, those more
/// than `max_age` before `now` (a time after `now` stops the dropping).
pub open spec fn spec_prune(s: Seq<u64>, now: u64, max_age: u64) -> Seq<u64>
    decreases s.len(),
{
    if s.len() > 0 && now >= s[0] && now - s[0] > max_age {
        spec_prune(s.subrange(1, s.len() as int), now, max_age)
    } else {
        s
    }
}

/// Whether a spike at `now` may be recorded after the last one at `last`:
/// none yet, or more than the cooldown earlier.
pub open spec fn spec_can_fire(last: Option<u64>, now: u64) -> bool {
    match last {
        None => true,
        Some(l) => now >= l && now - l > SPIKE_COOLDOWN_NANOS,
    }
}

/// The times of the loudness spikes detected on the microphone, in
/// nanoseconds on the capture clock, oldest first.
pub struct SpikeTimeline {
    pub last_spike: Option<u64>,
    pub spikes: VecDeque<u64>,
}

impl SpikeTimeline {
    /// No spikes yet.
    pub fn new() -> (r: Self)
        ensures
            r.last_spike is None,
            r.spikes@ == Seq::<u64>::empty(),
    {
        SpikeTimeline { last_spike: None, spikes: VecDeque::new() }
    }

    /// Drops the spikes more than `max_age` nanoseconds before `now` (see
    /// `spec_prune`).
    pub fn prune(&mut self, now: u64, max_age: u64)
        ensures
            final(self).spikes@ == spec_prune(old(self).spikes@, now, max_age),
            final(self).last_spike == old(self).last_spike,
    {
        loop
            invariant
                spec_prune(self.spikes@, now, max_age) == spec_prune(old(self).spikes@, now, max_age),
                self.last_spike == old(self).last_spike,
            ensures
                self.spikes@ == spec_prune(old(self).spikes@, now, max_age),
                self.last_spike == old(self).last_spike,
            decreases self.spikes@.len(),
        {
            if self.spikes.len() == 0 {
                break;
            }
            let front = self.spikes[0];
            if now >= front && now - front > max_age {
                self.spikes.pop_front();
            } else {
                break;
            }
        }
    }

    /// A spike detected at `now`: recorded, and `true` returned, unless the
    /// last recorded spike is within the cooldown.
    pub fn record(&mut self, now: u64) -> (fired: bool)
        ensures
            fired == spec_can_fire(old(self).last_spike, now),
            fired ==> final(self).last_spike == Some(now) && final(self).spikes@ == old(
                self,
            ).spikes@.push(now),
            !fired ==> final(self).last_spike == old(self).last_spike && final(self).spikes@ == old(
                self,
            ).spikes@,
    {
        let can_fire = match self.last_spike {
            None => true,
            Some(l) => now >= l && now - l > SPIKE_COOLDOWN_NANOS,
        };
        if can_fire {
            self.last_spike = Some(now);
            self.spikes.push_back(now);
        }
        can_fire
    }
}

// ─── Tracks of exited applications ─────────────────────────────────────────

/// Whether the engine keeps a track named `name` whose chunks are `cs`: the
/// system mix, the microphone and every track still being captured
/// (`registered`) are kept; the track of an application that has exited is
/// kept while its newest audio arrived no more than the buffer length plus
/// thirty seconds before `now` (nanoseconds on the capture clock).
pub open spec fn spec_keep_track<S>(
    name: Seq<char>,
    registered: bool,
    cs: Seq<(bool, Seq<S>, nat, u64)>,
    now: u64,
    buffer_length_secs: u32,
) -> bool {
    ||| name == "System"@
    ||| name == "Microphone"@
    ||| registered
    ||| (cs.len() > 0 && (if now >= cs.last().3 {
        now - cs.last().3
    } else {
        0
    }) <= (buffer_length_secs + 30) * 1_000_000_000)
}

/// Whether the engine keeps `track` (see `spec_keep_track`).
pub fn keep_track<S>(name: &str, registered: bool, track: &AudioTrack<S>, now: u64, buffer_length_secs: u32) -> (r: bool)
    ensures
        r == spec_keep_track(name@, registered, track.view_chunks(), now, buffer_length_secs),
{
    let n = chars_of(name);
    if chars_eq(n.as_slice(), chars_of("System").as_slice()) || chars_eq(
        n.as_slice(),
        chars_of("Microphone").as_slice(),
    ) || registered {
        return true;
    }
    let k = track.chunk_count();
    if k == 0 {
        return false;
    }
    let last = track.chunk(k - 1).timestamp;
    let age = if now >= last {
        now - last
    } else {
        0
    };
    let max_age: u64 = (buffer_length_secs as u64 + 30) * 1_000_000_000;
    age <= max_age
}

} // verus!
