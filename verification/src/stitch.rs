//! Placement of an audio track's stored pieces into a window of samples.
//! Each piece lands where its arrival time puts it; a piece that arrives
//! within the jitter tolerance of where the previous one ended is joined to
//! it, a piece that would overlap what is already written loses its
//! overlapping front, and the gaps keep the silence the window starts with.
//!
//! Where each piece would land is worked out from the clock by the caller
//! and handed in as a `StitchPlan` per stored piece.
use vstd::prelude::*;
use crate::audio_track::{spec_chunk_view, AudioChunk, AudioChunkData, AudioTrack};

verus! {

/// How one stored piece enters the window.
#[derive(Clone, Copy)]
pub enum StitchPlan {
    /// Left out: it ends before the window, or holds nothing.
    Skip,
    /// It begins after the window: it and every later piece are left out.
    Stop,
    /// Its first `skip` samples fall before the window, and the rest would
    /// start at sample `dst` of the window.
    Place { skip: usize, dst: usize },
}

/// The smaller of two integers.
pub open spec fn spec_min(a: int, b: int) -> int {
    if a <= b {
        a
    } else {
        b
    }
}

/// Whether `a` lies within `tol` samples of `b`, on either side.
pub open spec fn spec_near(a: int, b: int, tol: int) -> bool {
    a <= b + tol && a + tol >= b
}

/// A cursor as a natural number.
pub open spec fn spec_cursor(c: Option<usize>) -> Option<nat> {
    match c {
        Some(x) => Some(x as nat),
        None => None,
    }
}

/// Where a piece of `len` samples, planned at (`skip`, `nominal`), is
/// written into a window of `out_len` samples when the previous piece ended
/// at `cursor`: the position in the window, the first sample of the piece
/// that is written and how many samples are written; `None` when nothing is.
pub open spec fn spec_placement(
    out_len: int,
    cursor: Option<nat>,
    len: int,
    skip: int,
    nominal: int,
    tol: int,
) -> Option<(int, int, int)> {
    let skip0 = spec_min(skip, len);
    let avail0 = len - skip0;
    if avail0 == 0 || nominal >= out_len {
        None
    } else {
        let p: (int, int, int) = match cursor {
            None => (nominal, skip0, avail0),
            Some(cur) => if spec_near(nominal, cur as int, tol) {
                (cur as int, skip0, avail0)
            } else if nominal > cur {
                (nominal, skip0, avail0)
            } else {
                let extra = spec_min(cur - nominal, avail0);
                (cur as int, skip0 + extra, avail0 - extra)
            },
        };
        if p.0 >= out_len || p.2 == 0 {
            None
        } else {
            Some((p.0, p.1, spec_min(p.2, out_len - p.0)))
        }
    }
}

/// The window and the cursor after placing the piece `c` (by value, see
/// `spec_chunk_view`). A silent piece writes nothing but moves the cursor.
pub open spec fn spec_place<S>(
    out: Seq<S>,
    cursor: Option<nat>,
    c: (bool, Seq<S>, nat, u64),
    skip: nat,
    nominal: nat,
    tol: nat,
) -> (Seq<S>, Option<nat>) {
    match spec_placement(out.len() as int, cursor, c.2 as int, skip as int, nominal as int, tol as int) {
        None => (out, cursor),
        Some(p) => (
            if c.0 {
                out
            } else {
                out.subrange(0, p.0) + c.1.subrange(p.1, p.1 + p.2) + out.subrange(p.0 + p.2, out.len() as int)
            },
            Some((p.0 + p.2) as nat),
        ),
    }
}

/// The window after the pieces from position `i` on have been placed by
/// their plans, starting from `out` and `cursor`.
pub open spec fn spec_stitch_from<S>(
    cs: Seq<(bool, Seq<S>, nat, u64)>,
    plans: Seq<StitchPlan>,
    i: int,
    out: Seq<S>,
    cursor: Option<nat>,
    tol: nat,
) -> Seq<S>
    decreases cs.len() - i,
{
    if i < 0 || i >= cs.len() || i >= plans.len() {
        out
    } else {
        match plans[i] {
            StitchPlan::Skip => spec_stitch_from(cs, plans, i + 1, out, cursor, tol),
            StitchPlan::Stop => out,
            StitchPlan::Place { skip, dst } => {
                let st = spec_place(out, cursor, cs[i], skip as nat, dst as nat, tol);
                spec_stitch_from(cs, plans, i + 1, st.0, st.1, tol)
            },
        }
    }
}

/// A window of `n` samples of silence.
pub open spec fn spec_silence<S>(n: nat, silence: S) -> Seq<S> {
    Seq::new(n, |_i: int| silence)
}

/// Where a piece is written (see `spec_placement`).
fn placement(
    out_len: usize,
    cursor: Option<usize>,
    len: usize,
    skip: usize,
    nominal: usize,
    tol: usize,
) -> (r: Option<(usize, usize, usize)>)
    ensures
        match spec_placement(out_len as int, spec_cursor(cursor), len as int, skip as int, nominal as int, tol as int) {
            None => r is None,
            Some(p) => r matches Some(q) && q.0 == p.0 && q.1 == p.1 && q.2 == p.2,
        },
        r matches Some(q) ==> q.0 + q.2 <= out_len && q.1 + q.2 <= len,
{
    let skip0 = if skip <= len {
        skip
    } else {
        len
    };
    let avail0 = len - skip0;
    if avail0 == 0 || nominal >= out_len {
        return None;
    }
    let mut from = skip0;
    let mut avail = avail0;
    let dst: usize = match cursor {
        None => nominal,
        Some(cur) => {
            let near = if nominal >= cur {
                nominal - cur <= tol
            } else {
                cur - nominal <= tol
            };
            if near {
                cur
            } else if nominal > cur {
                nominal
            } else {
                let gap = cur - nominal;
                let extra = if gap <= avail0 {
                    gap
                } else {
                    avail0
                };
                from = skip0 + extra;
                avail = avail0 - extra;
                cur
            }
        },
    };
    if dst >= out_len || avail == 0 {
        return None;
    }
    let take = if avail <= out_len - dst {
        avail
    } else {
        out_len - dst
    };
    Some((dst, from, take))
}

/// Overwrites `take` samples of `out` from position `dst` with those of `v`
/// from position `from`.
fn copy_into<S: Copy>(out: &mut Vec<S>, dst: usize, v: &Vec<S>, from: usize, take: usize)
    requires
        dst + take <= old(out)@.len(),
        from + take <= v@.len(),
    ensures
        final(out)@ == old(out)@.subrange(0, dst as int) + v@.subrange(from as int, from + take)
            + old(out)@.subrange(dst + take, old(out)@.len() as int),
{
    let ghost o = out@;
    let n = out.len();
    let vn = v.len();
    let mut k: usize = 0;
    while k < take
        invariant
            k <= take,
            n == o.len(),
            vn == v@.len(),
            dst + take <= n,
            from + take <= vn,
            out@ =~= o.subrange(0, dst as int) + v@.subrange(from as int, from + k) + o.subrange(
                dst + k,
                o.len() as int,
            ),
        decreases take - k,
    {
        out.set(dst + k, v[from + k]);
        k = k + 1;
    }
}

/// Places one piece (see `spec_place`) and returns the new cursor.
fn place_piece<S: Copy>(
    out: &mut Vec<S>,
    cursor: Option<usize>,
    chunk: &AudioChunk<S>,
    skip: usize,
    nominal: usize,
    tol: usize,
) -> (next: Option<usize>)
    ensures
        (final(out)@, spec_cursor(next)) == spec_place(
            old(out)@,
            spec_cursor(cursor),
            spec_chunk_view(*chunk),
            skip as nat,
            nominal as nat,
            tol as nat,
        ),
        final(out)@.len() == old(out)@.len(),
{
    let len = chunk.len();
    match placement(out.len(), cursor, len, skip, nominal, tol) {
        None => cursor,
        Some((dst, from, take)) => {
            match &chunk.data {
                AudioChunkData::Samples(v) => {
                    copy_into(out, dst, v, from, take);
                },
                AudioChunkData::Silence(_) => {},
            }
            Some(dst + take)
        },
    }
}

/// The track's pieces placed into a window of `out_len` samples of
/// `silence` by their plans (`plans[i]` for the `i`-th stored piece, oldest
/// first), joining pieces that arrive within `tolerance` samples of where
/// the previous one ended (see `spec_stitch_from`).
pub fn stitch<S: Copy>(
    track: &AudioTrack<S>,
    plans: &Vec<StitchPlan>,
    out_len: usize,
    tolerance: usize,
    silence: S,
) -> (r: Vec<S>)
    ensures
        r@ == spec_stitch_from(
            track.view_chunks(),
            plans@,
            0,
            spec_silence(out_len as nat, silence),
            None,
            tolerance as nat,
        ),
        r@.len() == out_len,
{
    let mut out: Vec<S> = Vec::new();
    let mut k: usize = 0;
    while k < out_len
        invariant
            k <= out_len,
            out@ =~= spec_silence(k as nat, silence),
        decreases out_len - k,
    {
        out.push(silence);
        k = k + 1;
    }
    let ghost cs = track.view_chunks();
    let ghost whole = spec_stitch_from(cs, plans@, 0, out@, None, tolerance as nat);
    let n = track.chunk_count();
    let mut cursor: Option<usize> = None;
    let mut done = false;
    let mut i: usize = 0;
    while !done && i < n && i < plans.len()
        invariant
            n == cs.len(),
            cs == track.view_chunks(),
            i <= n,
            out@.len() == out_len,
            whole == (if done {
                out@
            } else {
                spec_stitch_from(cs, plans@, i as int, out@, spec_cursor(cursor), tolerance as nat)
            }),
        decreases n - i,
    {
        match plans[i] {
            StitchPlan::Skip => {},
            StitchPlan::Stop => {
                done = true;
            },
            StitchPlan::Place { skip, dst } => {
                let chunk = track.chunk(i);
                cursor = place_piece(&mut out, cursor, chunk, skip, dst, tolerance);
            },
        }
        i = i + 1;
    }
    out
}

} // verus!
