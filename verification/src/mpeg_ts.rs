//! MPEG transport-stream inspection: locating random-access points (keyframes)
//! and presentation timestamps in a byte stream of 188-byte TS packets.
//!
//! The scanner resynchronises byte by byte until it sees the sync byte `0x47`;
//! once synchronised it advances packet by packet.
use vstd::prelude::*;

verus! {

/// Size of one MPEG transport-stream packet in bytes.
pub const TS_PACKET_SIZE: usize = 188;

/// Sync byte that opens every transport-stream packet.
pub const TS_SYNC_BYTE: u8 = 0x47;

// ─── Packet header fields ───────────────────────────────────────────────────

/// Payload-unit-start indicator of the packet starting at `i`.
pub open spec fn spec_pusi(b: Seq<u8>, i: int) -> bool {
    (b[i + 1] & 0x40u8) != 0
}

/// Adaptation-field-control bits of the packet starting at `i`.
pub open spec fn spec_adaptation_control(b: Seq<u8>, i: int) -> u8 {
    (b[i + 3] >> 4u8) & 0x03u8
}

/// Whether the packet starting at `i` carries an adaptation field.
pub open spec fn spec_has_adaptation(b: Seq<u8>, i: int) -> bool {
    spec_adaptation_control(b, i) == 2 || spec_adaptation_control(b, i) == 3
}

/// Offset of the payload relative to the packet start.
pub open spec fn spec_payload_rel(b: Seq<u8>, i: int) -> int {
    if spec_has_adaptation(b, i) {
        5 + b[i + 4]
    } else {
        4
    }
}

/// Random-access indicator of the adaptation field (false without one).
pub open spec fn spec_has_rai(b: Seq<u8>, i: int) -> bool {
    spec_has_adaptation(b, i) && b[i + 4] >= 1 && (b[i + 5] & 0x40u8) != 0
}

/// PES stream ids that carry video: 0xE0..=0xEF, 0xBD and 0xFD.
pub open spec fn spec_is_video_stream_id(id: u8) -> bool {
    (0xE0 <= id && id <= 0xEF) || id == 0xBD || id == 0xFD
}

/// Whether a NAL / OBU header byte opens a random-access point:
/// H.264 IDR, SPS or PPS; HEVC base-layer IDR, CRA, VPS, SPS or PPS;
/// AV1 sequence-header OBU.
pub open spec fn spec_is_keyframe_unit_header(h: u8) -> bool {
    &&& (h & 0x80u8) == 0
    &&& {
        ||| ((h & 0x1Fu8) == 5 || (h & 0x1Fu8) == 7 || (h & 0x1Fu8) == 8)
        ||| ((h & 1u8) == 0 && {
            let t = (h >> 1u8) & 0x3Fu8;
            t == 19 || t == 20 || t == 21 || t == 32 || t == 33 || t == 34
        })
        ||| ((h & 1u8) == 0 && ((h >> 3u8) & 0x0Fu8) == 1)
    }
}

/// The header byte that follows a 3- or 4-byte start code at `k`, where the
/// bytes considered end (exclusively) at `end`.
pub open spec fn spec_unit_header_at(b: Seq<u8>, k: int, end: int) -> Option<u8> {
    if b[k] == 0 && b[k + 1] == 0 && b[k + 2] == 1 {
        Some(b[k + 3])
    } else if k + 4 < end && b[k] == 0 && b[k + 1] == 0 && b[k + 2] == 0 && b[k + 3] == 1 {
        Some(b[k + 4])
    } else {
        None
    }
}

/// Whether a start code at `k` introduces a keyframe unit.
pub open spec fn spec_keyframe_unit_at(b: Seq<u8>, k: int, end: int) -> bool {
    match spec_unit_header_at(b, k, end) {
        Some(h) => spec_is_keyframe_unit_header(h),
        None => false,
    }
}

/// Start of the elementary-stream bytes of a PES packet whose header begins at
/// `po` inside the packet starting at `i`: video PES headers are skipped.
pub open spec fn spec_es_start(b: Seq<u8>, i: int, po: int) -> int {
    if spec_is_video_stream_id(b[po + 3]) && po + 9 <= b.len() {
        if po + 9 + b[po + 8] < i + 188 {
            po + 9 + b[po + 8]
        } else {
            i + 188
        }
    } else {
        po
    }
}

/// Whether the packet starting at `i` opens a PES packet whose elementary
/// stream bytes (within the packet) contain a keyframe unit header.
pub open spec fn spec_pes_has_keyframe_unit(b: Seq<u8>, i: int) -> bool {
    let po = i + spec_payload_rel(b, i);
    &&& po + 4 <= i + 188
    &&& b[po] == 0 && b[po + 1] == 0 && b[po + 2] == 1
    &&& exists|k: int|
        spec_es_start(b, i, po) <= k && k + 3 < i + 188 && #[trigger] spec_keyframe_unit_at(
            b,
            k,
            i + 188,
        )
}

/// Whether the packet starting at `i` is a random-access point.
pub open spec fn spec_packet_is_keyframe(b: Seq<u8>, i: int) -> bool {
    spec_pusi(b, i) && (spec_has_rai(b, i) || spec_pes_has_keyframe_unit(b, i))
}

/// Offset of the first keyframe packet found when scanning from `i`: the
/// scanner skips single bytes until a sync byte and then whole packets.
pub open spec fn spec_first_keyframe_from(b: Seq<u8>, i: int) -> Option<int>
    decreases b.len() - i,
{
    if i < 0 || i + 188 > b.len() {
        None
    } else if b[i] == 0x47 {
        if spec_packet_is_keyframe(b, i) {
            Some(i)
        } else {
            spec_first_keyframe_from(b, i + 188)
        }
    } else {
        spec_first_keyframe_from(b, i + 1)
    }
}

/// Presentation timestamp carried by a video PES header that starts in the
/// packet at `i`, if any.
pub open spec fn spec_packet_pts(b: Seq<u8>, i: int) -> Option<u64> {
    let po = i + spec_payload_rel(b, i);
    if spec_pusi(b, i) && po + 14 <= i + 188 && b[po] == 0 && b[po + 1] == 0 && b[po + 2] == 1
        && spec_is_video_stream_id(b[po + 3]) && {
        let f = (b[po + 7] >> 6u8) & 0x03u8;
        f == 2 || f == 3
    } {
        Some(spec_pts_value(b[po + 9], b[po + 10], b[po + 11], b[po + 12], b[po + 13]))
    } else {
        None
    }
}

/// The 33-bit PTS assembled from its five encoded bytes.
pub open spec fn spec_pts_value(b0: u8, b1: u8, b2: u8, b3: u8, b4: u8) -> u64 {
    (((b0 as u64) & 0x0Eu64) << 29u64) | (((b1 as u64) & 0xFFu64) << 22u64) | (((b2 as u64)
        & 0xFEu64) << 14u64) | (((b3 as u64) & 0xFFu64) << 7u64) | (((b4 as u64) & 0xFEu64)
        >> 1u64)
}

/// The first PTS found when scanning from `i`, with the same resynchronising
/// walk as the keyframe scan.
pub open spec fn spec_first_pts_from(b: Seq<u8>, i: int) -> Option<u64>
    decreases b.len() - i,
{
    if i < 0 || i + 188 > b.len() {
        None
    } else if b[i] == 0x47 {
        match spec_packet_pts(b, i) {
            Some(p) => Some(p),
            None => spec_first_pts_from(b, i + 188),
        }
    } else {
        spec_first_pts_from(b, i + 1)
    }
}

// ─── Executable parsing ─────────────────────────────────────────────────────

fn is_video_stream_id(id: u8) -> (r: bool)
    ensures
        r == spec_is_video_stream_id(id),
{
    (0xE0 <= id && id <= 0xEF) || id == 0xBD || id == 0xFD
}

fn is_keyframe_unit_header(h: u8) -> (r: bool)
    ensures
        r == spec_is_keyframe_unit_header(h),
{
    if (h & 0x80u8) != 0 {
        return false;
    }
    let h264 = h & 0x1Fu8;
    let is_h264_key = h264 == 5 || h264 == 7 || h264 == 8;
    let hevc = (h >> 1u8) & 0x3Fu8;
    let is_hevc_key = (h & 1u8) == 0 && (hevc == 19 || hevc == 20 || hevc == 21 || hevc == 32
        || hevc == 33 || hevc == 34);
    let is_av1_key = (h & 1u8) == 0 && ((h >> 3u8) & 0x0Fu8) == 1;
    is_h264_key || is_hevc_key || is_av1_key
}

/// Payload offset relative to the packet start and the random-access flag.
fn packet_payload_rel(bytes: &[u8], i: usize) -> (r: (usize, bool))
    requires
        i + 188 <= bytes@.len(),
    ensures
        r.0 == spec_payload_rel(bytes@, i as int),
        r.1 == spec_has_rai(bytes@, i as int),
        4 <= r.0 <= 260,
{
    let _len = bytes.len();
    let afc = (bytes[i + 3] >> 4u8) & 0x03u8;
    if afc == 2 || afc == 3 {
        let adapt_len = bytes[i + 4] as usize;
        let rai = adapt_len >= 1 && (bytes[i + 5] & 0x40u8) != 0;
        (5 + adapt_len, rai)
    } else {
        (4, false)
    }
}

/// Keyframe test for a single packet starting at `i`.
fn packet_is_keyframe(bytes: &[u8], i: usize) -> (r: bool)
    requires
        i + 188 <= bytes@.len(),
    ensures
        r == spec_packet_is_keyframe(bytes@, i as int),
{
    let ghost b = bytes@;
    let len = bytes.len();
    let pusi = (bytes[i + 1] & 0x40u8) != 0;
    let (rel, rai) = packet_payload_rel(bytes, i);
    if !pusi {
        return false;
    }
    if rai {
        return true;
    }
    if rel + 4 > TS_PACKET_SIZE {
        return false;
    }
    let po = i + rel;
    if !(bytes[po] == 0 && bytes[po + 1] == 0 && bytes[po + 2] == 1) {
        return false;
    }
    let end = i + TS_PACKET_SIZE;
    let sid = bytes[po + 3];
    let es = if is_video_stream_id(sid) && rel + 9 <= bytes.len() - i {
        let hdr_len = bytes[po + 8] as usize;
        if rel + 9 + hdr_len < TS_PACKET_SIZE {
            po + 9 + hdr_len
        } else {
            end
        }
    } else {
        po
    };
    assert(es == spec_es_start(b, i as int, po as int));
    let mut k = es;
    while end - k > 3
        invariant
            es <= k <= end,
            end == i + 188,
            po + 4 <= end,
            rel == spec_payload_rel(b, i as int),
            po == i + rel,
            b[po as int] == 0 && b[po + 1] == 0 && b[po + 2] == 1,
            spec_pusi(b, i as int),
            end <= b.len(),
            len == b.len(),
            b == bytes@,
            es == spec_es_start(b, i as int, po as int),
            forall|m: int|
                es <= m < k && m + 3 < end ==> !#[trigger] spec_keyframe_unit_at(b, m, end as int),
        decreases end - k,
    {
        let header = if bytes[k] == 0 && bytes[k + 1] == 0 && bytes[k + 2] == 1 {
            Some(bytes[k + 3])
        } else if k + 4 < end && bytes[k] == 0 && bytes[k + 1] == 0 && bytes[k + 2] == 0
            && bytes[k + 3] == 1 {
            Some(bytes[k + 4])
        } else {
            None
        };
        assert(header == spec_unit_header_at(b, k as int, end as int));
        if let Some(h) = header {
            if is_keyframe_unit_header(h) {
                assert(spec_keyframe_unit_at(b, k as int, end as int));
                assert(spec_pes_has_keyframe_unit(b, i as int));
                return true;
            }
        }
        k = k + 1;
    }
    false
}

/// Offset of the first transport-stream packet that is a random-access point
/// (adaptation-field random-access indicator, or an H.264/HEVC/AV1 keyframe
/// unit at the start of a video PES packet).
pub fn find_first_ts_keyframe_offset(bytes: &[u8]) -> (r: Option<usize>)
    ensures
        r matches Some(o) ==> spec_first_keyframe_from(bytes@, 0) == Some(o as int),
        r is None ==> spec_first_keyframe_from(bytes@, 0) is None,
{
    let len = bytes.len();
    let mut i: usize = 0;
    while i <= len && len - i >= TS_PACKET_SIZE
        invariant
            len == bytes@.len(),
            i <= len,
            spec_first_keyframe_from(bytes@, 0) == spec_first_keyframe_from(bytes@, i as int),
        decreases len - i,
    {
        if bytes[i] == TS_SYNC_BYTE {
            if packet_is_keyframe(bytes, i) {
                return Some(i);
            }
            i = i + TS_PACKET_SIZE;
        } else {
            i = i + 1;
        }
    }
    None
}

/// Whether the byte stream contains a keyframe packet.
pub fn is_ts_keyframe(bytes: &[u8]) -> (r: bool)
    ensures
        r == (spec_first_keyframe_from(bytes@, 0) is Some),
{
    find_first_ts_keyframe_offset(bytes).is_some()
}

/// PTS of the first video PES header found in the stream.
pub fn extract_ts_pts(bytes: &[u8]) -> (r: Option<u64>)
    ensures
        r == spec_first_pts_from(bytes@, 0),
{
    let len = bytes.len();
    let mut i: usize = 0;
    while i <= len && len - i >= TS_PACKET_SIZE
        invariant
            len == bytes@.len(),
            i <= len,
            spec_first_pts_from(bytes@, 0) == spec_first_pts_from(bytes@, i as int),
        decreases len - i,
    {
        if bytes[i] == TS_SYNC_BYTE {
            let pusi = (bytes[i + 1] & 0x40u8) != 0;
            let (rel, _rai) = packet_payload_rel(bytes, i);
            if pusi && rel + 14 <= TS_PACKET_SIZE {
                let po = i + rel;
                if bytes[po] == 0 && bytes[po + 1] == 0 && bytes[po + 2] == 1
                    && is_video_stream_id(bytes[po + 3]) {
                    let flags = (bytes[po + 7] >> 6u8) & 0x03u8;
                    if flags == 2 || flags == 3 {
                        let b0 = bytes[po + 9] as u64;
                        let b1 = bytes[po + 10] as u64;
                        let b2 = bytes[po + 11] as u64;
                        let b3 = bytes[po + 12] as u64;
                        let b4 = bytes[po + 13] as u64;
                        let pts: u64 = ((b0 & 0x0Eu64) << 29u64) | ((b1 & 0xFFu64) << 22u64) | ((
                        b2 & 0xFEu64) << 14u64) | ((b3 & 0xFFu64) << 7u64) | ((b4 & 0xFEu64)
                            >> 1u64);
                        return Some(pts);
                    }
                }
            }
            i = i + TS_PACKET_SIZE;
        } else {
            i = i + 1;
        }
    }
    None
}

// ─── Packet-aligned streams ─────────────────────────────────────────────────

/// Whether `b` is `n` whole packets, each opening with the sync byte.
pub open spec fn spec_aligned_packets(b: Seq<u8>, n: int) -> bool {
    &&& n >= 0
    &&& b.len() == 188 * n
    &&& forall|k: int| 0 <= k < n ==> #[trigger] spec_sync_at(b, k)
}

/// Whether packet number `k` opens with the sync byte.
pub open spec fn spec_sync_at(b: Seq<u8>, k: int) -> bool {
    b[188 * k] == 0x47
}

/// Whether packet number `k` is a keyframe packet.
pub open spec fn spec_keyframe_packet(b: Seq<u8>, k: int) -> bool {
    spec_packet_is_keyframe(b, 188 * k)
}

proof fn lemma_scan_aligned_from(b: Seq<u8>, n: int, j: int)
    requires
        spec_aligned_packets(b, n),
        0 <= j <= n,
    ensures
        spec_first_keyframe_from(b, 188 * j) matches Some(o) ==> exists|k: int|
            j <= k < n && o == 188 * k && #[trigger] spec_keyframe_packet(b, k) && forall|m: int|
                j <= m < k ==> !#[trigger] spec_keyframe_packet(b, m),
        spec_first_keyframe_from(b, 188 * j) is None ==> forall|m: int|
            j <= m < n ==> !#[trigger] spec_keyframe_packet(b, m),
    decreases n - j,
{
    if j < n {
        assert(spec_sync_at(b, j));
        assert(188 * j + 188 == 188 * (j + 1));
        if spec_keyframe_packet(b, j) {
            assert(spec_first_keyframe_from(b, 188 * j) == Some(188 * j));
        } else {
            lemma_scan_aligned_from(b, n, j + 1);
            assert(spec_first_keyframe_from(b, 188 * j) == spec_first_keyframe_from(b, 188 * (j + 1)));
            if let Some(o) = spec_first_keyframe_from(b, 188 * j) {
                let k = choose|k: int|
                    j + 1 <= k < n && o == 188 * k && #[trigger] spec_keyframe_packet(b, k) && forall|m: int|
                        j + 1 <= m < k ==> !#[trigger] spec_keyframe_packet(b, m);
                assert forall|m: int| j <= m < k implies !#[trigger] spec_keyframe_packet(b, m) by {
                    if m > j {
                    }
                }
            }
        }
    }
}

/// On a stream of whole packets that each open with the sync byte, the scan
/// steps packet by packet: it finds the offset of the first keyframe packet,
/// or nothing when no packet is a keyframe.
pub proof fn lemma_scan_aligned(b: Seq<u8>, n: int)
    requires
        spec_aligned_packets(b, n),
    ensures
        spec_first_keyframe_from(b, 0) matches Some(o) ==> exists|k: int|
            0 <= k < n && o == 188 * k && #[trigger] spec_keyframe_packet(b, k) && forall|m: int|
                0 <= m < k ==> !#[trigger] spec_keyframe_packet(b, m),
        spec_first_keyframe_from(b, 0) is None ==> forall|m: int|
            0 <= m < n ==> !#[trigger] spec_keyframe_packet(b, m),
{
    lemma_scan_aligned_from(b, n, 0);
}

/// The bytes of packet number `k`.
pub open spec fn spec_packet_bytes(b: Seq<u8>, k: int) -> Seq<u8> {
    b.subrange(188 * k, 188 * k + 188)
}

/// Whether the adaptation field of the packet at `i`, if any, leaves room
/// for a PES header's fixed part (its length is at most 174).
pub open spec fn spec_adaptation_fits(b: Seq<u8>, i: int) -> bool {
    spec_has_adaptation(b, i) ==> b[i + 4] <= 174
}

proof fn lemma_packet_in_place(b: Seq<u8>, i: int)
    requires
        0 <= i,
        i + 188 <= b.len(),
        spec_adaptation_fits(b, i),
    ensures
        spec_packet_is_keyframe(b, i) == spec_packet_is_keyframe(b.subrange(i, i + 188), 0),
{
    let c = b.subrange(i, i + 188);
    assert forall|j: int| 0 <= j < 188 implies #[trigger] c[j] == b[i + j] by {}
    assert(c[1] == b[i + 1] && c[3] == b[i + 3] && c[4] == b[i + 4] && c[5] == b[i + 5]);
    assert(spec_pusi(b, i) == spec_pusi(c, 0));
    assert(spec_adaptation_control(b, i) == spec_adaptation_control(c, 0));
    assert(spec_has_rai(b, i) == spec_has_rai(c, 0));
    let rel = spec_payload_rel(b, i);
    assert(rel == spec_payload_rel(c, 0));
    let pb = i + rel;
    let pc = rel;
    if rel + 4 <= 188 {
        assert(c[pc] == b[pb] && c[pc + 1] == b[pb + 1] && c[pc + 2] == b[pb + 2] && c[pc + 3] == b[pb + 3]);
        if rel + 9 <= 188 {
            assert(c[pc + 8] == b[pb + 8]);
        }
        let eb = spec_es_start(b, i, pb);
        let ec = spec_es_start(c, 0, pc);
        assert(eb == ec + i);
        let qb = exists|k: int| eb <= k && k + 3 < i + 188 && #[trigger] spec_keyframe_unit_at(b, k, i + 188);
        let qc = exists|k: int| ec <= k && k + 3 < 188 && #[trigger] spec_keyframe_unit_at(c, k, 188);
        if qb {
            let k = choose|k: int| eb <= k && k + 3 < i + 188 && #[trigger] spec_keyframe_unit_at(b, k, i + 188);
            assert(c[k - i] == b[k] && c[k - i + 1] == b[k + 1] && c[k - i + 2] == b[k + 2] && c[k - i + 3] == b[k + 3]);
            if k + 4 < i + 188 {
                assert(c[k - i + 4] == b[k + 4]);
            }
            assert(spec_keyframe_unit_at(c, k - i, 188));
        }
        if qc {
            let k = choose|k: int| ec <= k && k + 3 < 188 && #[trigger] spec_keyframe_unit_at(c, k, 188);
            assert(c[k] == b[k + i] && c[k + 1] == b[k + i + 1] && c[k + 2] == b[k + i + 2] && c[k + 3] == b[k + i + 3]);
            if k + 4 < 188 {
                assert(c[k + 4] == b[k + i + 4]);
            }
            assert(spec_keyframe_unit_at(b, k + i, i + 188));
        }
        assert(qb == qc);
        assert(spec_pes_has_keyframe_unit(b, i) == spec_pes_has_keyframe_unit(c, 0));
    } else {
        assert(!spec_pes_has_keyframe_unit(b, i));
        assert(!spec_pes_has_keyframe_unit(c, 0));
    }
}

/// On a stream of whole packets that each open with the sync byte and whose
/// adaptation fields leave room for a PES header, the scan gives the offset
/// of the first packet that is a keyframe when inspected on its own, or
/// nothing when none is.
pub proof fn lemma_scan_aligned_by_packet(b: Seq<u8>, n: int)
    requires
        spec_aligned_packets(b, n),
        forall|k: int| 0 <= k < n ==> #[trigger] spec_adaptation_fits(b, 188 * k),
    ensures
        spec_first_keyframe_from(b, 0) matches Some(o) ==> exists|k: int|
            0 <= k < n && o == 188 * k && #[trigger] spec_first_keyframe_from(spec_packet_bytes(b, k), 0) is Some
                && forall|m: int| 0 <= m < k ==> #[trigger] spec_first_keyframe_from(spec_packet_bytes(b, m), 0) is None,
        spec_first_keyframe_from(b, 0) is None ==> forall|m: int|
            0 <= m < n ==> #[trigger] spec_first_keyframe_from(spec_packet_bytes(b, m), 0) is None,
{
    lemma_scan_aligned(b, n);
    assert forall|m: int| 0 <= m < n implies #[trigger] spec_first_keyframe_from(spec_packet_bytes(b, m), 0) is Some
        == spec_keyframe_packet(b, m) by {
        let c = spec_packet_bytes(b, m);
        assert(spec_adaptation_fits(b, 188 * m));
        assert(spec_sync_at(b, m));
        lemma_packet_in_place(b, 188 * m);
        assert(c[0] == b[188 * m]);
        if !spec_packet_is_keyframe(c, 0) {
            assert(spec_first_keyframe_from(c, 188) is None);
        }
    }
    if let Some(o) = spec_first_keyframe_from(b, 0) {
        let k = choose|k: int|
            0 <= k < n && o == 188 * k && #[trigger] spec_keyframe_packet(b, k) && forall|m: int|
                0 <= m < k ==> !#[trigger] spec_keyframe_packet(b, m);
        assert(spec_first_keyframe_from(spec_packet_bytes(b, k), 0) is Some);
        assert forall|m: int| 0 <= m < k implies #[trigger] spec_first_keyframe_from(spec_packet_bytes(b, m), 0) is None by {
            assert(!spec_keyframe_packet(b, m));
        }
    }
}

// ─── Timestamps ─────────────────────────────────────────────────────────────

proof fn lemma_first_pts_witness(b: Seq<u8>, i: int)
    requires
        0 <= i,
    ensures
        spec_first_pts_from(b, i) matches Some(p) ==> exists|j: int|
            i <= j && j + 188 <= b.len() && b[j] == 0x47 && #[trigger] spec_packet_pts(b, j) == Some(p),
    decreases b.len() - i,
{
    if i + 188 <= b.len() {
        if b[i] == 0x47 {
            if spec_packet_pts(b, i) is None {
                lemma_first_pts_witness(b, i + 188);
            }
        } else {
            lemma_first_pts_witness(b, i + 1);
        }
    }
}

/// A timestamp found in a stream is the PTS of the video PES header of a
/// packet of the stream: a packet opening with the sync byte, with the
/// payload-unit-start flag, whose payload opens a video PES packet that
/// flags a PTS; the value is assembled from that header's five PTS bytes.
pub proof fn lemma_pts_found_in_packet(b: Seq<u8>)
    ensures
        spec_first_pts_from(b, 0) matches Some(p) ==> exists|j: int|
            0 <= j && j + 188 <= b.len() && b[j] == 0x47 && #[trigger] spec_packet_pts(b, j) == Some(p),
{
    lemma_first_pts_witness(b, 0);
}

/// A PTS has 33 bits, and the marker bits and the prefix bits of its five
/// bytes (bit 0 of the first, third and fifth byte, the high nibble of the
/// first) never affect it.
pub proof fn lemma_pts_value_bits(b0: u8, b1: u8, b2: u8, b3: u8, b4: u8)
    ensures
        spec_pts_value(b0, b1, b2, b3, b4) < 0x2_0000_0000u64,
        spec_pts_value(b0, b1, b2, b3, b4) == spec_pts_value(b0 & 0x0Eu8, b1, b2 & 0xFEu8, b3, b4 & 0xFEu8),
{
    assert((((b0 as u64) & 0x0Eu64) << 29u64) | (((b1 as u64) & 0xFFu64) << 22u64) | (((b2 as u64)
        & 0xFEu64) << 14u64) | (((b3 as u64) & 0xFFu64) << 7u64) | (((b4 as u64) & 0xFEu64)
        >> 1u64) < 0x2_0000_0000u64) by (bit_vector);
    assert((((b0 as u64) & 0x0Eu64) << 29u64) | (((b1 as u64) & 0xFFu64) << 22u64) | (((b2 as u64)
        & 0xFEu64) << 14u64) | (((b3 as u64) & 0xFFu64) << 7u64) | (((b4 as u64) & 0xFEu64)
        >> 1u64) == (((((b0 & 0x0Eu8) as u64) & 0x0Eu64) << 29u64) | (((b1 as u64) & 0xFFu64) << 22u64)
        | ((((b2 & 0xFEu8) as u64) & 0xFEu64) << 14u64) | (((b3 as u64) & 0xFFu64) << 7u64)
        | ((((b4 & 0xFEu8) as u64) & 0xFEu64) >> 1u64))) by (bit_vector);
}

/// Where the timestamp scan from `i` finds its PTS: the packet whose video
/// PES header gives `spec_first_pts_from(b, i)`.
pub open spec fn spec_pts_pos_from(b: Seq<u8>, i: int) -> Option<int>
    decreases b.len() - i,
{
    if i < 0 || i + 188 > b.len() {
        None
    } else if b[i] == 0x47 {
        match spec_packet_pts(b, i) {
            Some(_) => Some(i),
            None => spec_pts_pos_from(b, i + 188),
        }
    } else {
        spec_pts_pos_from(b, i + 1)
    }
}

proof fn lemma_pts_pos(b: Seq<u8>, i: int)
    requires
        0 <= i,
    ensures
        spec_pts_pos_from(b, i) is Some == spec_first_pts_from(b, i) is Some,
        spec_pts_pos_from(b, i) matches Some(j) ==> i <= j && j + 188 <= b.len() && b[j] == 0x47
            && spec_first_pts_from(b, i) == spec_packet_pts(b, j),
    decreases b.len() - i,
{
    if i + 188 <= b.len() {
        if b[i] == 0x47 {
            if spec_packet_pts(b, i) is None {
                lemma_pts_pos(b, i + 188);
            }
        } else {
            lemma_pts_pos(b, i + 1);
        }
    }
}

proof fn lemma_packet_pts_local(b: Seq<u8>, b2: Seq<u8>, i: int)
    requires
        0 <= i,
        i + 188 <= b.len(),
        b2.len() == b.len(),
        forall|x: int| i <= x < i + 188 ==> #[trigger] b2[x] == b[x],
    ensures
        spec_packet_pts(b2, i) == spec_packet_pts(b, i),
{
    assert(b2[i + 1] == b[i + 1] && b2[i + 3] == b[i + 3] && b2[i + 4] == b[i + 4]);
    let po = i + spec_payload_rel(b, i);
    assert(po == i + spec_payload_rel(b2, i));
    if po + 14 <= i + 188 {
        assert(b2[po] == b[po] && b2[po + 1] == b[po + 1] && b2[po + 2] == b[po + 2] && b2[po + 3] == b[po + 3]);
        assert(b2[po + 7] == b[po + 7] && b2[po + 9] == b[po + 9] && b2[po + 10] == b[po + 10]);
        assert(b2[po + 11] == b[po + 11] && b2[po + 12] == b[po + 12] && b2[po + 13] == b[po + 13]);
    }
}

proof fn lemma_pts_scan_same(b: Seq<u8>, b2: Seq<u8>, i: int, j: int)
    requires
        0 <= i,
        b2.len() == b.len(),
        spec_pts_pos_from(b, i) == Some(j),
        forall|x: int| 0 <= x < j ==> #[trigger] b2[x] == b[x],
        b2[j] == b[j],
        spec_packet_pts(b2, j) == spec_packet_pts(b, j),
    ensures
        spec_first_pts_from(b2, i) == spec_first_pts_from(b, i),
    decreases b.len() - i,
{
    lemma_pts_pos(b, i);
    if i + 188 <= b.len() {
        if i == j {
        } else if b[i] == 0x47 {
            assert(b2[i] == b[i]);
            assert(spec_packet_pts(b, i) is None);
            lemma_pts_pos(b, i + 188);
            assert forall|x: int| i <= x < i + 188 implies #[trigger] b2[x] == b[x] by {
                assert(x < j);
            }
            lemma_packet_pts_local(b, b2, i);
            lemma_pts_scan_same(b, b2, i + 188, j);
        } else {
            assert(b2[i] == b[i]);
            lemma_pts_scan_same(b, b2, i + 1, j);
        }
    }
}

/// The PTS a stream yields has 33 bits, and changing the marker and prefix
/// bits of the PES header it came from (bit 0 of its first, third and
/// fifth PTS bytes, and the high nibble of its first) does not change it.
pub proof fn lemma_pts_ignores_marker_bits(b: Seq<u8>, b2: Seq<u8>)
    requires
        spec_pts_pos_from(b, 0) is Some,
        b2.len() == b.len(),
        ({
            let j = spec_pts_pos_from(b, 0)->0;
            let po = j + spec_payload_rel(b, j);
            &&& forall|x: int|
                0 <= x < b.len() && x != po + 9 && x != po + 11 && x != po + 13 ==> #[trigger] b2[x] == b[x]
            &&& b2[po + 9] & 0x0Eu8 == b[po + 9] & 0x0Eu8
            &&& b2[po + 11] & 0xFEu8 == b[po + 11] & 0xFEu8
            &&& b2[po + 13] & 0xFEu8 == b[po + 13] & 0xFEu8
        }),
    ensures
        spec_first_pts_from(b2, 0) == spec_first_pts_from(b, 0),
        spec_first_pts_from(b, 0) matches Some(p) && p < 0x2_0000_0000u64,
{
    let j = spec_pts_pos_from(b, 0)->0;
    lemma_pts_pos(b, 0);
    let po = j + spec_payload_rel(b, j);
    assert(b2[j + 1] == b[j + 1] && b2[j + 3] == b[j + 3] && b2[j + 4] == b[j + 4]);
    assert(po >= j + 4);
    assert(po == j + spec_payload_rel(b2, j));
    assert(spec_packet_pts(b, j) is Some);
    assert(po + 14 <= j + 188);
    assert(b2[po] == b[po] && b2[po + 1] == b[po + 1] && b2[po + 2] == b[po + 2] && b2[po + 3] == b[po + 3]);
    assert(b2[po + 7] == b[po + 7] && b2[po + 10] == b[po + 10] && b2[po + 12] == b[po + 12]);
    lemma_pts_value_bits(b[po + 9], b[po + 10], b[po + 11], b[po + 12], b[po + 13]);
    lemma_pts_value_bits(b2[po + 9], b2[po + 10], b2[po + 11], b2[po + 12], b2[po + 13]);
    assert(spec_packet_pts(b2, j) == spec_packet_pts(b, j));
    assert forall|x: int| 0 <= x < j implies #[trigger] b2[x] == b[x] by {}
    assert(b2[j] == b[j]);
    lemma_pts_scan_same(b, b2, 0, j);
}

} // verus!
