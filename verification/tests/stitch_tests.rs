use clip_tool::audio_track::AudioTrack;
use clip_tool::stitch::{stitch, StitchPlan};

/// A track at 100 samples per second (pieces of at most ten samples) holding
/// the given pieces in order: `Some(values)` for sound, `None` for ten
/// samples of silence.
fn track_of(pieces: &[Option<Vec<i32>>]) -> AudioTrack<i32> {
    let mut track: AudioTrack<i32> = AudioTrack::new("Stitch".to_string(), 100, 1, 60);
    let mut ts: u64 = 1_000;
    for p in pieces {
        match p {
            Some(v) => track.push_chunk_with_timestamp(v.clone(), false, ts),
            None => track.push_chunk_with_timestamp(vec![0; 10], true, ts),
        }
        ts += 100;
    }
    track
}

fn range(a: i32, b: i32) -> Vec<i32> {
    (a..b).collect()
}

fn cat(parts: &[Vec<i32>]) -> Vec<i32> {
    parts.iter().flatten().copied().collect()
}

#[test]
fn stitch_places_pieces_back_to_back() {
    let track = track_of(&[Some(range(1, 11)), Some(range(11, 21))]);
    assert_eq!(track.chunk_count(), 2);
    let plans = vec![StitchPlan::Place { skip: 0, dst: 0 }, StitchPlan::Place { skip: 0, dst: 10 }];
    let out = stitch(&track, &plans, 25, 0, 0);
    assert_eq!(out, cat(&[range(1, 21), vec![0; 5]]));
}

#[test]
fn stitch_joins_piece_within_jitter_tolerance() {
    let track = track_of(&[Some(range(1, 11)), Some(range(11, 21))]);
    let plans = vec![StitchPlan::Place { skip: 0, dst: 0 }, StitchPlan::Place { skip: 0, dst: 12 }];
    let out = stitch(&track, &plans, 25, 3, 0);
    assert_eq!(out, cat(&[range(1, 21), vec![0; 5]]));
}

#[test]
fn stitch_keeps_gap_beyond_tolerance_silent() {
    let track = track_of(&[Some(range(1, 11)), Some(range(11, 21))]);
    let plans = vec![StitchPlan::Place { skip: 0, dst: 0 }, StitchPlan::Place { skip: 0, dst: 15 }];
    let out = stitch(&track, &plans, 25, 3, 0);
    assert_eq!(out, cat(&[range(1, 11), vec![0; 5], range(11, 21)]));
}

#[test]
fn stitch_cuts_overlapping_front_of_later_piece() {
    let track = track_of(&[Some(range(1, 11)), Some(range(11, 21))]);
    let plans = vec![StitchPlan::Place { skip: 0, dst: 0 }, StitchPlan::Place { skip: 0, dst: 5 }];
    let out = stitch(&track, &plans, 20, 2, 0);
    assert_eq!(out, cat(&[range(1, 11), range(16, 21), vec![0; 5]]));
}

#[test]
fn stitch_skips_samples_before_window() {
    let track = track_of(&[Some(range(1, 11))]);
    let plans = vec![StitchPlan::Place { skip: 4, dst: 0 }];
    let out = stitch(&track, &plans, 8, 0, -1);
    assert_eq!(out, cat(&[range(5, 11), vec![-1; 2]]));
}

#[test]
fn stitch_skip_larger_than_piece_writes_nothing() {
    let track = track_of(&[Some(range(1, 11))]);
    let plans = vec![StitchPlan::Place { skip: 40, dst: 0 }];
    let out = stitch(&track, &plans, 4, 0, 0);
    assert_eq!(out, vec![0; 4]);
}

#[test]
fn stitch_stop_leaves_out_later_pieces() {
    let track = track_of(&[Some(range(1, 11)), Some(range(11, 21))]);
    let plans = vec![StitchPlan::Stop, StitchPlan::Place { skip: 0, dst: 0 }];
    let out = stitch(&track, &plans, 12, 0, 0);
    assert_eq!(out, vec![0; 12]);
}

#[test]
fn stitch_skip_plan_passes_over_piece() {
    let track = track_of(&[Some(range(1, 11)), Some(range(11, 21))]);
    let plans = vec![StitchPlan::Skip, StitchPlan::Place { skip: 0, dst: 2 }];
    let out = stitch(&track, &plans, 12, 0, 0);
    assert_eq!(out, cat(&[vec![0; 2], range(11, 21)]));
}

#[test]
fn stitch_silent_piece_moves_cursor_without_writing() {
    let track = track_of(&[Some(range(1, 11)), None, Some(range(21, 31))]);
    assert_eq!(track.chunk_count(), 3);
    let plans = vec![
        StitchPlan::Place { skip: 0, dst: 0 },
        StitchPlan::Place { skip: 0, dst: 10 },
        StitchPlan::Place { skip: 0, dst: 18 },
    ];
    let out = stitch(&track, &plans, 30, 0, 7);
    assert_eq!(out, cat(&[range(1, 11), vec![7; 10], range(23, 31), vec![7; 2]]));
}

#[test]
fn stitch_truncates_piece_at_window_end() {
    let track = track_of(&[Some(range(1, 11)), Some(range(11, 21))]);
    let plans = vec![StitchPlan::Place { skip: 0, dst: 0 }, StitchPlan::Place { skip: 0, dst: 10 }];
    let out = stitch(&track, &plans, 15, 0, 0);
    assert_eq!(out, range(1, 16));
}

#[test]
fn stitch_piece_planned_past_window_is_dropped() {
    let track = track_of(&[Some(range(1, 11))]);
    let plans = vec![StitchPlan::Place { skip: 0, dst: 9 }];
    let out = stitch(&track, &plans, 9, 0, 0);
    assert_eq!(out, vec![0; 9]);
}

#[test]
fn stitch_with_fewer_plans_than_pieces_stops_at_last_plan() {
    let track = track_of(&[Some(range(1, 11)), Some(range(11, 21))]);
    let plans = vec![StitchPlan::Place { skip: 0, dst: 0 }];
    let out = stitch(&track, &plans, 20, 0, 0);
    assert_eq!(out, cat(&[range(1, 11), vec![0; 10]]));
}
