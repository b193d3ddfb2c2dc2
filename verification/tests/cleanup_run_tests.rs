use clip_tool::audio_track::{keep_track, AudioTrack};
use clip_tool::audio_files::peak_plan;
use clip_tool::cleanup::CleanupRun;
use clip_tool::editor::{session_expired, video_file};
use clip_tool::process_list::is_background_process;
use clip_tool::recorder::{end_save, try_begin_save, RecorderRuntime};
use clip_tool::video_buffer::{InMemoryVideoBuffer, TsChunk};

const DAY: u64 = 86_400;

/// Drives a whole run: `outcomes` answers the deletions in turn; the disk is
/// short of space for the first `low_rounds` free-space offers.
fn drive(run: &mut CleanupRun, outcomes: &[bool], low_rounds: usize) -> Vec<usize> {
    let mut offered = Vec::new();
    let mut k = 0;
    while let Some(i) = run.next() {
        offered.push(i);
        run.record(outcomes.get(k).copied().unwrap_or(true));
        k += 1;
    }
    let mut rounds = 0;
    while let Some(i) = run.next_for_space(rounds >= low_rounds) {
        offered.push(i);
        run.record(outcomes.get(k).copied().unwrap_or(true));
        k += 1;
        rounds += 1;
    }
    offered
}

#[test]
fn cleanup_age_phase_deletes_old_non_favourites_oldest_first() {
    // created: clip 0 newest, clip 2 oldest.
    let created = vec![300, 100, 50, 200];
    let ages = vec![1 * DAY, 40 * DAY, 50 * DAY, 31 * DAY];
    let sizes = vec![10, 20, 30, 40];
    let favs = vec![false, false, true, false];
    let mut run = CleanupRun::new(&created, ages, sizes, favs, 30, None, 100);
    let offered = drive(&mut run, &[], 0);
    assert_eq!(offered, vec![1, 3]);
    let t = run.tally();
    assert_eq!(t.clips_deleted, 2);
    assert_eq!(t.freed_bytes, 60);
    assert_eq!(t.total_bytes, 40);
}

#[test]
fn cleanup_counts_only_successful_deletions() {
    let created = vec![1, 2, 3];
    let ages = vec![100 * DAY, 100 * DAY, 100 * DAY];
    let sizes = vec![5, 7, 11];
    let favs = vec![false, false, false];
    let mut run = CleanupRun::new(&created, ages, sizes, favs, 30, None, 23);
    let offered = drive(&mut run, &[true, false, true], 0);
    assert_eq!(offered, vec![0, 1, 2]);
    let t = run.tally();
    assert_eq!(t.clips_deleted, 2);
    assert_eq!(t.freed_bytes, 16);
    assert_eq!(t.total_bytes, 7);
}

#[test]
fn cleanup_storage_phase_deletes_while_over_limit() {
    let created = vec![10, 20, 30, 40];
    let ages = vec![0, 0, 0, 0];
    let sizes = vec![100, 100, 100, 100];
    let favs = vec![false, true, false, false];
    // 400 bytes held, limit 250: the oldest non-favourites go until 200 remain.
    let mut run = CleanupRun::new(&created, ages, sizes, favs, 0, Some(250), 400);
    let offered = drive(&mut run, &[], 0);
    assert_eq!(offered, vec![0, 2]);
    assert_eq!(run.tally().total_bytes, 200);
}

#[test]
fn cleanup_storage_phase_failed_deletion_keeps_going() {
    let created = vec![10, 20, 30];
    let ages = vec![0, 0, 0];
    let sizes = vec![100, 100, 100];
    let favs = vec![false, false, false];
    let mut run = CleanupRun::new(&created, ages, sizes, favs, 0, Some(150), 300);
    let offered = drive(&mut run, &[false, true, true], 0);
    assert_eq!(offered, vec![0, 1, 2]);
    assert_eq!(run.tally().clips_deleted, 2);
}

#[test]
fn cleanup_free_space_phase_walks_remaining_until_enough() {
    let created = vec![30, 10, 20];
    let ages = vec![0, 0, 0];
    let sizes = vec![1, 2, 3];
    let favs = vec![false, false, false];
    let mut run = CleanupRun::new(&created, ages, sizes, favs, 0, None, 6);
    let offered = drive(&mut run, &[], 2);
    assert_eq!(offered, vec![1, 2]);
    assert_eq!(run.tally().freed_bytes, 5);
}

#[test]
fn cleanup_with_no_limits_deletes_nothing() {
    let created = vec![1, 2];
    let mut run = CleanupRun::new(&created, vec![999 * DAY, 0], vec![1, 1], vec![false, false], 0, None, 2);
    assert!(drive(&mut run, &[], 0).is_empty());
    assert_eq!(run.tally().clips_deleted, 0);
}

#[test]
fn session_closes_four_hours_after_opening_despite_activity() {
    assert!(session_expired(18_000, 0, 17_940));
    assert!(!session_expired(14_000, 0, 13_940));
    assert!(session_expired(14_401, 0, 14_400));
    assert!(!session_expired(14_400, 0, 14_400));
}

#[test]
fn session_closes_after_fifteen_quiet_minutes() {
    assert!(!session_expired(1_900, 1_000, 1_000));
    assert!(session_expired(1_901, 1_000, 1_000));
}

#[test]
fn video_file_takes_only_bare_names() {
    assert_eq!(video_file(Some("clip_edited.mp4")), Some("clip_edited.mp4".to_string()));
    assert_eq!(video_file(Some("C:\\Windows\\win.ini")), None);
    assert_eq!(video_file(Some("C:x.mp4")), None);
    assert_eq!(video_file(Some("../other.mp4")), None);
    assert_eq!(video_file(Some("sub/clip.mp4")), None);
    assert_eq!(video_file(Some("")), None);
    assert_eq!(video_file(None), None);
}

#[test]
fn background_test_ignores_ascii_case() {
    assert_eq!(
        is_background_process("SVCHOST.EXE", "C:\\WINDOWS\\SYSTEM32\\svchost.exe"),
        is_background_process("svchost.exe", "c:\\windows\\system32\\svchost.exe")
    );
    assert!(is_background_process("SvcHost.Exe", "C:\\Windows\\System32\\svchost.exe"));
    assert!(!is_background_process("GAME.EXE", "D:\\Games\\GAME.EXE"));
}

#[test]
fn peak_plan_accepts_more_buckets_than_frames() {
    let plan = peak_plan(4 * 10, 1, usize::MAX).unwrap();
    assert_eq!(plan.len(), 10);
    assert_eq!(plan[0], (0, 1, 1));
    assert_eq!(plan[9], (9, 10, 1));
}

#[test]
fn save_slot_admits_one_save_at_a_time() {
    let mut rt = RecorderRuntime::new();
    assert!(try_begin_save(&mut rt));
    assert!(!try_begin_save(&mut rt));
    end_save(&mut rt);
    assert!(try_begin_save(&mut rt));
}

#[test]
fn pushed_chunk_never_stamped_before_newest() {
    let mut buf = InMemoryVideoBuffer::new(1000);
    buf.chunks.push_back(TsChunk { data: vec![0x47; 10], timestamp: u64::MAX / 2, is_keyframe: false });
    buf.current_bytes = 10;
    buf.push_bytes(&[0x47; 10]);
    assert_eq!(buf.chunks.len(), 2);
    assert_eq!(buf.chunks[1].timestamp, u64::MAX / 2);
    buf.push_bytes(&[0x47; 10]);
    assert!(buf.chunks[2].timestamp >= buf.chunks[1].timestamp);
}

#[test]
fn peak_plan_without_whole_frame_is_empty_even_with_zero_buckets() {
    assert_eq!(peak_plan(3, 1, 0), Err("empty".to_string()));
}

#[test]
fn cleanup_size_limit_of_zero_bytes_deletes_every_non_favourite() {
    let created = vec![1, 2, 3];
    let ages = vec![0, 0, 0];
    let sizes = vec![10, 10, 10];
    let favs = vec![false, true, false];
    let mut run = CleanupRun::new(&created, ages, sizes, favs, 0, Some(0), 30);
    let offered = drive(&mut run, &[], 0);
    assert_eq!(offered, vec![0, 2]);
    assert_eq!(run.tally().total_bytes, 10);
}

#[test]
fn wav_header_exact_bytes() {
    let h = clip_tool::audio_files::wav_header(48000, 2, 100);
    let mut want: Vec<u8> = Vec::new();
    want.extend_from_slice(b"RIFF");
    want.extend_from_slice(&(36u32 + 400).to_le_bytes());
    want.extend_from_slice(b"WAVE");
    want.extend_from_slice(b"fmt ");
    want.extend_from_slice(&16u32.to_le_bytes());
    want.extend_from_slice(&3u16.to_le_bytes());
    want.extend_from_slice(&2u16.to_le_bytes());
    want.extend_from_slice(&48000u32.to_le_bytes());
    want.extend_from_slice(&(48000u32 * 2 * 4).to_le_bytes());
    want.extend_from_slice(&8u16.to_le_bytes());
    want.extend_from_slice(&32u16.to_le_bytes());
    want.extend_from_slice(b"data");
    want.extend_from_slice(&400u32.to_le_bytes());
    assert_eq!(h, want);
}

#[test]
fn wav_header_data_size_keeps_low_32_bits() {
    let h = clip_tool::audio_files::wav_header(8000, 1, 0x4000_0001);
    assert_eq!(&h[4..8], &40u32.to_le_bytes());
    assert_eq!(&h[40..44], &4u32.to_le_bytes());
}

#[test]
fn clip_paths_join_folder_game_and_timestamp() {
    let p = clip_tool::recorder::clip_paths("D:\\Clips", "Half<Life>", "2024-01-02-03-04-05");
    assert_eq!(p.game, "Half_Life_");
    assert_eq!(p.game_dir, "D:\\Clips\\Half_Life_");
    assert_eq!(p.clip_file, "D:\\Clips\\Half_Life_\\Half_Life_-2024-01-02-03-04-05.mp4");
    assert_eq!(p.audio_base, "D:\\Clips\\Half_Life_\\Half_Life_-2024-01-02-03-04-05");
    let q = clip_tool::recorder::clip_paths("D:/Clips/", "Game", "t");
    assert_eq!(q.game_dir, "D:/Clips/Game");
    let r = clip_tool::recorder::clip_paths("C:", "Game", "t");
    assert_eq!(r.game_dir, "C:Game");
    let e = clip_tool::recorder::clip_paths("", "Game", "t");
    assert_eq!(e.game_dir, "Game");
}

#[test]
fn keep_track_rules() {
    let mut t: AudioTrack<i32> = AudioTrack::new("Game.exe".to_string(), 100, 1, 60);
    let empty: AudioTrack<i32> = AudioTrack::new("Game.exe".to_string(), 100, 1, 60);
    t.push_chunk_with_timestamp(vec![1; 10], false, 1_000_000_000);
    assert!(keep_track("System", false, &empty, 0, 60));
    assert!(keep_track("Microphone", false, &empty, 0, 60));
    assert!(keep_track("Game.exe", true, &empty, 0, 60));
    assert!(!keep_track("Game.exe", false, &empty, 0, 60));
    assert!(keep_track("Game.exe", false, &t, 1_000_000_000 + 90_000_000_000, 60));
    assert!(!keep_track("Game.exe", false, &t, 1_000_000_000 + 90_000_000_001, 60));
    assert!(keep_track("Game.exe", false, &t, 0, 60));
}
