use clip_tool::editor::{is_safe_wav_filename, plan_byte_range};

// ──────────────────────────────────────────────────────────────────────────────
// HTTP Video & Audio Streaming Range Request Parser Test Suite
// ──────────────────────────────────────────────────────────────────────────────

fn parse_http_range(range_header: Option<&str>, total_size: u64) -> Result<(u64, u64, bool), ()> {
    plan_byte_range(range_header, total_size).ok_or(())
}

#[test]
fn test_range_no_header_returns_full_file() {
    let total = 50_000_000u64; // 50MB
    let (start, end_incl, is_range) = parse_http_range(None, total).unwrap();
    assert_eq!(start, 0);
    assert_eq!(end_incl, total - 1);
    assert!(!is_range);
}

#[test]
fn test_range_explicit_first_1024_bytes() {
    let total = 10_000_000u64;
    let (start, end_incl, is_range) = parse_http_range(Some("bytes=0-1023"), total).unwrap();
    assert_eq!(start, 0);
    assert_eq!(end_incl, 1023);
    assert!(is_range);
    assert_eq!(end_incl - start + 1, 1024);
}

#[test]
fn test_range_open_ended_start_1000() {
    let total = 10_000_000u64; // 10MB
    let (start, end_incl, is_range) = parse_http_range(Some("bytes=1000-"), total).unwrap();
    assert_eq!(start, 1000);
    assert_eq!(end_incl, total - 1);
    assert!(is_range);
}

#[test]
fn test_range_open_ended_clamped_to_32mb_chunk() {
    let total = 100_000_000u64; // 100MB
    let (start, end_incl, _is_range) = parse_http_range(Some("bytes=0-"), total).unwrap();
    assert_eq!(start, 0);
    assert_eq!(end_incl, 32_000_000 - 1); // Capped at 32MB
    assert_eq!(end_incl - start + 1, 32_000_000);
}

#[test]
fn test_range_out_of_bounds_start_returns_416_error() {
    let total = 5_000_000u64; // 5MB
    let res = parse_http_range(Some("bytes=6000000-"), total);
    assert!(res.is_err(), "Start beyond EOF should return Range Not Satisfiable");
}

#[test]
fn test_range_end_beyond_file_size_clamped_to_eof() {
    let total = 1_000_000u64;
    let (start, end_incl, _) = parse_http_range(Some("bytes=500000-2000000"), total).unwrap();
    assert_eq!(start, 500_000);
    assert_eq!(end_incl, total - 1);
}

#[test]
fn test_safe_wav_filename_path_traversal_prevention() {
    assert!(is_safe_wav_filename("clip_System.wav"));
    assert!(is_safe_wav_filename("2026-08-31_Game_Microphone.wav"));
    assert!(!is_safe_wav_filename("../evil.wav"));
    assert!(!is_safe_wav_filename("..\\evil.wav"));
    assert!(!is_safe_wav_filename("sub/dir/audio.wav"));
    assert!(!is_safe_wav_filename("sub\\dir\\audio.wav"));
    assert!(!is_safe_wav_filename(""));
}
