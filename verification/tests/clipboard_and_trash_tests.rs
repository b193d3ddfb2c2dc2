use clip_tool::library::{favorites_from_json, favorites_to_json, is_favorite, is_sidecar, strip_verbatim_prefix, toggle_favorite};

// ──────────────────────────────────────────────────────────────────────────────
// Clipboard CF_HDROP & Trash Sidecar Deletion Tests
// ──────────────────────────────────────────────────────────────────────────────

#[test]
fn test_clipboard_dropfiles_wide_path_encoding() {
    let clean_path = "C:\\Users\\Gamer\\Videos\\Clip.mp4";
    let mut wide_path: Vec<u16> = clean_path.encode_utf16().collect();
    wide_path.push(0);
    wide_path.push(0); // Double null-terminated

    // Check last two characters are null terminators
    assert_eq!(wide_path[wide_path.len() - 1], 0);
    assert_eq!(wide_path[wide_path.len() - 2], 0);
    assert_eq!(wide_path[0], 'C' as u16);
    assert_eq!(wide_path[1], ':' as u16);
}

#[test]
fn test_clipboard_canonical_path_prefix_trimming() {
    let raw = r"\\?\C:\Games\Recording.mp4";
    let cleaned = strip_verbatim_prefix(raw);
    assert_eq!(cleaned, "C:\\Games\\Recording.mp4");

    let normal = "C:\\Games\\Recording.mp4";
    let cleaned_normal = strip_verbatim_prefix(normal);
    assert_eq!(cleaned_normal, "C:\\Games\\Recording.mp4");
}

#[test]
fn test_favorites_json_serialization_and_sorting() {
    let favs = vec![
        "C:/Videos/Clip3.mp4".to_string(),
        "C:/Videos/Clip1.mp4".to_string(),
        "C:/Videos/Clip2.mp4".to_string(),
    ];

    let json = favorites_to_json(&favs);
    assert_eq!(json, r#"["C:/Videos/Clip1.mp4","C:/Videos/Clip2.mp4","C:/Videos/Clip3.mp4"]"#);

    let decoded: Vec<String> = favorites_from_json(&json);
    assert_eq!(decoded.len(), 3);
    assert_eq!(decoded[0], "C:/Videos/Clip1.mp4");
}

#[test]
fn test_favorites_toggle_behavior() {
    let favs: Vec<String> = Vec::new();
    let clip = "C:/Videos/Game.mp4".to_string();

    // Toggle 1: Add
    let (favs, added1) = toggle_favorite(favs, clip.clone());
    assert!(added1);
    assert!(is_favorite(&favs, &clip));

    // Toggle 2: Remove
    let (favs, added2) = toggle_favorite(favs, clip.clone());
    assert!(!added2);
    assert!(!is_favorite(&favs, &clip));
}

#[test]
fn test_sidecar_victim_discovery_exact_matching() {
    let stem = "2026-08-31_Game_Clip";
    let candidate_files = vec![
        "2026-08-31_Game_Clip.mp4",              // Main video (handled separately)
        "2026-08-31_Game_Clip.jpg",              // Direct preview -> Victim
        "2026-08-31_Game_Clip_tracks.json",      // Direct metadata -> Victim
        "2026-08-31_Game_Clip_System.wav",       // Direct audio track 1 -> Victim
        "2026-08-31_Game_Clip_Microphone.wav",   // Direct audio track 2 -> Victim
        "2026-08-31_Game_Clip_edited.mp4",       // Edited video -> PROTECTED
        "2026-08-31_Game_Clip_edited_tracks.json", // Edited meta -> PROTECTED
        "2026-08-31_Game_Clip2.jpg",             // Sibling clip preview -> PROTECTED
        "Unrelated.mp4",                         // Unrelated -> PROTECTED
    ];

    let mut victims = Vec::new();
    for fname in candidate_files {
        if fname == format!("{stem}.mp4") {
            continue;
        }

        if is_sidecar(stem, fname) {
            victims.push(fname);
        }
    }

    assert_eq!(victims.len(), 4);
    assert!(victims.contains(&"2026-08-31_Game_Clip.jpg"));
    assert!(victims.contains(&"2026-08-31_Game_Clip_tracks.json"));
    assert!(victims.contains(&"2026-08-31_Game_Clip_System.wav"));
    assert!(victims.contains(&"2026-08-31_Game_Clip_Microphone.wav"));
    assert!(!victims.contains(&"2026-08-31_Game_Clip_edited.mp4"));
    assert!(!victims.contains(&"2026-08-31_Game_Clip2.jpg"));
}
