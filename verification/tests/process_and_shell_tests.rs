use clip_tool::diagnostics::tool_process_ids;
use clip_tool::process_list::{
    game_name_from_image_path, get_running_applications, visible_user_apps, ProcessEntry,
    ProcessInfo,
};
use clip_tool::config::VideoCodec;
use clip_tool::hardware::{HardwareTier, ScalingMethod};
use clip_tool::recorder::{
    diagnostic_header, get_buffer_state, get_last_error_log, set_state, setup_report,
    update_diagnostic_log, BufferState, DiagnosticLog, PipelineSettings, RecorderRuntime,
    SetupFailure,
};
use clip_tool::sorting::{chars_le, key_order};
use clip_tool::tray::{hides_on_close, quit_waits, tray_action, OverlaySequence, TrayAction};

fn proc(pid: u32, name: &str, exe: &str) -> ProcessInfo {
    ProcessInfo { pid, name: name.to_string(), exe: exe.to_string() }
}

fn entry(pid: u32, parent: Option<u32>, exe: Option<&str>) -> ProcessEntry {
    ProcessEntry { pid, parent, exe: exe.map(|e| e.to_string()) }
}

fn chars(s: &str) -> Vec<char> {
    s.chars().collect()
}

#[test]
fn game_name_strips_one_exe_suffix() {
    assert_eq!(game_name_from_image_path(Some("C:\\Games\\Hades\\Hades.exe")), "Hades");
    assert_eq!(game_name_from_image_path(Some("D:\\Steam\\CS2.EXE")), "CS2");
    assert_eq!(game_name_from_image_path(Some("C:\\Tools\\runner")), "runner");
    assert_eq!(game_name_from_image_path(Some("C:\\x\\a.exe.exe")), "a.exe");
}

#[test]
fn game_name_without_a_foreground_process_is_desktop() {
    assert_eq!(game_name_from_image_path(None), "Desktop");
    assert_eq!(game_name_from_image_path(Some("")), "Desktop");
}

#[test]
fn running_applications_are_filtered_deduplicated_and_sorted() {
    let snapshot = vec![
        proc(10, "Zeta.exe", "C:\\Games\\zeta.exe"),
        proc(11, "svchost.exe", "C:\\Windows\\System32\\svchost.exe"),
        proc(12, "alpha.exe", "D:\\alpha.exe"),
        proc(13, "Zeta.exe", "C:\\Other\\zeta.exe"),
        proc(14, "", "C:\\x.exe"),
        proc(15, "Beta.EXE", "E:\\beta.exe"),
        proc(16, "helper", "C:\\x\\helper"),
    ];
    let apps = get_running_applications(&snapshot);
    let got: Vec<(u32, &str)> = apps.iter().map(|p| (p.pid, p.name.as_str())).collect();
    assert_eq!(got, vec![(12, "alpha.exe"), (15, "Beta.EXE"), (10, "Zeta.exe")]);
    assert_eq!(apps[2].exe, "C:\\Games\\zeta.exe");
}

#[test]
fn visible_apps_roll_up_to_the_root_of_the_executable() {
    let chrome = "C:\\Program Files\\Chrome\\chrome.exe";
    let table = vec![
        entry(100, Some(1), Some(chrome)),
        entry(101, Some(100), Some(chrome)),
        entry(102, Some(101), Some(chrome)),
        entry(200, None, Some("C:\\Windows\\System32\\notepad.exe")),
        entry(300, Some(2), Some("C:\\Windows\\explorer.exe")),
        entry(400, None, Some("D:\\Games\\Hades.exe")),
        entry(500, None, None),
        entry(7, None, Some("C:\\Tools\\clip.exe")),
        entry(1, None, Some("C:\\Windows\\services.exe")),
    ];
    let windows = vec![102, 200, 300, 400, 500, 7, 999, 101];
    let apps = visible_user_apps(&windows, 7, &table);
    let got: Vec<(u32, &str)> = apps.iter().map(|a| (a.pid, a.name.as_str())).collect();
    assert_eq!(got, vec![(100, "chrome"), (400, "hades")]);
}

#[test]
fn visible_apps_roll_up_at_most_sixteen_hops() {
    let exe = "D:\\Apps\\tree.exe";
    let mut table = Vec::new();
    for pid in 1..=20u32 {
        let parent = if pid == 1 { None } else { Some(pid - 1) };
        table.push(entry(pid, parent, Some(exe)));
    }
    let apps = visible_user_apps(&vec![20], 0, &table);
    assert_eq!(apps.len(), 1);
    assert_eq!(apps[0].pid, 4);
    assert_eq!(apps[0].name, "tree");
}

#[test]
fn key_order_is_stable_by_character_codes() {
    let keys = vec![chars("b"), chars("a"), chars("b"), chars(""), chars("ab")];
    assert_eq!(key_order(&keys), vec![3, 1, 4, 0, 2]);
    assert!(chars_le(&chars("abc"), &chars("abd")));
    assert!(!chars_le(&chars("b"), &chars("abc")));
    assert!(chars_le(&chars("ab"), &chars("ab")));
}

#[test]
fn tool_processes_include_all_descendants_once() {
    let table = vec![
        (50, Some(10)),
        (10, Some(1)),
        (60, Some(50)),
        (70, Some(99)),
        (99, Some(5)),
        (80, None),
        (1, None),
    ];
    let mut ids = tool_process_ids(10, Some(99), &table);
    ids.sort();
    assert_eq!(ids, vec![10, 50, 60, 70, 99]);
    let only_root = tool_process_ids(80, None, &table);
    assert_eq!(only_root, vec![80]);
    let same = tool_process_ids(10, Some(10), &table);
    assert_eq!(same.len(), 3);
}

#[test]
fn diagnostic_log_returns_the_last_report() {
    let mut log = DiagnosticLog::new();
    assert_eq!(get_last_error_log(&log), "");
    update_diagnostic_log(&mut log, "first".to_string());
    update_diagnostic_log(&mut log, "second".to_string());
    assert_eq!(get_last_error_log(&log), "second");
}

#[test]
fn buffer_state_is_reported_by_name() {
    let mut rt = RecorderRuntime::new();
    assert_eq!(get_buffer_state(&rt), "stopped");
    set_state(&mut rt, BufferState::Paused);
    assert_eq!(get_buffer_state(&rt), "paused");
}

#[test]
fn setup_reports_name_the_failed_step() {
    assert_eq!(
        setup_report("H", SetupFailure::Arguments, "ffmpeg -x", "bad fps"),
        "H\nFEHLER BEIM ERSTELLEN DER ARGS:\nbad fps\n========================================"
    );
    assert_eq!(
        setup_report("H", SetupFailure::Spawn, "ffmpeg -x", "denied"),
        "H\nFFmpeg Befehl:\nffmpeg -x\n\nFEHLER BEIM PROZESS-START (spawn):\ndenied\n========================================"
    );
    assert!(setup_report("H", SetupFailure::Sidecar, "", "missing").contains("FEHLER BEIM SIDECAR-LADEN:\nmissing"));
}

#[test]
fn diagnostic_header_lists_the_settings() {
    let p = PipelineSettings {
        time: "2026-01-02 03:04:05".to_string(),
        codec: VideoCodec::HEVC,
        encoder: "hevc_nvenc".to_string(),
        scaling: ScalingMethod::Cuda,
        resolution: "1080p".to_string(),
        monitor_width: 2560,
        monitor_height: 1440,
        bitrate: "20M".to_string(),
        fps: "60".to_string(),
        tier: HardwareTier::Strong,
        logical_cores: 16,
        mic_device: "Headset".to_string(),
        mic_volume: "1.5".to_string(),
    };
    assert_eq!(
        diagnostic_header(&p),
        "=== CLIP TOOL BUFFER DIAGNOSE-BERICHT ===\nZeitpunkt: 2026-01-02 03:04:05\nGewählter Codec: HEVC\nErkannter Encoder: hevc_nvenc\nScaling Methode: Cuda\nAuflösung: 1080p (Monitor: 2560x1440)\nBitrate: 20M\nFPS: 60\nHardware Tier: Strong (CPUs: 16)\nMikrofon: Headset (Vol: 1.5)\n"
    );
}

#[test]
fn tray_entries_map_to_actions() {
    assert_eq!(tray_action("quit"), TrayAction::Quit);
    assert_eq!(tray_action("show"), TrayAction::Show);
    assert_eq!(tray_action("hide"), TrayAction::Hide);
    assert_eq!(tray_action("Quit"), TrayAction::Ignore);
    assert!(hides_on_close("main"));
    assert!(!hides_on_close("editor"));
}

#[test]
fn quitting_waits_at_most_forty_checks() {
    assert!(quit_waits(0, true));
    assert!(quit_waits(39, true));
    assert!(!quit_waits(40, true));
    assert!(!quit_waits(3, false));
}

#[test]
fn only_the_latest_overlay_notification_hides() {
    let mut seq = OverlaySequence::new();
    let first = seq.notify();
    let second = seq.notify();
    assert_eq!((first, second), (1, 2));
    assert!(!seq.hides(first));
    assert!(seq.hides(second));
}
