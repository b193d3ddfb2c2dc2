//! Verified core of a game and screen clipping tool: transport-stream
//! inspection, the in-memory replay buffer, capture-pipeline argument
//! construction, configuration defaults and the decision logic of the
//! background monitors.
pub mod mpeg_ts;
pub mod text;
pub mod video_buffer;
pub mod paths;
pub mod config;
pub mod hardware;
pub mod process_list;
pub mod sorting;
pub mod args;
pub mod recorder;
pub mod capture_args;
pub mod editor;
pub mod export;
pub mod library;
pub mod cleanup;
pub mod audio_files;
pub mod audio_track;
pub mod stitch;
pub mod controls;
pub mod monitors;
pub mod diagnostics;
pub mod tray;
