use drop_app::catalog::{classify_game_response, game_not_found, installable_versions, unreadable_library_error, GameResponse};
use drop_app::compat::CompatibilityManager;
use drop_app::disks::get_disk_available;
use drop_app::errors::{ApplicationDownloadError, BackupError, DownloadManagerError, SetupError};
use drop_app::models::{GameVersion, Platform};
use drop_app::process::LaunchEnvironment;
use drop_app::scheduler::{TaskData, TEST_TASK_TIMEFRAME};
use drop_app::settings::Settings;
use drop_app::shell::{
    corrupted_database_message, crash_file_name, crash_report, is_handshake_link, menu_action, tray_enabled,
    MenuAction,
};
use drop_app::tools::{Registry, ToolDownloadAgent};
use drop_app::unpacker::{chunk_file_name, chunk_offset, generate_permissions, UNPACK_CHUNK_SIZE};

fn s(x: &str) -> String {
    x.to_string()
}

#[test]
fn permissions_from_owner_flags() {
    assert_eq!(generate_permissions(vec![true, true, true]), 0o744);
    assert_eq!(generate_permissions(vec![true, true, false]), 0o644);
    assert_eq!(generate_permissions(vec![false, false, false]), 0o044);
    assert_eq!(generate_permissions(vec![true, false, true, true]), 0o544);
}

#[test]
fn chunk_positions() {
    assert_eq!(chunk_offset(0), 0);
    assert_eq!(chunk_offset(3), 3 * UNPACK_CHUNK_SIZE);
    assert_eq!(UNPACK_CHUNK_SIZE, 16 * 1024 * 1024);
    assert_eq!(chunk_file_name("abc"), "abc.bin");
}

#[test]
fn settings_defaults() {
    let d = Settings::default();
    assert!(!d.autostart);
    assert_eq!(d.max_download_threads, 4);
}

#[test]
fn task_runs_every_timeframe() {
    let mut t = TaskData::new(3);
    let runs: Vec<bool> = (0..7).map(|_| t.tick()).collect();
    assert_eq!(runs, vec![false, false, true, false, false, true, false]);
    let mut every = TaskData::new(TEST_TASK_TIMEFRAME);
    assert!(every.tick());
    assert!(every.tick());
    let mut zero = TaskData::new(0);
    assert!(zero.tick());
}

#[test]
fn compatibility_directories() {
    let mut c = CompatibilityManager::new("/data");
    assert_eq!(c.compat_tools_path, "/data/compatibility_tools");
    assert_eq!(c.prefixes_path, "/data/prefixes");
    assert!(c.needs_paths());
    c.mark_paths_created();
    assert!(!c.needs_paths());
}

#[test]
fn tray_and_menu() {
    assert!(tray_enabled(None));
    assert!(!tray_enabled(Some("true")));
    assert!(!tray_enabled(Some("TRUE")));
    assert!(tray_enabled(Some("false")));
    assert!(tray_enabled(Some(" true")));
    assert!(matches!(menu_action("open"), MenuAction::Open));
    assert!(matches!(menu_action("quit"), MenuAction::Quit));
    assert!(matches!(menu_action("other"), MenuAction::Unhandled));
    assert!(is_handshake_link("handshake"));
    assert!(!is_handshake_link("store"));
}

#[test]
fn shell_texts() {
    assert_eq!(crash_file_name(1700000000), "crash-1700000000.log");
    assert_eq!(crash_report("boom"), "Drop crashed with the following panic:\nboom");
    assert_eq!(corrupted_database_message("/d/db.bak"), "Database corrupted. A copy has been saved at: /d/db.bak");
}

#[test]
fn game_responses() {
    assert!(matches!(classify_game_response(200), GameResponse::Found));
    assert!(matches!(classify_game_response(404), GameResponse::Missing));
    assert!(matches!(classify_game_response(500), GameResponse::Failed));
    let e = unreadable_library_error();
    assert_eq!(e.status_code, 500);
    assert_eq!(e.status_message, "Invalid response from server.");
    assert_eq!(game_not_found(s("g")).message(), "could not find game on server");
}

fn version(platform: Platform) -> GameVersion {
    GameVersion {
        game_id: s("g"),
        version_name: s("v"),
        platform,
        launch_command: s("x"),
        launch_args: vec![],
        setup_command: s(""),
        setup_args: vec![],
        launch_command_template: s("{}"),
        umu_id_override: None,
    }
}

#[test]
fn only_runnable_versions_are_offered() {
    let env = LaunchEnvironment { current_platform: Platform::Linux, umu_installed: None, linux_aarch64: false, page_size: 4096 };
    let kept = installable_versions(&env, vec![version(Platform::Windows), version(Platform::Linux), version(Platform::MacOs)]);
    assert_eq!(kept.len(), 1);
    assert_eq!(kept[0].platform, Platform::Linux);
}

#[test]
fn other_error_messages() {
    assert_eq!(BackupError::InvalidSystem.message(), "Attempted to generate path for invalid system");
    assert_eq!(BackupError::NotFound.message(), "Could not generate or find path");
    assert_eq!(BackupError::ParseError.message(), "Failed to parse path");
    assert_eq!(DownloadManagerError::<u8>::IOError(s("io")).message(), "io");
    assert_eq!(DownloadManagerError::SignalError(1u8).message(), "sending on a closed channel");
    assert_eq!(SetupError::Context.message(), "failed to generate contexts for download");
    assert_eq!(ApplicationDownloadError::Checksum.message(), "checksum failed to validate for download");
    assert_eq!(ApplicationDownloadError::IoError(s("denied")).message(), "io error: denied");
    assert_eq!(
        ApplicationDownloadError::Lock.message(),
        "failed to acquire lock. Something has gone very wrong internally. Please restart the application"
    );
    assert_eq!(
        ApplicationDownloadError::DownloadError.message(),
        "Download failed. See Download Manager status for specific error"
    );
    assert_eq!(ApplicationDownloadError::DiskFull(2048, 1536).message(), "Game requires 2 KiB, 1.50 KiB remaining left on disk.");
}

#[test]
fn tool_registry_starts_empty() {
    let r: Registry<ToolDownloadAgent> = Registry::new();
    assert_eq!(r.tools.len(), 0);
    let t = ToolDownloadAgent { id: s("umu"), version: s("1"), location: s("/t") };
    assert_eq!(t.id, "umu");
}

#[test]
fn free_space_comes_from_the_most_specific_disk() {
    let disks = vec![(s("/"), 100u64), (s("/home"), 50), (s("/homer"), 7)];
    assert_eq!(get_disk_available("/home/user/games", &disks).ok(), Some(50));
    assert_eq!(get_disk_available("/homer/x", &disks).ok(), Some(7));
    assert_eq!(get_disk_available("/var/games", &disks).ok(), Some(100));
    match get_disk_available("games", &disks) {
        Err(e) => assert_eq!(e.message(), "io error: other error"),
        Ok(_) => panic!("a relative path is on no listed disk"),
    }
}
