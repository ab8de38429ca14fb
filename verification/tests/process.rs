use drop_app::errors::{PlaytimeError, ProcessError};
use drop_app::models::{
    ApplicationTransientStatus, Applications, DownloadType, DownloadableMetadata, GameDownloadStatus, GameVersion,
    Platform,
};
use drop_app::library::on_game_complete;
use drop_app::process::{
    create_launch_process, fetch_process_handler, get_log_dir, kill_game, log_file_names, on_process_finish,
    plan_launch, prepare_launch, recognize_platform, record_launch, valid_platform, AsahiMuvmLauncher,
    LaunchEnvironment, LauncherKind, NativeGameLauncher, ProcessCommand, ProcessExit, ProcessRegistry, UMULauncher,
};

fn s(x: &str) -> String {
    x.to_string()
}

/// An instant `n` seconds after the epoch, in nanoseconds.
fn secs(n: u64) -> u64 {
    n * 1_000_000_000
}

fn env(platform: Platform, umu: Option<bool>, aarch64: bool, page: usize) -> LaunchEnvironment {
    LaunchEnvironment { current_platform: platform, umu_installed: umu, linux_aarch64: aarch64, page_size: page }
}

fn gv(platform: Platform, setup: &str, umu_override: Option<&str>) -> GameVersion {
    GameVersion {
        game_id: s("game-1"),
        version_name: s("1.0"),
        platform,
        launch_command: s("bin/game.exe"),
        launch_args: vec![s("-w"), s("--safe")],
        setup_command: s(setup),
        setup_args: vec![s("--install")],
        launch_command_template: s("{}"),
        umu_id_override: umu_override.map(|o| s(o)),
    }
}

#[test]
fn shell_style_command_strings() {
    let mut c = ProcessCommand::new(s("old"), vec![]);
    assert!(matches!(c.set("game --flag 'a b'"), Ok(true)));
    assert_eq!(c.command, "game");
    assert_eq!(c.args, vec![s("--flag"), s("a b")]);
    assert!(matches!(c.set(""), Ok(false)));
    assert_eq!(c.command, "game");
    assert!(c.set("'unterminated").is_err());
    assert_eq!(c.command, "game");
    let (cmd, args) = c.into_readable_with_dir(&s("/opt/g"));
    assert_eq!(cmd, "/opt/g/game");
    assert_eq!(args.len(), 2);
    assert_eq!(ProcessCommand::process_command(&s("/opt/g"), "run"), "/opt/g/run");
    c.set_command(s("x"));
    c.set_args(vec![]);
    assert_eq!(c.into_readable(), (s("x"), vec![]));
    assert_eq!(c.get_command(&s("/d")), "/d/x");
}

#[test]
fn platform_names() {
    assert_eq!(recognize_platform(" Linux "), Some(Platform::Linux));
    assert_eq!(recognize_platform("WINDOWS"), Some(Platform::Windows));
    assert_eq!(recognize_platform("macOS"), Some(Platform::MacOs));
    assert_eq!(recognize_platform("mac"), Some(Platform::MacOs));
    assert_eq!(recognize_platform("beos"), None);
    assert_eq!(Platform::from_name("linux"), Platform::Linux);
    assert!(Platform::Linux.is_case_sensitive());
    assert!(!Platform::Windows.is_case_sensitive());
}

#[test]
fn launcher_choice() {
    let linux = env(Platform::Linux, Some(true), false, 4096);
    assert!(matches!(fetch_process_handler(&linux, Platform::Linux), Ok(LauncherKind::Native)));
    assert!(matches!(fetch_process_handler(&linux, Platform::Windows), Ok(LauncherKind::Umu)));
    assert!(matches!(fetch_process_handler(&linux, Platform::MacOs), Err(ProcessError::InvalidPlatform)));
    let asahi = env(Platform::Linux, Some(true), true, 16384);
    assert!(matches!(fetch_process_handler(&asahi, Platform::Windows), Ok(LauncherKind::AsahiMuvm)));
    let no_umu = env(Platform::Linux, None, false, 4096);
    assert!(!valid_platform(&no_umu, Platform::Windows));
    let windows = env(Platform::Windows, None, false, 4096);
    assert!(valid_platform(&windows, Platform::Windows));
    assert!(!valid_platform(&windows, Platform::Linux));
}

#[test]
fn launch_lines() {
    let args = vec![s("-w"), s("--safe")];
    assert_eq!(NativeGameLauncher.create_launch_process("/g/run.sh", &args), "\"/g/run.sh\" -w --safe");
    let v = gv(Platform::Windows, "", None);
    assert_eq!(
        UMULauncher.create_launch_process("/g/game.exe", &args, &v),
        "GAMEID=game-1 umu-run \"/g/game.exe\" -w --safe"
    );
    let o = gv(Platform::Windows, "", Some("umu-123"));
    assert_eq!(
        UMULauncher.create_launch_process("/g/game.exe", &args, &o),
        "GAMEID=umu-123 umu-run \"/g/game.exe\" -w --safe"
    );
    let empty = gv(Platform::Windows, "", Some(""));
    assert_eq!(
        UMULauncher.create_launch_process("/g/game.exe", &vec![], &empty),
        "GAMEID=game-1 umu-run \"/g/game.exe\" "
    );
    assert_eq!(
        AsahiMuvmLauncher.create_launch_process("/g/game.exe", &args, &v),
        "GAMEID=game-1 muvm -- umu-run \"/g/game.exe\" -w --safe"
    );
    assert_eq!(
        create_launch_process(LauncherKind::Native, "/x", &vec![], &v),
        "\"/x\" "
    );
}

fn installed(setup: &str, platform: Platform) -> Applications {
    let mut db = Applications::new(vec![]);
    let meta = DownloadableMetadata::new(s("game-1"), Some(s("1.0")), DownloadType::Game);
    on_game_complete(&mut db, &meta, s("/games/game-1"), gv(platform, setup, None)).ok().unwrap();
    db
}

#[test]
fn launching_an_installed_game() {
    let db = installed("", Platform::Linux);
    let registry = ProcessRegistry::new();
    let target = match prepare_launch(&registry, &db, &s("game-1")) {
        Ok(t) => t,
        Err(_) => panic!("installed game launches"),
    };
    assert!(!target.setup);
    assert_eq!(target.install_dir, "/games/game-1");
    let plan = match plan_launch(&db, &target, &env(Platform::Linux, None, false, 4096)) {
        Ok(p) => p,
        Err(_) => panic!("linux game on linux"),
    };
    assert_eq!(plan.launch_path, "/games/game-1/bin/game.exe");
    assert_eq!(plan.launch_string, "\"/games/game-1/bin/game.exe\" -w --safe");
    assert_eq!(plan.template, "{}");
    match plan_launch(&db, &target, &env(Platform::Windows, None, false, 4096)) {
        Err(e) => assert_eq!(e.message(), "This game cannot be played on the current platform"),
        Ok(_) => panic!("expected InvalidPlatform"),
    }
}

#[test]
fn setup_runs_the_setup_command() {
    let db = installed("setup.sh", Platform::Linux);
    let registry = ProcessRegistry::new();
    let target = prepare_launch(&registry, &db, &s("game-1")).ok().unwrap();
    assert!(target.setup);
    let plan = plan_launch(&db, &target, &env(Platform::Linux, None, false, 4096)).ok().unwrap();
    assert_eq!(plan.launch_string, "\"/games/game-1/setup.sh\" --install");
}

#[test]
fn launch_refusals() {
    let mut db = installed("", Platform::Linux);
    let mut registry = ProcessRegistry::new();
    assert!(matches!(prepare_launch(&registry, &db, &s("other")), Err(ProcessError::NotInstalled)));
    let meta = DownloadableMetadata::new(s("game-1"), Some(s("1.0")), DownloadType::Game);
    record_launch(&mut db, &mut registry, &meta, secs(100));
    assert!(matches!(db.transient_statuses.get(&meta), Some(ApplicationTransientStatus::Running)));
    assert!(matches!(prepare_launch(&registry, &db, &s("game-1")), Err(ProcessError::AlreadyRunning)));
    db.game_statuses.insert(
        s("ghost"),
        GameDownloadStatus::Installed { version_name: s("1"), install_dir: s("/x") },
    );
    assert!(matches!(prepare_launch(&registry, &db, &s("ghost")), Err(ProcessError::InvalidID)));
}

#[test]
fn process_end_handling() {
    let mut db = installed("setup.sh", Platform::Linux);
    let mut registry = ProcessRegistry::new();
    let meta = DownloadableMetadata::new(s("game-1"), Some(s("1.0")), DownloadType::Game);
    record_launch(&mut db, &mut registry, &meta, secs(100));
    assert_eq!(on_process_finish(&mut db, &mut registry, &s("game-1"), ProcessExit::Exited(true), secs(500)), Some(false));
    assert!(matches!(db.game_statuses.get(&s("game-1")), Some(GameDownloadStatus::Installed { .. })));
    assert!(db.transient_statuses.get(&meta).is_none());
    assert_eq!(on_process_finish(&mut db, &mut registry, &s("game-1"), ProcessExit::Exited(true), secs(600)), None);
    record_launch(&mut db, &mut registry, &meta, secs(1000));
    assert_eq!(on_process_finish(&mut db, &mut registry, &s("game-1"), ProcessExit::Exited(true), secs(1001)), Some(true));
    record_launch(&mut db, &mut registry, &meta, secs(1000));
    // 2.9 seconds still counts as two whole seconds: a quick exit.
    assert_eq!(
        on_process_finish(&mut db, &mut registry, &s("game-1"), ProcessExit::Exited(true), secs(1002) + 900_000_000),
        Some(true)
    );
    record_launch(&mut db, &mut registry, &meta, secs(1000));
    assert_eq!(on_process_finish(&mut db, &mut registry, &s("game-1"), ProcessExit::Exited(true), secs(1003)), Some(false));
    record_launch(&mut db, &mut registry, &meta, secs(1000));
    assert!(kill_game(&mut registry, &s("game-1")).is_ok());
    assert_eq!(on_process_finish(&mut db, &mut registry, &s("game-1"), ProcessExit::WaitFailed, secs(1001)), Some(false));
    match kill_game(&mut registry, &s("game-1")) {
        Err(e) => assert_eq!(e.message(), "Game ID not running"),
        Ok(()) => panic!("not running"),
    }
}

#[test]
fn log_locations() {
    assert_eq!(get_log_dir(&s("/data/logs"), &s("g")), "/data/logs/g");
    assert_eq!(log_file_names(&s("1.0"), 1700000000), (s("1.0-1700000000.log"), s("1.0-1700000000-error.log")));
    assert_eq!(log_file_names(&s("v"), -5), (s("v--5.log"), s("v--5-error.log")));
}

#[test]
fn detected_environment_measures_the_page_size() {
    let e = LaunchEnvironment::detect(Platform::Linux, Some(false), false);
    assert!(e.page_size > 0);
    assert_eq!(e.current_platform, Platform::Linux);
}

#[test]
fn process_error_messages() {
    assert_eq!(ProcessError::SetupRequired.message(), "Game not set up");
    assert_eq!(ProcessError::NotInstalled.message(), "Game not installed");
    assert_eq!(ProcessError::AlreadyRunning.message(), "Game already running");
    assert_eq!(ProcessError::NotDownloaded.message(), "Game not downloaded");
    assert_eq!(ProcessError::InvalidID.message(), "Invalid game ID");
    assert_eq!(ProcessError::InvalidVersion.message(), "Invalid game version");
    assert_eq!(ProcessError::IOError(s("disk")).message(), "disk");
    assert_eq!(ProcessError::FormatError(s("bad")).message(), "Failed to format template: bad");
    assert_eq!(ProcessError::OpenerError(s("no")).message(), "Failed to open directory: no");
    assert_eq!(ProcessError::PlaytimeError(s("p")).message(), "p");
    let p = PlaytimeError::SessionNotFound(s("g")).into_process_error();
    assert_eq!(p.message(), "Session not found for game: g");
}
