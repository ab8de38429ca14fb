use drop_app::catalog::{
    installed_directories, installed_not_in_library, installed_version_record, mark_missing_games, offline_library,
    register_library, Game,
};
use drop_app::download_agent::GameDownloadAgent;
use drop_app::errors::LibraryError;
use drop_app::keymap::AssocMap;
use drop_app::library::{
    begin_uninstall, ensure_remote_status, finish_uninstall, get_current_meta, on_game_complete, resume_target,
    set_partially_installed_db, update_game_configuration, FrontendGameOptions,
};
use drop_app::models::{
    ApplicationTransientStatus, Applications, DownloadType, DownloadableMetadata, GameDownloadStatus, GameVersion,
    Platform,
};
use drop_app::state::GameStatusManager;

fn s(x: &str) -> String {
    x.to_string()
}

fn version(game: &str, name: &str, setup: &str) -> GameVersion {
    GameVersion {
        game_id: s(game),
        version_name: s(name),
        platform: Platform::Linux,
        launch_command: s("run.sh"),
        launch_args: vec![s("--fast")],
        setup_command: s(setup),
        setup_args: vec![],
        launch_command_template: s("{}"),
        umu_id_override: None,
    }
}

fn meta(id: &str, v: &str) -> DownloadableMetadata {
    DownloadableMetadata::new(s(id), Some(s(v)), DownloadType::Game)
}

fn game(id: &str) -> Game {
    Game {
        id: s(id),
        m_name: s(id),
        m_short_description: s(""),
        m_description: s(""),
        m_icon_object_id: s(""),
        m_banner_object_id: s(""),
        m_cover_object_id: s(""),
        m_image_library_object_ids: vec![],
        m_image_carousel_object_ids: vec![],
    }
}

fn installed_db(id: &str, setup: &str) -> Applications {
    let mut db = Applications::new(vec![s("/games")]);
    let m = meta(id, "1.0");
    let status = on_game_complete(&mut db, &m, s("/games/x"), version(id, "1.0", setup)).ok().unwrap();
    assert!(matches!(status, GameDownloadStatus::Installed { .. }) == setup.is_empty());
    db
}

#[test]
fn completed_download_is_installed_or_needs_setup() {
    let mut db = Applications::new(vec![]);
    let st = on_game_complete(&mut db, &meta("a", "1.0"), s("/g/a"), version("a", "1.0", "")).ok().unwrap();
    match st {
        GameDownloadStatus::Installed { version_name, install_dir } => {
            assert_eq!(version_name, "1.0");
            assert_eq!(install_dir, "/g/a");
        },
        _ => panic!("expected Installed"),
    }
    let st = on_game_complete(&mut db, &meta("b", "2.0"), s("/g/b"), version("b", "2.0", "setup.sh")).ok().unwrap();
    assert!(matches!(st, GameDownloadStatus::SetupRequired { .. }));
    assert!(get_current_meta(&db, &s("b")).is_some());
    let (status, transient) = GameStatusManager::fetch_state(&s("b"), &db);
    assert!(matches!(status, Some(GameDownloadStatus::SetupRequired { .. })));
    assert!(transient.is_none());
}

#[test]
fn transient_status_takes_precedence() {
    let mut db = installed_db("a", "");
    db.transient_statuses.insert(meta("a", "1.0"), ApplicationTransientStatus::Running);
    let (status, transient) = GameStatusManager::fetch_state(&s("a"), &db);
    assert!(status.is_none());
    assert!(matches!(transient, Some(ApplicationTransientStatus::Running)));
    let (status, transient) = GameStatusManager::fetch_state_with_db(&s("unknown"), &db);
    assert!(status.is_none() && transient.is_none());
}

#[test]
fn uninstalled_game_shows_as_remote() {
    let mut db = installed_db("a", "");
    db.transient_statuses.insert(meta("a", "1.0"), ApplicationTransientStatus::Running);
    let dir = begin_uninstall(&mut db, &meta("a", "1.0"));
    assert_eq!(dir, Some(s("/games/x")));
    let (_, transient) = GameStatusManager::fetch_state(&s("a"), &db);
    assert!(matches!(transient, Some(ApplicationTransientStatus::Uninstalling)));
    finish_uninstall(&mut db, &meta("a", "1.0"));
    let (status, transient) = GameStatusManager::fetch_state(&s("a"), &db);
    assert!(matches!(status, Some(GameDownloadStatus::Remote)));
    assert!(transient.is_none());
    assert!(get_current_meta(&db, &s("a")).is_none());
}

#[test]
fn uninstall_of_a_remote_game_has_nothing_to_remove() {
    let mut db = Applications::new(vec![]);
    ensure_remote_status(&mut db, &s("r"));
    assert_eq!(begin_uninstall(&mut db, &meta("r", "1.0")), None);
}

#[test]
fn cancelled_download_resumes_where_it_was() {
    let mut db = Applications::new(vec![]);
    let agent = match GameDownloadAgent::new(s("g"), s("1.2"), &s("/games"), None, Vec::new(), 0) {
        Ok(a) => a,
        Err(_) => panic!("an empty manifest fits"),
    };
    agent.cancel(&mut db);
    let (status, transient) = GameStatusManager::fetch_state(&s("g"), &db);
    assert!(transient.is_none());
    match status {
        Some(GameDownloadStatus::PartiallyInstalled { version_name, install_dir }) => {
            assert_eq!(version_name, "1.2");
            assert_eq!(install_dir, "/games/g");
        },
        _ => panic!("expected PartiallyInstalled"),
    }
    assert_eq!(resume_target(&db, &s("g")), (s("1.2"), s("/games/g")));
}

#[test]
fn partially_installed_record() {
    let mut db = Applications::new(vec![]);
    db.transient_statuses.insert(meta("p", "3"), ApplicationTransientStatus::Downloading { version_name: s("3") });
    set_partially_installed_db(&mut db, &meta("p", "3"), s("/d/p"));
    assert!(!db.transient_statuses.contains_key(&meta("p", "3")));
    assert_eq!(resume_target(&db, &s("p")), (s("3"), s("/d/p")));
}

#[test]
fn game_configuration_updates_the_template() {
    let mut db = installed_db("a", "");
    let r = update_game_configuration(&mut db, s("a"), FrontendGameOptions { launch_string: s("gamemoderun {}") });
    assert!(r.is_ok());
    let gv = installed_version_record(&db, &s("a")).unwrap();
    assert_eq!(gv.launch_command_template, "gamemoderun {}");
    assert_eq!(gv.launch_command, "run.sh");
    match update_game_configuration(&mut db, s("missing"), FrontendGameOptions { launch_string: s("") }) {
        Err(e) => {
            assert!(matches!(&e, LibraryError::MetaNotFound(id) if id == "missing"));
            assert_eq!(e.message(), "Could not locate any installed version of game ID missing in the database");
        },
        Ok(()) => panic!("expected MetaNotFound"),
    }
}

#[test]
fn version_record_of_uninstalled_game_is_none() {
    let db = Applications::new(vec![]);
    assert!(installed_version_record(&db, &s("a")).is_none());
}

#[test]
fn registering_the_library_adds_remote_statuses() {
    let mut db = installed_db("a", "");
    register_library(&mut db, &vec![game("a"), game("b")]);
    assert!(matches!(db.game_statuses.get(&s("a")), Some(GameDownloadStatus::Installed { .. })));
    assert!(matches!(db.game_statuses.get(&s("b")), Some(GameDownloadStatus::Remote)));
    assert!(db.game_statuses.get(&s("c")).is_none());
}

#[test]
fn installed_games_missing_from_the_library() {
    let mut db = installed_db("a", "");
    on_game_complete(&mut db, &meta("b", "1"), s("/g/b"), version("b", "1", "")).ok().unwrap();
    assert_eq!(installed_not_in_library(&db, &vec![s("a")]), vec![s("b")]);
    assert!(installed_not_in_library(&db, &vec![s("a"), s("b")]).is_empty());
}

#[test]
fn offline_library_keeps_playable_games() {
    let mut db = installed_db("a", "");
    on_game_complete(&mut db, &meta("b", "1"), s("/g/b"), version("b", "1", "setup")).ok().unwrap();
    ensure_remote_status(&mut db, &s("c"));
    let kept = offline_library(vec![game("a"), game("b"), game("c"), game("d")], &db);
    let ids: Vec<String> = kept.iter().map(|g| g.id.clone()).collect();
    assert_eq!(ids, vec![s("a"), s("b")]);
}

#[test]
fn missing_install_directories_turn_remote() {
    let mut db = installed_db("a", "");
    on_game_complete(&mut db, &meta("b", "1"), s("/g/b"), version("b", "1", "setup")).ok().unwrap();
    let dirs = installed_directories(&db);
    assert_eq!(dirs, vec![(s("a"), s("/games/x")), (s("b"), s("/g/b"))]);
    mark_missing_games(&mut db, &vec![s("b"), s("zzz")]);
    assert!(matches!(db.game_statuses.get(&s("b")), Some(GameDownloadStatus::Remote)));
    assert!(matches!(db.game_statuses.get(&s("a")), Some(GameDownloadStatus::Installed { .. })));
    assert!(db.game_statuses.get(&s("zzz")).is_none());
}

#[test]
fn assoc_map_basics() {
    let mut m: AssocMap<String, u32> = AssocMap::new();
    m.insert(s("a"), 1);
    m.insert(s("b"), 2);
    m.insert(s("a"), 3);
    assert_eq!(m.len(), 2);
    assert_eq!(m.get(&s("a")), Some(&3));
    assert_eq!(m.key_at_index(1), &s("b"));
    assert_eq!(m.remove(&s("a")), Some(3));
    assert!(!m.contains_key(&s("a")));
    assert_eq!(m.len(), 1);
}

#[test]
fn completion_without_a_version_is_game_not_found() {
    let mut db = Applications::new(vec![]);
    let m = DownloadableMetadata::new(s("nov"), None, DownloadType::Game);
    match on_game_complete(&mut db, &m, s("/g/nov"), version("nov", "1", "")) {
        Err(e) => {
            assert!(matches!(&e, drop_app::errors::RemoteAccessError::GameNotFound(id) if id == "nov"));
            assert_eq!(e.message(), "could not find game on server");
        },
        Ok(_) => panic!("expected GameNotFound"),
    }
    assert!(db.game_statuses.get(&s("nov")).is_none());
    assert!(get_current_meta(&db, &s("nov")).is_none());
    assert_eq!(db.game_versions.len(), 0);
}
