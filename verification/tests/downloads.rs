use drop_app::buckets::{plan_buckets, TARGET_BUCKET_SIZE};
use drop_app::download_agent::{
    bucket_step, should_retry, BucketStep, DownloadStatus, GameDownloadAgent, RETRY_COUNT,
};
use drop_app::download_logic::{
    check_content_lengths, chunk_matches, chunk_response_error, missing_lengths_error, verify_checksums,
};
use drop_app::drop_data::DropData;
use drop_app::errors::{ApplicationDownloadError, DropServerError, RemoteAccessError};
use drop_app::manifest::{ChunkBody, DownloadContext, DownloadDrop, DropChunk, DropValidateContext};
use drop_app::models::{ApplicationTransientStatus, Applications, DownloadableMetadata, DownloadType};

fn s(x: &str) -> String {
    x.to_string()
}

fn chunk(lengths: Vec<usize>, checksums: &[&str]) -> DropChunk {
    DropChunk {
        permissions: 0o755,
        ids: checksums.iter().map(|c| s(c)).collect(),
        checksums: checksums.iter().map(|c| s(c)).collect(),
        lengths,
        version_name: s("1.0"),
    }
}

fn manifest() -> Vec<(String, DropChunk)> {
    vec![
        (s("a.bin"), chunk(vec![100, 200], &["c0", "c1"])),
        (s("b.bin"), chunk(vec![250_000_000], &["c2"])),
    ]
}

fn agent(available: u64) -> Result<GameDownloadAgent, ApplicationDownloadError> {
    GameDownloadAgent::new(s("game"), s("1.0"), &s("/games"), None, manifest(), available)
}

#[test]
fn large_drops_get_their_own_bucket() {
    let buckets = plan_buckets(&s("game"), &s("1.0"), &s("/games/game"), &manifest());
    assert_eq!(buckets.len(), 2);
    let first: Vec<&str> = buckets[0].drops.iter().map(|d| d.checksum.as_str()).collect();
    let second: Vec<&str> = buckets[1].drops.iter().map(|d| d.checksum.as_str()).collect();
    assert_eq!(first, vec!["c2"]);
    assert_eq!(second, vec!["c0", "c1"]);
    let a1 = &buckets[1].drops[1];
    assert_eq!(a1.index, 1);
    assert_eq!(a1.start, 100);
    assert_eq!(a1.length, 200);
    assert_eq!(a1.filename, "a.bin");
    assert_eq!(a1.path, "/games/game/a.bin");
    assert_eq!(a1.permissions, 0o755);
    assert!(buckets.iter().all(|b| b.game_id == "game" && b.version == "1.0"));
}

#[test]
fn small_drops_fill_a_bucket_up_to_the_target() {
    let half = TARGET_BUCKET_SIZE / 2;
    let m = vec![(s("f"), chunk(vec![half, half - 1, half, 10], &["x0", "x1", "x2", "x3"]))];
    let buckets = plan_buckets(&s("g"), &s("v"), &s("/b"), &m);
    let sizes: Vec<usize> = buckets.iter().map(|b| b.drops.len()).collect();
    // x0 + x1 stays below the target; adding x2 would reach it.
    assert_eq!(sizes, vec![2, 2]);
    let total: usize = buckets.iter().flat_map(|b| b.drops.iter()).map(|d| d.length).sum();
    assert_eq!(total, half + half - 1 + half + 10);
}

#[test]
fn too_little_space_is_refused() {
    match agent(100) {
        Err(e) => {
            assert!(matches!(e, ApplicationDownloadError::DiskFull(250000300, 100)));
            assert_eq!(e.message(), "Game requires 238.42 MiB, 100 B remaining left on disk.");
        },
        Ok(_) => panic!("expected DiskFull"),
    }
}

#[test]
fn a_download_completes_once_every_chunk_is_fetched() {
    let mut db = Applications::new(vec![]);
    let mut a = match agent(1 << 40) {
        Ok(a) => a,
        Err(_) => panic!("enough space"),
    };
    assert!(a.check_manifest_exists());
    assert!(a.setup_download(&mut db).is_ok());
    let m = a.metadata();
    assert!(matches!(
        db.transient_statuses.get(&m),
        Some(ApplicationTransientStatus::Downloading { version_name }) if version_name == "1.0"
    ));
    assert_eq!(a.buckets.len(), 2);
    let totals = a.setup_progress();
    assert_eq!(totals.max, 250000300);
    assert_eq!(totals.size, 3);
    let (todo, skipped) = a.pending_drops(&a.buckets[1]);
    assert_eq!(todo.len(), 2);
    assert_eq!(skipped, 0);
    assert!(!a.finish_run(&vec![s("c0")]));
    a.ensure_buckets().ok().unwrap();
    let (todo, skipped) = a.pending_drops(&a.buckets[1]);
    assert_eq!(todo.len(), 1);
    assert_eq!(skipped, 100);
    assert!(a.finish_run(&vec![s("c1"), s("c2")]));
    assert_eq!(a.dropdata.get_completed_contexts().len(), 3);
    a.set_status(DownloadStatus::Validating);
    assert_eq!(a.status, DownloadStatus::Validating);
}

#[test]
fn download_without_manifest_is_not_initialised() {
    let mut db = Applications::new(vec![]);
    let mut a = agent(1 << 40).ok().unwrap();
    a.manifest = None;
    match a.setup_download(&mut db) {
        Err(e) => {
            assert!(matches!(e, ApplicationDownloadError::NotInitialized));
            assert_eq!(e.message(), "Download not initalized, did something go wrong?");
        },
        Ok(()) => panic!("expected NotInitialized"),
    }
}

#[test]
fn validation_marks_failed_chunks_incomplete() {
    let mut db = Applications::new(vec![]);
    let mut a = agent(1 << 40).ok().unwrap();
    a.setup_download(&mut db).ok().unwrap();
    assert!(a.finish_run(&vec![s("c0"), s("c1"), s("c2")]));
    let contexts = a.validation_contexts();
    assert_eq!(contexts.len(), 3);
    assert_eq!(contexts[0].checksum, "c2");
    assert_eq!(contexts[2].offset, 100);
    assert!(!a.apply_validation(&vec![s("c1")]));
    let done = a.dropdata.get_completed_contexts();
    assert_eq!(done.len(), 2);
    assert!(!done.contains(&s("c1")));
    assert!(a.apply_validation(&Vec::new()));
    let totals = a.setup_validate(&mut db);
    assert_eq!(totals.size, 3);
    assert!(matches!(db.transient_statuses.get(&a.metadata()), Some(ApplicationTransientStatus::Validating { .. })));
}

#[test]
fn error_drops_the_transient_status() {
    let mut db = Applications::new(vec![]);
    let mut a = agent(1 << 40).ok().unwrap();
    a.setup_download(&mut db).ok().unwrap();
    a.on_error(&mut db);
    assert_eq!(a.status, DownloadStatus::Error);
    assert!(db.transient_statuses.get(&a.metadata()).is_none());
}

#[test]
fn retries_stop_after_the_last_attempt() {
    let comm = ApplicationDownloadError::Communication(RemoteAccessError::OutOfSync);
    assert!(should_retry(&comm, 0));
    assert!(should_retry(&ApplicationDownloadError::Checksum, 1));
    assert!(!should_retry(&ApplicationDownloadError::Lock, RETRY_COUNT - 1));
    assert!(!should_retry(&ApplicationDownloadError::DownloadError, 0));
    assert!(matches!(bucket_step(Ok(true), 0), BucketStep::Completed));
    assert!(matches!(bucket_step(Ok(false), 0), BucketStep::Stopped));
    assert!(matches!(bucket_step(Err(ApplicationDownloadError::Lock), 0), BucketStep::Retry));
    assert!(matches!(
        bucket_step(Err(ApplicationDownloadError::Lock), RETRY_COUNT - 1),
        BucketStep::Failed(ApplicationDownloadError::Lock)
    ));
}

fn drop(checksum: &str, length: usize) -> DownloadDrop {
    DownloadDrop {
        index: 0,
        filename: s("f"),
        path: s("/p/f"),
        start: 0,
        length,
        checksum: s(checksum),
        permissions: 0o644,
    }
}

#[test]
fn content_lengths_must_match_the_drops() {
    let drops = vec![drop("a", 100), drop("b", 200)];
    assert!(check_content_lengths("100,200", &drops).is_ok());
    assert!(check_content_lengths("100", &drops).is_ok());
    assert!(matches!(check_content_lengths("100,201", &drops), Err(ApplicationDownloadError::DownloadError)));
    assert!(matches!(check_content_lengths("x,200", &drops), Err(ApplicationDownloadError::DownloadError)));
    assert!(check_content_lengths("+100,200", &drops).is_ok());
}

#[test]
fn checksums_are_compared_as_hex() {
    let digest: Vec<u8> = vec![93, 65, 64, 42, 188, 75, 42, 118, 185, 113, 157, 145, 16, 23, 197, 146];
    assert!(chunk_matches(&digest, &s("5d41402abc4b2a76b9719d911017c592")));
    assert!(!chunk_matches(&digest, &s("5D41402ABC4B2A76B9719D911017C592")));
    let drops = vec![drop("5d41402abc4b2a76b9719d911017c592", 5)];
    assert!(verify_checksums(&vec![digest.clone()], &drops).is_ok());
    let other: Vec<u8> = vec![0; 16];
    assert!(matches!(verify_checksums(&vec![other], &drops), Err(ApplicationDownloadError::Checksum)));
}

#[test]
fn refused_chunk_requests_report_the_server() {
    let e = chunk_response_error(s("raw"), Some(DropServerError { status_code: 403, status_message: s("Forbidden") }));
    assert_eq!(e.message(), "server returned an invalid response: 403 Forbidden");
    let e = chunk_response_error(s("<html>"), None);
    assert!(matches!(&e, ApplicationDownloadError::Communication(RemoteAccessError::UnparseableResponse(m)) if m == "<html>"));
    assert_eq!(missing_lengths_error().message(), "missing Content-Lengths header");
}

#[test]
fn chunk_body_lists_the_drops() {
    let mut d = drop("a", 1);
    d.index = 4;
    let body = ChunkBody::create(&DownloadContext { context: s("ctx") }, &[d]);
    assert_eq!(body.context, "ctx");
    assert_eq!(body.files.len(), 1);
    assert_eq!(body.files[0].chunk_index, 4);
    assert_eq!(body.files[0].filename, "f");
}

#[test]
fn drop_data_contexts() {
    let mut d = DropData::new(s("g"), s("1"), s("/b"));
    d.set_context(s("x"), true);
    d.set_context(s("y"), false);
    assert_eq!(d.get_completed_contexts(), vec![s("x")]);
    d.set_contexts(&[(s("y"), true), (s("y"), false), (s("z"), true)]);
    assert_eq!(d.get_completed_contexts(), vec![s("z")]);
    let stored = DropData::generate(s("g"), s("2"), s("/c"), Some(d));
    assert_eq!(stored.game_version, "1");
    let fresh = DropData::generate(s("g"), s("2"), s("/c"), None);
    assert_eq!(fresh.get_contexts().len(), 0);
}

#[test]
fn validate_contexts_come_from_bucket_drops() {
    let bucket = drop_app::manifest::DownloadBucket { game_id: s("g"), version: s("v"), drops: vec![drop("a", 3)] };
    let ctx = DropValidateContext::from_bucket(&bucket);
    assert_eq!(ctx.len(), 1);
    assert_eq!(ctx[0].length, 3);
    assert_eq!(ctx[0].path, "/p/f");
    let m = DownloadableMetadata::new(s("g"), None, DownloadType::Tool);
    assert!(m.version.is_none());
}

#[test]
fn chunk_data_is_checked_against_its_md5() {
    assert!(drop_app::download_logic::chunk_data_valid(b"hello", "5d41402abc4b2a76b9719d911017c592"));
    assert!(!drop_app::download_logic::chunk_data_valid(b"hello!", "5d41402abc4b2a76b9719d911017c592"));
    assert_eq!(drop_app::drop_data::drop_data_path("/games/g"), "/games/g/.dropdata");
}

#[test]
fn a_present_manifest_stays_present() {
    let mut db = Applications::new(vec![]);
    let mut a = agent(1 << 40).ok().unwrap();
    assert!(a.check_manifest_exists());
    a.setup_download(&mut db).ok().unwrap();
    assert!(a.check_manifest_exists());
    a.apply_validation(&vec![s("c0")]);
    assert!(a.check_manifest_exists());
    a.on_error(&mut db);
    assert!(a.check_manifest_exists());
    a.cancel(&mut db);
    assert!(a.check_manifest_exists());
}

#[test]
fn stopped_threads_end_the_work_at_once() {
    let stopped = drop_app::download_logic::stop_check(drop_app::download_logic::DownloadThreadControlFlag::Stop).unwrap();
    assert_eq!(stopped.progress, 0);
    assert!(matches!(stopped.result, Ok(false)));
    assert!(drop_app::download_logic::stop_check(drop_app::download_logic::DownloadThreadControlFlag::Go).is_none());
}

#[test]
fn completed_download_keeps_the_version_record() {
    let mut db = Applications::new(vec![s("/games")]);
    let a = agent(1 << 40).ok().unwrap();
    let gv = drop_app::models::GameVersion {
        game_id: s("game"),
        version_name: s("1.0"),
        platform: drop_app::models::Platform::Linux,
        launch_command: s("run"),
        launch_args: vec![],
        setup_command: s(""),
        setup_args: vec![],
        launch_command_template: s("{}"),
        umu_id_override: None,
    };
    let st = a.on_complete(&mut db, gv);
    assert!(matches!(st, drop_app::models::GameDownloadStatus::Installed { .. }));
    let inner = db.game_versions.get(&s("game")).unwrap();
    assert_eq!(inner.get(&s("1.0")).unwrap().launch_command, "run");
    assert_eq!(db.install_dirs, vec![s("/games")]);
}
