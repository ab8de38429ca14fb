use drop_app::errors::PlaytimeError;
use drop_app::playtime::{
    game_event_name, session_end_event, GamePlaytimeStats, PlaytimeManager, PlaytimeSession, NANOS_PER_SECOND,
    ORPHAN_MIN_SECONDS,
};

fn id(s: &str) -> String {
    s.to_string()
}

/// An instant `secs` seconds after the epoch, in nanoseconds.
fn t(secs: u64) -> u64 {
    secs * NANOS_PER_SECOND
}

#[test]
fn durations_count_whole_seconds_elapsed() {
    let mut m = PlaytimeManager::new();
    m.start_session(id("g"), t(10) + 900_000_000).ok().unwrap();
    let stats = m.end_session(id("g"), t(12) + 100_000_000).ok().unwrap();
    assert_eq!(stats.current_session_duration, Some(1));
    assert_eq!(stats.total_playtime_seconds, 1);
}

#[test]
fn start_then_end_adds_one_session() {
    let mut m = PlaytimeManager::new();
    assert!(m.start_session(id("celeste"), t(1000)).is_ok());
    assert!(m.is_session_active(&id("celeste")));
    let stats = match m.end_session(id("celeste"), t(1090)) {
        Ok(s) => s,
        Err(_) => panic!("session should end"),
    };
    assert_eq!(stats.game_id, "celeste");
    assert_eq!(stats.total_playtime_seconds, 90);
    assert_eq!(stats.session_count, 1);
    assert_eq!(stats.first_played, t(1000));
    assert_eq!(stats.last_played, t(1090));
    assert_eq!(stats.average_session_length, 90);
    assert_eq!(stats.current_session_duration, Some(90));
    assert!(!m.is_session_active(&id("celeste")));
    assert!(m.get_active_sessions().is_empty());
}

#[test]
fn second_session_accumulates() {
    let mut m = PlaytimeManager::new();
    m.start_session(id("g"), t(100)).ok().unwrap();
    m.end_session(id("g"), t(160)).ok().unwrap();
    m.start_session(id("g"), t(200)).ok().unwrap();
    let stats = m.end_session(id("g"), t(230)).ok().unwrap();
    assert_eq!(stats.total_playtime_seconds, 90);
    assert_eq!(stats.session_count, 2);
    assert_eq!(stats.first_played, t(100));
    assert_eq!(stats.last_played, t(230));
    assert_eq!(stats.average_session_length, 45);
}

#[test]
fn starting_twice_is_refused() {
    let mut m = PlaytimeManager::new();
    m.start_session(id("g"), t(5)).ok().unwrap();
    match m.start_session(id("g"), t(6)) {
        Err(PlaytimeError::SessionAlreadyActive(g)) => assert_eq!(g, "g"),
        _ => panic!("expected SessionAlreadyActive"),
    }
    let stats = m.end_session(id("g"), t(10)).ok().unwrap();
    assert_eq!(stats.current_session_duration, Some(5));
}

#[test]
fn ending_without_start_is_refused() {
    let mut m = PlaytimeManager::new();
    match m.end_session(id("nothing"), t(10)) {
        Err(PlaytimeError::SessionNotFound(g)) => assert_eq!(g, "nothing"),
        _ => panic!("expected SessionNotFound"),
    }
    assert!(m.get_game_stats(&id("nothing"), t(10)).is_none());
}

#[test]
fn clock_going_backwards_counts_zero() {
    let mut m = PlaytimeManager::new();
    m.start_session(id("g"), t(100)).ok().unwrap();
    let stats = m.end_session(id("g"), t(50)).ok().unwrap();
    assert_eq!(stats.total_playtime_seconds, 0);
    assert_eq!(stats.session_count, 1);
}

#[test]
fn stats_include_the_open_session() {
    let mut m = PlaytimeManager::new();
    m.start_session(id("g"), t(0)).ok().unwrap();
    m.end_session(id("g"), t(10)).ok().unwrap();
    m.start_session(id("g"), t(20)).ok().unwrap();
    let s = m.get_game_stats(&id("g"), t(25)).unwrap();
    assert_eq!(s.current_session_duration, Some(5));
    assert_eq!(s.total_playtime_seconds, 10);
    let all = m.get_all_stats(t(25));
    assert_eq!(all.len(), 1);
    assert_eq!(all.get(&id("g")).unwrap().session_count, 1);
}

#[test]
fn cleanup_counts_long_orphans_and_drops_short_ones() {
    let mut m = PlaytimeManager::new();
    m.start_session(id("long"), t(100)).ok().unwrap();
    m.start_session(id("short"), t(100 + 100 - ORPHAN_MIN_SECONDS)).ok().unwrap();
    assert!(m.cleanup_orphaned_sessions(t(200)).is_ok());
    assert!(m.get_active_sessions().is_empty());
    let long = m.get_game_stats(&id("long"), t(200)).unwrap();
    assert_eq!(long.total_playtime_seconds, 100);
    assert_eq!(long.session_count, 1);
    assert!(m.get_game_stats(&id("short"), t(200)).is_none());
}

#[test]
fn average_is_zero_without_sessions() {
    let s = GamePlaytimeStats::new(id("g"), 42);
    assert_eq!(s.average_session_length(), 0);
    assert_eq!(s.first_played, 42);
    let t = GamePlaytimeStats { game_id: id("g"), total_playtime_seconds: 10, session_count: 3, first_played: 0, last_played: 0 };
    assert_eq!(t.average_session_length(), 3);
    let p = PlaytimeSession::new(id("g"), 7);
    assert_eq!(p.start_time, 7);
}

#[test]
fn session_end_event_and_channel_names() {
    let mut m = PlaytimeManager::new();
    m.start_session(id("g"), t(0)).ok().unwrap();
    let stats = m.end_session(id("g"), t(30)).ok().unwrap();
    let e = session_end_event(&id("g"), &stats);
    assert_eq!(e.session_duration_seconds, 30);
    assert_eq!(e.total_playtime_seconds, 30);
    assert_eq!(e.session_count, 1);
    assert_eq!(game_event_name("playtime_update", "g"), "playtime_update/g");
}

#[test]
fn playtime_error_messages() {
    assert_eq!(PlaytimeError::DatabaseError(id("x")).message(), "Database error: x");
    assert_eq!(PlaytimeError::SessionNotFound(id("g")).message(), "Session not found for game: g");
    assert_eq!(PlaytimeError::SessionAlreadyActive(id("g")).message(), "Session already active for game: g");
    assert_eq!(PlaytimeError::InvalidGameId(id("g")).message(), "Invalid game ID: g");
}

#[test]
fn session_stays_active_until_ended_or_cleaned_up() {
    let mut m = PlaytimeManager::new();
    m.start_session(id("g"), t(0)).ok().unwrap();
    m.start_session(id("h"), t(1)).ok().unwrap();
    assert!(m.start_session(id("g"), t(2)).is_err());
    m.end_session(id("h"), t(3)).ok().unwrap();
    assert!(m.end_session(id("x"), t(3)).is_err());
    assert!(m.is_session_active(&id("g")));
    m.end_session(id("g"), t(4)).ok().unwrap();
    assert!(!m.is_session_active(&id("g")));
    m.start_session(id("g"), t(10)).ok().unwrap();
    m.cleanup_orphaned_sessions(t(20)).ok().unwrap();
    assert!(!m.is_session_active(&id("g")));
}
