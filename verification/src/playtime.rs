//! Playtime accounting: at most one open session per game; closing a session
//! adds its length to the game's totals.

use vstd::prelude::*;
use crate::errors::PlaytimeError;
use crate::keymap::AssocMap;
use crate::models::{clone_string, lookup};

verus! {

/// Orphaned sessions (left open by a crash) no longer than this are dropped.
pub const ORPHAN_MIN_SECONDS: u64 = 5;

/// An open play session.
pub struct PlaytimeSession {
    pub game_id: String,
    /// When it started, in nanoseconds since the epoch.
    pub start_time: u64,
}

impl PlaytimeSession {
    pub fn new(game_id: String, now: u64) -> (r: Self)
        ensures
            r.game_id == game_id,
            r.start_time == now,
    {
        PlaytimeSession { game_id, start_time: now }
    }
}

/// Nanoseconds in a second.
pub const NANOS_PER_SECOND: u64 = 1000000000;

/// How long a session has lasted at `now`, in whole seconds (instants are in
/// nanoseconds); zero if the clock went backwards.
pub open spec fn session_duration(start: u64, now: u64) -> u64 {
    if now >= start { ((now - start) / (NANOS_PER_SECOND as int)) as u64 } else { 0 }
}

/// The whole seconds elapsed from `start` to `now`.
pub fn elapsed_seconds(start: u64, now: u64) -> (r: u64)
    ensures
        r == session_duration(start, now),
{
    if now >= start { (now - start) / NANOS_PER_SECOND } else { 0 }
}

/// The stored totals of one game.
pub struct GamePlaytimeStats {
    pub game_id: String,
    pub total_playtime_seconds: u64,
    pub session_count: u32,
    /// Nanoseconds since the epoch.
    pub first_played: u64,
    /// Nanoseconds since the epoch.
    pub last_played: u64,
}

pub open spec fn spec_average(total: u64, count: u32) -> u64 {
    if count == 0 { 0 } else { (total / (count as u64)) as u64 }
}

impl GamePlaytimeStats {
    /// Totals of a game never played before `now`.
    pub fn new(game_id: String, now: u64) -> (r: Self)
        ensures
            r.game_id == game_id,
            r.total_playtime_seconds == 0,
            r.session_count == 0,
            r.first_played == now,
            r.last_played == now,
    {
        GamePlaytimeStats { game_id, total_playtime_seconds: 0, session_count: 0, first_played: now, last_played: now }
    }

    /// Mean session length in whole seconds; zero before the first session.
    pub fn average_session_length(&self) -> (r: u64)
        ensures
            r == spec_average(self.total_playtime_seconds, self.session_count),
    {
        if self.session_count == 0 {
            0
        } else {
            self.total_playtime_seconds / (self.session_count as u64)
        }
    }
}

/// The totals after one more session of `duration` seconds that started at
/// `start`, closed at `now`.
pub open spec fn spec_after_session(
    prior: Option<GamePlaytimeStats>,
    game_id: String,
    start: u64,
    duration: u64,
    now: u64,
) -> GamePlaytimeStats {
    let base = match prior {
        Some(s) => s,
        None => GamePlaytimeStats {
            game_id,
            total_playtime_seconds: 0,
            session_count: 0,
            first_played: now,
            last_played: now,
        },
    };
    let count = (base.session_count + 1) as u32;
    GamePlaytimeStats {
        game_id: base.game_id,
        total_playtime_seconds: (base.total_playtime_seconds + duration) as u64,
        session_count: count,
        first_played: if count == 1 { start } else { base.first_played },
        last_played: now,
    }
}

/// Adding a session to these totals does not overflow.
pub open spec fn room_for_session(prior: Option<GamePlaytimeStats>, duration: u64) -> bool {
    match prior {
        Some(s) => s.total_playtime_seconds + duration <= u64::MAX && s.session_count < u32::MAX,
        None => true,
    }
}

/// Playtime statistics as reported to the user.
pub struct PlaytimeStats {
    pub game_id: String,
    pub total_playtime_seconds: u64,
    pub session_count: u32,
    pub first_played: u64,
    pub last_played: u64,
    pub average_session_length: u64,
    pub current_session_duration: Option<u64>,
}

/// The report for stored totals, with an open session's length if any.
pub open spec fn spec_report(s: GamePlaytimeStats, current: Option<u64>) -> PlaytimeStats {
    PlaytimeStats {
        game_id: s.game_id,
        total_playtime_seconds: s.total_playtime_seconds,
        session_count: s.session_count,
        first_played: s.first_played,
        last_played: s.last_played,
        average_session_length: spec_average(s.total_playtime_seconds, s.session_count),
        current_session_duration: current,
    }
}

fn report(s: &GamePlaytimeStats, current: Option<u64>) -> (r: PlaytimeStats)
    ensures
        r == spec_report(*s, current),
{
    PlaytimeStats {
        game_id: clone_string(&s.game_id),
        total_playtime_seconds: s.total_playtime_seconds,
        session_count: s.session_count,
        first_played: s.first_played,
        last_played: s.last_played,
        average_session_length: s.average_session_length(),
        current_session_duration: current,
    }
}

/// A call that changes the open sessions.
pub enum SessionOp {
    /// `start_session` for a game at a time.
    Start(String, u64),
    /// `end_session` for a game.
    End(String),
    /// `cleanup_orphaned_sessions`.
    Cleanup,
}

/// The open sessions after one such call, whether or not it succeeds: a start
/// opens a session only for a game without one, an end closes the game's
/// session if there is one, a clean-up closes them all.
pub open spec fn apply_session_op(active: Map<Seq<char>, PlaytimeSession>, op: SessionOp) -> Map<Seq<char>, PlaytimeSession> {
    match op {
        SessionOp::Start(g, t) => if active.contains_key(g@) {
            active
        } else {
            active.insert(g@, PlaytimeSession { game_id: g, start_time: t })
        },
        SessionOp::End(g) => active.remove(g@),
        SessionOp::Cleanup => Map::empty(),
    }
}

/// The open sessions after a sequence of such calls.
pub open spec fn apply_session_ops(active: Map<Seq<char>, PlaytimeSession>, ops: Seq<SessionOp>) -> Map<Seq<char>, PlaytimeSession>
    decreases ops.len(),
{
    if ops.len() == 0 {
        active
    } else {
        apply_session_op(apply_session_ops(active, ops.drop_last()), ops.last())
    }
}

/// Whether a call closes the session of `game`.
pub open spec fn closes_session(op: SessionOp, game: Seq<char>) -> bool {
    match op {
        SessionOp::End(g) => g@ == game,
        SessionOp::Cleanup => true,
        SessionOp::Start(_, _) => false,
    }
}

/// Open sessions and stored totals, by game id.
pub struct PlaytimeManager {
    pub active_sessions: AssocMap<String, PlaytimeSession>,
    pub game_sessions: AssocMap<String, GamePlaytimeStats>,
}

impl PlaytimeManager {
    /// Every open session is filed under its own game id.
    pub open spec fn sessions_keyed(&self) -> bool {
        forall|k: Seq<char>| #[trigger] self.active_sessions.view().contains_key(k) ==> self.active_sessions.view()[k].game_id@ == k
    }

    pub fn new() -> (r: Self)
        ensures
            r.sessions_keyed(),
            r.active_sessions.view() == Map::<Seq<char>, PlaytimeSession>::empty(),
            r.game_sessions.view() == Map::<Seq<char>, GamePlaytimeStats>::empty(),
    {
        PlaytimeManager { active_sessions: AssocMap::new(), game_sessions: AssocMap::new() }
    }

    /// Opens a session at `now`; a game has at most one open session.
    pub fn start_session(&mut self, game_id: String, now: u64) -> (r: Result<(), PlaytimeError>)
        ensures
            old(self).active_sessions.view().contains_key(game_id@) ==> r == Err::<(), PlaytimeError>(
                PlaytimeError::SessionAlreadyActive(game_id),
            ) && *final(self) == *old(self),
            !old(self).active_sessions.view().contains_key(game_id@) ==> r is Ok
                && final(self).active_sessions.view() == old(self).active_sessions.view().insert(
                    game_id@,
                    PlaytimeSession { game_id, start_time: now },
                ) && final(self).game_sessions == old(self).game_sessions,
            old(self).sessions_keyed() ==> final(self).sessions_keyed(),
            final(self).active_sessions.view() == apply_session_op(
                old(self).active_sessions.view(),
                SessionOp::Start(game_id, now),
            ),
    {
        if self.active_sessions.contains_key(&game_id) {
            return Err(PlaytimeError::SessionAlreadyActive(game_id));
        }
        let session = PlaytimeSession::new(clone_string(&game_id), now);
        self.active_sessions.insert(game_id, session);
        Ok(())
    }

    /// Closes the open session of a game at `now` and adds it to the totals.
    pub fn end_session(&mut self, game_id: String, now: u64) -> (r: Result<PlaytimeStats, PlaytimeError>)
        requires
            old(self).active_sessions.view().contains_key(game_id@) ==> room_for_session(
                lookup(old(self).game_sessions.view(), game_id@),
                session_duration(old(self).active_sessions.view()[game_id@].start_time, now),
            ),
        ensures
            !old(self).active_sessions.view().contains_key(game_id@) ==> r == Err::<PlaytimeStats, PlaytimeError>(
                PlaytimeError::SessionNotFound(game_id),
            ) && *final(self) == *old(self),
            old(self).active_sessions.view().contains_key(game_id@) ==> {
                let start = old(self).active_sessions.view()[game_id@].start_time;
                let duration = session_duration(start, now);
                let updated = spec_after_session(lookup(old(self).game_sessions.view(), game_id@), game_id, start, duration, now);
                &&& final(self).active_sessions.view() == old(self).active_sessions.view().remove(game_id@)
                &&& final(self).game_sessions.view() == old(self).game_sessions.view().insert(game_id@, updated)
                &&& r == Ok::<PlaytimeStats, PlaytimeError>(spec_report(updated, Some(duration)))
            },
            old(self).sessions_keyed() ==> final(self).sessions_keyed(),
            final(self).active_sessions.view() == apply_session_op(
                old(self).active_sessions.view(),
                SessionOp::End(game_id),
            ),
    {
        if !self.active_sessions.contains_key(&game_id) {
            proof {
                assert(self.active_sessions.view().remove(game_id@) =~= self.active_sessions.view());
            }
            return Err(PlaytimeError::SessionNotFound(game_id));
        }
        let session = match self.active_sessions.remove(&game_id) {
            Some(s) => s,
            None => return Err(PlaytimeError::SessionNotFound(game_id)),
        };
        let duration = elapsed_seconds(session.start_time, now);
        let stats = self.record_session(game_id, session.start_time, duration, now);
        Ok(report(&stats, Some(duration)))
    }

    /// Adds one closed session to a game's totals and returns the new totals.
    fn record_session(&mut self, game_id: String, start: u64, duration: u64, now: u64) -> (r: GamePlaytimeStats)
        requires
            room_for_session(lookup(old(self).game_sessions.view(), game_id@), duration),
        ensures
            r == spec_after_session(lookup(old(self).game_sessions.view(), game_id@), game_id, start, duration, now),
            final(self).game_sessions.view() == old(self).game_sessions.view().insert(game_id@, r),
            final(self).active_sessions == old(self).active_sessions,
    {
        let base = match self.game_sessions.remove(&game_id) {
            Some(s) => s,
            None => GamePlaytimeStats::new(clone_string(&game_id), now),
        };
        let count = base.session_count + 1;
        let updated = GamePlaytimeStats {
            game_id: base.game_id,
            total_playtime_seconds: base.total_playtime_seconds + duration,
            session_count: count,
            first_played: if count == 1 { start } else { base.first_played },
            last_played: now,
        };
        let copy = GamePlaytimeStats {
            game_id: clone_string(&updated.game_id),
            total_playtime_seconds: updated.total_playtime_seconds,
            session_count: updated.session_count,
            first_played: updated.first_played,
            last_played: updated.last_played,
        };
        self.game_sessions.insert(game_id, copy);
        proof {
            assert(old(self).game_sessions.view().remove(game_id@).insert(game_id@, updated)
                =~= old(self).game_sessions.view().insert(game_id@, updated));
        }
        updated
    }

    /// A game's totals, with the length so far of its open session, if any.
    pub fn get_game_stats(&self, game_id: &String, now: u64) -> (r: Option<PlaytimeStats>)
        ensures
            r == match lookup(self.game_sessions.view(), game_id@) {
                Some(s) => Some(spec_report(s, match lookup(self.active_sessions.view(), game_id@) {
                    Some(a) => Some(session_duration(a.start_time, now)),
                    None => None,
                })),
                None => None,
            },
    {
        match self.game_sessions.get(game_id) {
            Some(stats) => {
                let current = match self.active_sessions.get(game_id) {
                    Some(a) => Some(elapsed_seconds(a.start_time, now)),
                    None => None,
                };
                Some(report(stats, current))
            },
            None => None,
        }
    }

    /// Every game's report, keyed by game id.
    pub fn get_all_stats(&self, now: u64) -> (r: AssocMap<String, PlaytimeStats>)
        ensures
            r.view().dom() == self.game_sessions.view().dom(),
            forall|k: Seq<char>| #[trigger] r.view().contains_key(k) ==> r.view()[k] == spec_report(
                self.game_sessions.view()[k],
                match lookup(self.active_sessions.view(), k) {
                    Some(a) => Some(session_duration(a.start_time, now)),
                    None => None,
                },
            ),
    {
        let n = self.game_sessions.len();
        let mut result: AssocMap<String, PlaytimeStats> = AssocMap::new();
        let ghost keys = self.game_sessions.keys_seq();
        let mut i: usize = 0;
        while i < n
            invariant
                n == keys.len(),
                keys == self.game_sessions.keys_seq(),
                keys.no_duplicates(),
                forall|k: Seq<char>| #[trigger] self.game_sessions.view().contains_key(k) <==> keys.contains(k),
                i <= n,
                forall|k: Seq<char>| #[trigger] result.view().contains_key(k) <==> keys.subrange(0, i as int).contains(k),
                forall|k: Seq<char>| #[trigger] result.view().contains_key(k) ==> result.view()[k] == spec_report(
                    self.game_sessions.view()[k],
                    match lookup(self.active_sessions.view(), k) {
                        Some(a) => Some(session_duration(a.start_time, now)),
                        None => None,
                    },
                ),
            decreases n - i,
        {
            let k = self.game_sessions.key_at_index(i);
            let stats = self.game_sessions.value_at_index(i);
            let current = match self.active_sessions.get(k) {
                Some(a) => Some(elapsed_seconds(a.start_time, now)),
                None => None,
            };
            result.insert(clone_string(k), report(stats, current));
            proof {
                assert forall|x: Seq<char>| #[trigger] result.view().contains_key(x) <==> keys.subrange(0, i as int + 1).contains(x) by {
                    if keys.subrange(0, i as int).contains(x) {
                        let j = choose|j: int| 0 <= j < i && #[trigger] keys.subrange(0, i as int)[j] == x;
                        assert(keys.subrange(0, i as int + 1)[j] == x);
                    }
                    if x == k@ {
                        assert(keys.subrange(0, i as int + 1)[i as int] == x);
                    }
                    if keys.subrange(0, i as int + 1).contains(x) {
                        let j = choose|j: int| 0 <= j < i + 1 && #[trigger] keys.subrange(0, i as int + 1)[j] == x;
                        if j < i {
                            assert(keys.subrange(0, i as int)[j] == x);
                        }
                    }
                }
            }
            i = i + 1;
        }
        proof {
            assert(keys.subrange(0, n as int) =~= keys);
            assert(result.view().dom() =~= self.game_sessions.view().dom());
        }
        result
    }

    pub fn is_session_active(&self, game_id: &String) -> (r: bool)
        ensures
            r == self.active_sessions.view().contains_key(game_id@),
    {
        self.active_sessions.contains_key(game_id)
    }

    /// The games with an open session, each once.
    pub fn get_active_sessions(&self) -> (r: Vec<String>)
        ensures
            crate::text::views(r@) == self.active_sessions.keys_seq(),
            forall|k: Seq<char>| self.active_sessions.view().contains_key(k) <==> crate::text::views(r@).contains(k),
    {
        let n = self.active_sessions.len();
        let mut out: Vec<String> = Vec::new();
        let mut i: usize = 0;
        while i < n
            invariant
                n == self.active_sessions.keys_seq().len(),
                i <= n,
                crate::text::views(out@) == self.active_sessions.keys_seq().subrange(0, i as int),
            decreases n - i,
        {
            let k = self.active_sessions.key_at_index(i);
            let ghost prev = crate::text::views(out@);
            out.push(clone_string(k));
            proof {
                assert(crate::text::views(out@) =~= prev.push(k@));
                assert(crate::text::views(out@) =~= self.active_sessions.keys_seq().subrange(0, i as int + 1));
            }
            i = i + 1;
        }
        proof {
            assert(self.active_sessions.keys_seq().subrange(0, n as int) =~= self.active_sessions.keys_seq());
        }
        out
    }
}


/// The stored totals of a game after closing orphaned sessions at `now`.
pub open spec fn spec_after_cleanup(
    games: Map<Seq<char>, GamePlaytimeStats>,
    active: Map<Seq<char>, PlaytimeSession>,
    k: Seq<char>,
    now: u64,
) -> Option<GamePlaytimeStats> {
    if active.contains_key(k) && session_duration(active[k].start_time, now) > ORPHAN_MIN_SECONDS {
        let s = active[k];
        Some(spec_after_session(lookup(games, k), s.game_id, s.start_time, session_duration(s.start_time, now), now))
    } else {
        lookup(games, k)
    }
}

impl PlaytimeManager {
    /// Closes every session left open (by a crash, say): one that lasted
    /// more than `ORPHAN_MIN_SECONDS` is counted, a shorter one is dropped.
    pub fn cleanup_orphaned_sessions(&mut self, now: u64) -> (r: Result<(), PlaytimeError>)
        requires
            old(self).sessions_keyed(),
            forall|k: Seq<char>| #[trigger] old(self).active_sessions.view().contains_key(k) ==> room_for_session(
                lookup(old(self).game_sessions.view(), k),
                session_duration(old(self).active_sessions.view()[k].start_time, now),
            ),
        ensures
            r is Ok,
            final(self).sessions_keyed(),
            final(self).active_sessions.view() == Map::<Seq<char>, PlaytimeSession>::empty(),
            final(self).active_sessions.view() == apply_session_op(old(self).active_sessions.view(), SessionOp::Cleanup),
            forall|k: Seq<char>| #[trigger] lookup(final(self).game_sessions.view(), k) == spec_after_cleanup(
                old(self).game_sessions.view(),
                old(self).active_sessions.view(),
                k,
                now,
            ),
    {
        let n = self.active_sessions.len();
        let ghost keys = self.active_sessions.keys_seq();
        let ghost games0 = self.game_sessions.view();
        let ghost active0 = self.active_sessions.view();
        let mut i: usize = 0;
        while i < n
            invariant
                n == keys.len(),
                keys == self.active_sessions.keys_seq(),
                active0 == self.active_sessions.view(),
                keys.no_duplicates(),
                forall|k: Seq<char>| #[trigger] active0.contains_key(k) ==> active0[k].game_id@ == k,
                forall|k: Seq<char>| #[trigger] active0.contains_key(k) <==> keys.contains(k),
                forall|k: Seq<char>| #[trigger] active0.contains_key(k) ==> room_for_session(
                    lookup(games0, k),
                    session_duration(active0[k].start_time, now),
                ),
                i <= n,
                forall|k: Seq<char>| #[trigger] lookup(self.game_sessions.view(), k) == (if keys.subrange(0, i as int).contains(k) {
                    spec_after_cleanup(games0, active0, k, now)
                } else {
                    lookup(games0, k)
                }),
            decreases n - i,
        {
            let k = self.active_sessions.key_at_index(i);
            let session = self.active_sessions.value_at_index(i);
            let duration = elapsed_seconds(session.start_time, now);
            let ghost before = self.game_sessions.view();
            proof {
                assert(!keys.subrange(0, i as int).contains(k@)) by {
                    if keys.subrange(0, i as int).contains(k@) {
                        let j = choose|j: int| 0 <= j < i && #[trigger] keys.subrange(0, i as int)[j] == k@;
                        assert(keys[j] == keys[i as int]);
                    }
                }
                assert(lookup(self.game_sessions.view(), k@) == lookup(games0, k@));
            }
            if duration > ORPHAN_MIN_SECONDS {
                let gid = clone_string(&session.game_id);
                let start = session.start_time;
                let _ = self.record_session(gid, start, duration, now);
            }
            proof {
                assert forall|x: Seq<char>| #[trigger] lookup(self.game_sessions.view(), x) == (if keys.subrange(0, i as int + 1).contains(x) {
                    spec_after_cleanup(games0, active0, x, now)
                } else {
                    lookup(games0, x)
                }) by {
                    if x == k@ {
                        assert(keys.subrange(0, i as int + 1)[i as int] == x);
                    } else {
                        assert(lookup(self.game_sessions.view(), x) == lookup(before, x));
                        if keys.subrange(0, i as int + 1).contains(x) {
                            let j = choose|j: int| 0 <= j < i + 1 && #[trigger] keys.subrange(0, i as int + 1)[j] == x;
                            assert(j != i);
                            assert(keys.subrange(0, i as int)[j] == x);
                        }
                        if keys.subrange(0, i as int).contains(x) {
                            let j = choose|j: int| 0 <= j < i && #[trigger] keys.subrange(0, i as int)[j] == x;
                            assert(keys.subrange(0, i as int + 1)[j] == x);
                        }
                    }
                }
            }
            i = i + 1;
        }
        proof {
            assert(keys.subrange(0, n as int) =~= keys);
            assert forall|x: Seq<char>| #[trigger] lookup(self.game_sessions.view(), x) == spec_after_cleanup(games0, active0, x, now) by {
                if !keys.contains(x) {
                    assert(!active0.contains_key(x));
                }
            }
        }
        self.active_sessions = AssocMap::new();
        Ok(())
    }
}

/// Opening a session for a game that has none and closing it later adds
/// exactly one session of the elapsed length to its totals, updates when it
/// was last played, and leaves the open sessions as they were.
pub proof fn law_session_round_trip(
    active: Map<Seq<char>, PlaytimeSession>,
    games: Map<Seq<char>, GamePlaytimeStats>,
    game_id: String,
    start: u64,
    end: u64,
)
    requires
        !active.contains_key(game_id@),
        start <= end,
        room_for_session(lookup(games, game_id@), ((end - start) / (NANOS_PER_SECOND as int)) as u64),
    ensures
        ({
            let opened = active.insert(game_id@, PlaytimeSession { game_id, start_time: start });
            let s = opened[game_id@];
            let duration = session_duration(s.start_time, end);
            let updated = spec_after_session(lookup(games, game_id@), game_id, s.start_time, duration, end);
            &&& opened.remove(game_id@) == active
            &&& duration == (end - start) / (NANOS_PER_SECOND as int)
            &&& updated.session_count == (match lookup(games, game_id@) {
                Some(p) => p.session_count + 1,
                None => 1,
            })
            &&& updated.total_playtime_seconds == (match lookup(games, game_id@) {
                Some(p) => p.total_playtime_seconds + (end - start) / (NANOS_PER_SECOND as int),
                None => (end - start) / (NANOS_PER_SECOND as int),
            })
            &&& updated.last_played == end
        }),
{
    let opened = active.insert(game_id@, PlaytimeSession { game_id, start_time: start });
    assert(opened.remove(game_id@) =~= active);
}

/// A game's session is active (`is_session_active` reports it) from a
/// successful `start_session` on: after any sequence of later session calls
/// none of which is `end_session` for that game or `cleanup_orphaned_sessions`
/// it is still active, and right after such a call it is not.
pub proof fn law_session_active_until_closed(
    active: Map<Seq<char>, PlaytimeSession>,
    game_id: String,
    start: u64,
    ops: Seq<SessionOp>,
)
    requires
        !active.contains_key(game_id@),
    ensures
        apply_session_op(active, SessionOp::Start(game_id, start)).contains_key(game_id@),
        (forall|i: int| 0 <= i < ops.len() ==> !closes_session(#[trigger] ops[i], game_id@)) ==> apply_session_ops(
            apply_session_op(active, SessionOp::Start(game_id, start)),
            ops,
        ).contains_key(game_id@),
        ops.len() > 0 && closes_session(ops.last(), game_id@) ==> !apply_session_ops(
            apply_session_op(active, SessionOp::Start(game_id, start)),
            ops,
        ).contains_key(game_id@),
    decreases ops.len(),
{
    if ops.len() > 0 {
        let rest = ops.drop_last();
        law_session_active_until_closed(active, game_id, start, rest);
        if forall|i: int| 0 <= i < ops.len() ==> !closes_session(#[trigger] ops[i], game_id@) {
            assert forall|i: int| 0 <= i < rest.len() implies !closes_session(#[trigger] rest[i], game_id@) by {
                assert(rest[i] == ops[i]);
            }
            assert(!closes_session(ops[ops.len() - 1], game_id@));
        }
    }
}

/// A game's first closed session is also when it was first played.
pub proof fn law_first_session_sets_first_played(game_id: String, start: u64, duration: u64, now: u64)
    ensures
        spec_after_session(None, game_id, start, duration, now).first_played == start,
        spec_after_session(None, game_id, start, duration, now).session_count == 1,
{
}


/// Tells the user interface a game's playtime changed.
pub struct PlaytimeUpdateEvent {
    pub game_id: String,
    pub stats: PlaytimeStats,
    pub is_active: bool,
}

/// Tells the user interface a session started.
pub struct PlaytimeSessionStartEvent {
    pub game_id: String,
    /// Nanoseconds since the epoch.
    pub start_time: u64,
}

/// Tells the user interface a session ended.
pub struct PlaytimeSessionEndEvent {
    pub game_id: String,
    pub session_duration_seconds: u64,
    pub total_playtime_seconds: u64,
    pub session_count: u32,
}

/// The end-of-session event for the report `end_session` returned.
pub fn session_end_event(game_id: &String, stats: &PlaytimeStats) -> (r: PlaytimeSessionEndEvent)
    ensures
        r.game_id == *game_id,
        r.session_duration_seconds == match stats.current_session_duration {
            Some(d) => d,
            None => 0,
        },
        r.total_playtime_seconds == stats.total_playtime_seconds,
        r.session_count == stats.session_count,
{
    PlaytimeSessionEndEvent {
        game_id: clone_string(game_id),
        session_duration_seconds: match stats.current_session_duration {
            Some(d) => d,
            None => 0,
        },
        total_playtime_seconds: stats.total_playtime_seconds,
        session_count: stats.session_count,
    }
}

/// The per-game channel of an event: `<event>/<game id>`.
pub fn game_event_name(event: &str, game_id: &str) -> (r: String)
    ensures
        r@ == event@ + "/"@ + game_id@,
{
    let mut r = crate::text::concat(event, "/");
    r.append(game_id);
    r
}
} // verus!
