//! The status a game shows to the user: a transient activity, if any, takes
//! precedence over the durable install state.

use vstd::prelude::*;
use crate::models::{lookup, Applications, ApplicationTransientStatus, GameDownloadStatus};

verus! {

pub type GameStatusWithTransient = (Option<GameDownloadStatus>, Option<ApplicationTransientStatus>);

/// The transient status of the installed version of `game_id`, if there is one.
pub open spec fn spec_online_state(db: Applications, game_id: Seq<char>) -> Option<ApplicationTransientStatus> {
    match lookup(db.installed_game_version.view(), game_id) {
        Some(meta) => lookup(db.transient_statuses.view(), meta@),
        None => None,
    }
}

/// The status pair reported for `game_id`.
pub open spec fn spec_game_state(db: Applications, game_id: Seq<char>) -> GameStatusWithTransient {
    let online = spec_online_state(db, game_id);
    let offline = lookup(db.game_statuses.view(), game_id);
    if online is Some {
        (None, online)
    } else if offline is Some {
        (offline, None)
    } else {
        (None, None)
    }
}

pub struct GameStatusManager {}

impl GameStatusManager {
    /// The transient status of the installed version wins; otherwise the durable status.
    pub fn fetch_state(game_id: &String, database: &Applications) -> (r: GameStatusWithTransient)
        ensures
            r == spec_game_state(*database, game_id@),
    {
        let online_state = match database.installed_game_version.get(game_id) {
            Some(meta) => match database.transient_statuses.get(meta) {
                Some(t) => Some(t.duplicate()),
                None => None,
            },
            None => None,
        };
        let offline_state = match database.game_statuses.get(game_id) {
            Some(s) => Some(s.duplicate()),
            None => None,
        };
        if online_state.is_some() {
            return (None, online_state);
        }
        if offline_state.is_some() {
            return (offline_state, None);
        }
        (None, None)
    }

    /// The same status pair, read from a database the caller already holds.
    pub fn fetch_state_with_db(game_id: &String, db_lock: &Applications) -> (r: GameStatusWithTransient)
        ensures
            r == spec_game_state(*db_lock, game_id@),
    {
        GameStatusManager::fetch_state(game_id, db_lock)
    }
}

} // verus!
