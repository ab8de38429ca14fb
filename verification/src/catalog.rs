//! The game library as the client shows it: the server's list of games, what
//! it adds to the records, what is left of it offline, and the version
//! record of an installed game.

use vstd::prelude::*;
use crate::errors::{DropServerError, RemoteAccessError};
use crate::keymap::AssocMap;
use crate::models::{clone_string, lookup, Applications, GameDownloadStatus, GameVersion, Platform};
use crate::process::{valid_platform, LaunchEnvironment};
use crate::state::GameStatusWithTransient;
use crate::text::views;

verus! {

/// A game of the user's library, as the server describes it.
pub struct Game {
    pub id: String,
    pub m_name: String,
    pub m_short_description: String,
    pub m_description: String,
    pub m_icon_object_id: String,
    pub m_banner_object_id: String,
    pub m_cover_object_id: String,
    pub m_image_library_object_ids: Vec<String>,
    pub m_image_carousel_object_ids: Vec<String>,
}

/// Everything the game page needs.
pub struct FetchGameStruct {
    pub game: Game,
    pub status: GameStatusWithTransient,
    pub version: Option<GameVersion>,
}

/// Tells the user interface that a game's state changed.
pub struct GameUpdateEvent {
    pub game_id: String,
    pub status: GameStatusWithTransient,
    pub version: Option<GameVersion>,
}

/// Download speed and remaining time.
pub struct StatsUpdateEvent {
    pub speed: usize,
    pub time: usize,
}

/// A version a game can be installed at, as the server offers it.
pub struct GameVersionOption {
    pub version_index: usize,
    pub version_name: String,
    pub platform: Platform,
    pub setup_command: String,
    pub launch_command: String,
    pub delta: bool,
    pub umu_id_override: Option<String>,
}

/// The records are complete enough to read the version record of an
/// installed game: it has a version, and where its game has a version table,
/// that table holds the version.
pub open spec fn version_lookup_defined(db: Applications, game_id: Seq<char>) -> bool {
    match lookup(db.installed_game_version.view(), game_id) {
        Some(meta) => meta.version is Some && (db.game_versions.view().contains_key(meta.id@)
            ==> db.game_versions.view()[meta.id@].view().contains_key(meta.version->0@)),
        None => true,
    }
}

/// The version record of the installed version of a game, if there is one.
pub open spec fn spec_installed_version(db: Applications, game_id: Seq<char>) -> Option<GameVersion> {
    match lookup(db.installed_game_version.view(), game_id) {
        Some(meta) => match lookup(db.game_versions.view(), meta.id@) {
            Some(inner) => Some(inner.view()[meta.version->0@]),
            None => None,
        },
        None => None,
    }
}

/// The record of the installed version of a game: none when the game is not
/// installed or its game has no version table.
pub fn installed_version_record(db: &Applications, game_id: &String) -> (r: Option<GameVersion>)
    requires
        version_lookup_defined(*db, game_id@),
    ensures
        match spec_installed_version(*db, game_id@) {
            None => r is None,
            Some(gv) => r matches Some(v) && v.game_id == gv.game_id && v.version_name == gv.version_name
                && v.platform == gv.platform && v.launch_command == gv.launch_command
                && v.launch_args@ == gv.launch_args@ && v.setup_command == gv.setup_command
                && v.setup_args@ == gv.setup_args@
                && v.launch_command_template == gv.launch_command_template
                && v.umu_id_override == gv.umu_id_override,
        },
{
    match db.installed_game_version.get(game_id) {
        None => None,
        Some(meta) => match db.game_versions.get(&meta.id) {
            None => None,
            Some(inner) => {
                let version = match &meta.version {
                    Some(v) => v,
                    None => {
                        proof {
                            assert(false);
                        }
                        return None;
                    },
                };
                match inner.get(version) {
                    Some(gv) => Some(gv.duplicate()),
                    None => {
                        proof {
                            assert(false);
                        }
                        None
                    },
                }
            },
        },
    }
}

pub open spec fn game_ids(games: Seq<Game>) -> Seq<Seq<char>> {
    games.map_values(|g: Game| g.id@)
}

/// The statuses after the library is loaded: every game of the library
/// without a status becomes remote; the others keep theirs.
pub open spec fn spec_registered_statuses(
    statuses: Map<Seq<char>, GameDownloadStatus>,
    ids: Seq<Seq<char>>,
    k: Seq<char>,
) -> Option<GameDownloadStatus> {
    if statuses.contains_key(k) {
        Some(statuses[k])
    } else if ids.contains(k) {
        Some(GameDownloadStatus::Remote)
    } else {
        None
    }
}

/// Gives every game of the library a status, remote where it had none.
pub fn register_library(db: &mut Applications, games: &Vec<Game>)
    ensures
        forall|k: Seq<char>| #[trigger] lookup(final(db).game_statuses.view(), k) == spec_registered_statuses(
            old(db).game_statuses.view(),
            game_ids(games@),
            k,
        ),
        final(db).installed_game_version == old(db).installed_game_version,
        final(db).transient_statuses == old(db).transient_statuses,
        final(db).game_versions == old(db).game_versions,
        final(db).install_dirs == old(db).install_dirs,
{
    let ghost before = db.game_statuses.view();
    let mut i: usize = 0;
    while i < games.len()
        invariant
            i <= games@.len(),
            before == old(db).game_statuses.view(),
            forall|k: Seq<char>| #[trigger] lookup(db.game_statuses.view(), k) == spec_registered_statuses(
                before,
                game_ids(games@.subrange(0, i as int)),
                k,
            ),
            db.installed_game_version == old(db).installed_game_version,
            db.transient_statuses == old(db).transient_statuses,
            db.game_versions == old(db).game_versions,
            db.install_dirs == old(db).install_dirs,
        decreases games@.len() - i,
    {
        let ghost prev = db.game_statuses.view();
        crate::library::ensure_remote_status(db, &games[i].id);
        proof {
            let ids = game_ids(games@.subrange(0, i as int + 1));
            let old_ids = game_ids(games@.subrange(0, i as int));
            assert(ids =~= old_ids.push(games@[i as int].id@));
            assert forall|k: Seq<char>| #[trigger] lookup(db.game_statuses.view(), k) == spec_registered_statuses(before, ids, k) by {
                assert(spec_registered_statuses(before, old_ids, k) == lookup(prev, k));
                if k != games@[i as int].id@ {
                    assert(ids.contains(k) == old_ids.contains(k)) by {
                        if ids.contains(k) {
                            let j = choose|j: int| 0 <= j < ids.len() && ids[j] == k;
                            assert(old_ids[j] == k);
                        }
                        if old_ids.contains(k) {
                            let j = choose|j: int| 0 <= j < old_ids.len() && old_ids[j] == k;
                            assert(ids[j] == k);
                        }
                    }
                } else {
                    assert(ids[i as int] == k);
                }
            }
        }
        i = i + 1;
    }
    proof {
        assert(games@.subrange(0, i as int) =~= games@);
    }
}

/// Whether `v` holds a string equal to `s`.
pub fn contains_text(v: &Vec<String>, s: &String) -> (r: bool)
    ensures
        r == views(v@).contains(s@),
{
    let mut i: usize = 0;
    while i < v.len()
        invariant
            i <= v@.len(),
            forall|j: int| 0 <= j < i ==> v@[j]@ != s@,
        decreases v@.len() - i,
    {
        if crate::text::same_text(v[i].as_str(), s.as_str()) {
            proof {
                assert(views(v@)[i as int] == s@);
            }
            return true;
        }
        i = i + 1;
    }
    proof {
        if views(v@).contains(s@) {
            let j = choose|j: int| 0 <= j < views(v@).len() && views(v@)[j] == s@;
            assert(v@[j]@ == s@);
        }
    }
    false
}

/// The game ids of the installed versions, in storage order.
pub open spec fn installed_ids(db: Applications) -> Seq<Seq<char>> {
    db.installed_game_version.keys_seq().map_values(|k: Seq<char>| db.installed_game_version.view()[k].id@)
}

/// The installed games the server's library no longer lists; their cached
/// descriptions are shown as well.
pub fn installed_not_in_library(db: &Applications, library_ids: &Vec<String>) -> (r: Vec<String>)
    ensures
        views(r@) == installed_ids(*db).filter(|x: Seq<char>| !views(library_ids@).contains(x)),
{
    let n = db.installed_game_version.len();
    let ghost all = installed_ids(*db);
    let ghost keep = |x: Seq<char>| !views(library_ids@).contains(x);
    let mut out: Vec<String> = Vec::new();
    let mut i: usize = 0;
    while i < n
        invariant
            n == db.installed_game_version.keys_seq().len(),
            all == installed_ids(*db),
            keep == (|x: Seq<char>| !views(library_ids@).contains(x)),
            i <= n,
            views(out@) == all.subrange(0, i as int).filter(keep),
        decreases n - i,
    {
        let meta = db.installed_game_version.value_at_index(i);
        let listed = contains_text(library_ids, &meta.id);
        proof {
            let sub = all.subrange(0, i as int + 1);
            assert(sub.drop_last() =~= all.subrange(0, i as int));
            assert(sub.last() == meta.id@);
            reveal_with_fuel(Seq::filter, 1);
        }
        if !listed {
            let ghost prev = views(out@);
            out.push(clone_string(&meta.id));
            proof {
                assert(views(out@) =~= prev.push(meta.id@));
            }
        }
        i = i + 1;
    }
    proof {
        assert(all.subrange(0, n as int) =~= all);
    }
    out
}

/// A game stays in the offline library when its files are complete on disk;
/// a game without a status counts as remote.
pub open spec fn available_offline(db: Applications, g: Game) -> bool {
    match lookup(db.game_statuses.view(), g.id@) {
        Some(s) => s.is_playable(),
        None => false,
    }
}

/// The cached library reduced to the games playable without the server.
pub fn offline_library(games: Vec<Game>, db: &Applications) -> (r: Vec<Game>)
    ensures
        r@ == games@.filter(|g: Game| available_offline(*db, g)),
{
    let ghost all = games@;
    let ghost keep = |g: Game| available_offline(*db, g);
    let mut rest = games;
    let total = rest.len();
    let mut out: Vec<Game> = Vec::new();
    let mut taken: usize = 0;
    while rest.len() > 0
        invariant
            all.len() == total,
            taken + rest@.len() == all.len(),
            rest@ == all.subrange(taken as int, all.len() as int),
            keep == (|g: Game| available_offline(*db, g)),
            out@ == all.subrange(0, taken as int).filter(keep),
        decreases rest@.len(),
    {
        let g = rest.remove(0);
        let playable = match db.game_statuses.get(&g.id) {
            Some(GameDownloadStatus::Installed { .. }) => true,
            Some(GameDownloadStatus::SetupRequired { .. }) => true,
            _ => false,
        };
        proof {
            assert(g == all[taken as int]);
            let sub = all.subrange(0, taken as int + 1);
            assert(sub.drop_last() =~= all.subrange(0, taken as int));
            assert(sub.last() == g);
            reveal_with_fuel(Seq::filter, 1);
            assert(rest@ =~= all.subrange(taken as int + 1, all.len() as int));
        }
        if playable {
            out.push(g);
        }
        taken = taken + 1;
    }
    proof {
        assert(all.subrange(0, taken as int) =~= all);
    }
    out
}

/// The error reported when the server's failure body cannot be read.
pub fn unreadable_library_error() -> (r: DropServerError)
    ensures
        r.status_code == 500,
        r.status_message@ == "Invalid response from server."@,
{
    DropServerError { status_code: 500, status_message: String::from_str("Invalid response from server.") }
}

/// How the client treats the status of a game request.
pub enum GameResponse {
    /// 200: the game came back.
    Found,
    /// 404: fall back to what is stored offline.
    Missing,
    /// Anything else: the server's error body is reported.
    Failed,
}

pub fn classify_game_response(status: u16) -> (r: GameResponse)
    ensures
        status == 200 ==> r is Found,
        status == 404 ==> r is Missing,
        status != 200 && status != 404 ==> r is Failed,
{
    if status == 404 {
        GameResponse::Missing
    } else if status == 200 {
        GameResponse::Found
    } else {
        GameResponse::Failed
    }
}

/// The error of a game missing on the server and offline.
pub fn game_not_found(id: String) -> (r: RemoteAccessError)
    ensures
        r == RemoteAccessError::GameNotFound(id),
{
    RemoteAccessError::GameNotFound(id)
}

/// The versions of a game offered for install on this machine: those whose
/// platform it can run.
pub fn installable_versions(env: &LaunchEnvironment, versions: Vec<GameVersion>) -> (r: Vec<GameVersion>)
    ensures
        r@ == versions@.filter(|v: GameVersion| crate::process::spec_fetch_handler(*env, v.platform) is Some),
{
    let ghost all = versions@;
    let ghost keep = |v: GameVersion| crate::process::spec_fetch_handler(*env, v.platform) is Some;
    let mut rest = versions;
    let total = rest.len();
    let mut out: Vec<GameVersion> = Vec::new();
    let mut taken: usize = 0;
    while rest.len() > 0
        invariant
            all.len() == total,
            taken + rest@.len() == all.len(),
            rest@ == all.subrange(taken as int, all.len() as int),
            keep == (|v: GameVersion| crate::process::spec_fetch_handler(*env, v.platform) is Some),
            out@ == all.subrange(0, taken as int).filter(keep),
        decreases rest@.len(),
    {
        let v = rest.remove(0);
        let ok = valid_platform(env, v.platform);
        proof {
            assert(v == all[taken as int]);
            let sub = all.subrange(0, taken as int + 1);
            assert(sub.drop_last() =~= all.subrange(0, taken as int));
            assert(sub.last() == v);
            reveal_with_fuel(Seq::filter, 1);
            assert(rest@ =~= all.subrange(taken as int + 1, all.len() as int));
        }
        if ok {
            out.push(v);
        }
        taken = taken + 1;
    }
    proof {
        assert(all.subrange(0, taken as int) =~= all);
    }
    out
}

/// Games whose recorded install directory no longer exists become remote.
pub fn mark_missing_games(db: &mut Applications, missing: &Vec<String>)
    ensures
        forall|k: Seq<char>| #[trigger] lookup(final(db).game_statuses.view(), k) == (
            if views(missing@).contains(k) && old(db).game_statuses.view().contains_key(k) {
                Some(GameDownloadStatus::Remote)
            } else {
                lookup(old(db).game_statuses.view(), k)
            }),
        final(db).installed_game_version == old(db).installed_game_version,
        final(db).transient_statuses == old(db).transient_statuses,
        final(db).game_versions == old(db).game_versions,
        final(db).install_dirs == old(db).install_dirs,
{
    let ghost before = db.game_statuses.view();
    let mut i: usize = 0;
    while i < missing.len()
        invariant
            i <= missing@.len(),
            before == old(db).game_statuses.view(),
            forall|k: Seq<char>| #[trigger] lookup(db.game_statuses.view(), k) == (
                if views(missing@.subrange(0, i as int)).contains(k) && before.contains_key(k) {
                    Some(GameDownloadStatus::Remote)
                } else {
                    lookup(before, k)
                }),
            db.installed_game_version == old(db).installed_game_version,
            db.transient_statuses == old(db).transient_statuses,
            db.game_versions == old(db).game_versions,
            db.install_dirs == old(db).install_dirs,
        decreases missing@.len() - i,
    {
        let ghost prev = db.game_statuses.view();
        if db.game_statuses.contains_key(&missing[i]) {
            db.game_statuses.insert(clone_string(&missing[i]), GameDownloadStatus::Remote);
        }
        proof {
            let ids = views(missing@.subrange(0, i as int + 1));
            let old_ids = views(missing@.subrange(0, i as int));
            assert(ids =~= old_ids.push(missing@[i as int]@));
            assert forall|k: Seq<char>| #[trigger] lookup(db.game_statuses.view(), k) == (
                if ids.contains(k) && before.contains_key(k) {
                    Some(GameDownloadStatus::Remote)
                } else {
                    lookup(before, k)
                }) by {
                if k != missing@[i as int]@ {
                    assert(ids.contains(k) == old_ids.contains(k)) by {
                        if ids.contains(k) {
                            let j = choose|j: int| 0 <= j < ids.len() && ids[j] == k;
                            assert(old_ids[j] == k);
                        }
                        if old_ids.contains(k) {
                            let j = choose|j: int| 0 <= j < old_ids.len() && old_ids[j] == k;
                            assert(ids[j] == k);
                        }
                    }
                    assert(lookup(db.game_statuses.view(), k) == lookup(prev, k));
                } else {
                    assert(ids[i as int] == k);
                    assert(prev.contains_key(k) == before.contains_key(k));
                }
            }
        }
        i = i + 1;
    }
    proof {
        assert(missing@.subrange(0, i as int) =~= missing@);
    }
}

/// The directory a playable status records.
pub open spec fn status_dir(s: GameDownloadStatus) -> Seq<char> {
    match s {
        GameDownloadStatus::Installed { install_dir, .. } => install_dir@,
        GameDownloadStatus::SetupRequired { install_dir, .. } => install_dir@,
        _ => Seq::empty(),
    }
}

/// The games whose files should be on disk, in storage order.
pub open spec fn playable_ids(db: Applications) -> Seq<Seq<char>> {
    db.game_statuses.keys_seq().filter(|k: Seq<char>| db.game_statuses.view()[k].is_playable())
}

/// The games whose files should be on disk, with the directory to look for:
/// those installed or waiting for their setup.
pub fn installed_directories(db: &Applications) -> (r: Vec<(String, String)>)
    ensures
        r@.map_values(|p: (String, String)| p.0@) == playable_ids(*db),
        forall|i: int| 0 <= i < r@.len() ==> (#[trigger] r@[i]).1@ == status_dir(db.game_statuses.view()[r@[i].0@]),
{
    let n = db.game_statuses.len();
    let ghost keys = db.game_statuses.keys_seq();
    let ghost keep = |k: Seq<char>| db.game_statuses.view()[k].is_playable();
    let mut out: Vec<(String, String)> = Vec::new();
    let mut i: usize = 0;
    while i < n
        invariant
            n == keys.len(),
            keys == db.game_statuses.keys_seq(),
            keep == (|k: Seq<char>| db.game_statuses.view()[k].is_playable()),
            i <= n,
            out@.map_values(|p: (String, String)| p.0@) == keys.subrange(0, i as int).filter(keep),
            forall|j: int| 0 <= j < out@.len() ==> (#[trigger] out@[j]).1@ == status_dir(db.game_statuses.view()[out@[j].0@]),
        decreases n - i,
    {
        let k = db.game_statuses.key_at_index(i);
        let st = db.game_statuses.value_at_index(i);
        let ghost prev = out@;
        proof {
            let sub = keys.subrange(0, i as int + 1);
            assert(sub.drop_last() =~= keys.subrange(0, i as int));
            assert(sub.last() == k@);
            reveal_with_fuel(Seq::filter, 1);
        }
        match st {
            GameDownloadStatus::Installed { install_dir, .. } => {
                out.push((clone_string(k), clone_string(install_dir)));
                proof {
                    assert(out@.map_values(|p: (String, String)| p.0@) =~= prev.map_values(|p: (String, String)| p.0@).push(k@));
                }
            },
            GameDownloadStatus::SetupRequired { install_dir, .. } => {
                out.push((clone_string(k), clone_string(install_dir)));
                proof {
                    assert(out@.map_values(|p: (String, String)| p.0@) =~= prev.map_values(|p: (String, String)| p.0@).push(k@));
                }
            },
            _ => {},
        }
        i = i + 1;
    }
    proof {
        assert(keys.subrange(0, n as int) =~= keys);
    }
    out
}

} // verus!
