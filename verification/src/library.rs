//! Library bookkeeping: what becomes of a game's records when a download is
//! cancelled or completes, when it is uninstalled, and when its launch
//! configuration changes.

use vstd::prelude::*;
use crate::errors::{LibraryError, RemoteAccessError};
use crate::keymap::AssocMap;
use crate::state::spec_game_state;
use crate::models::{
    clone_string, lookup, opt_view, Applications, ApplicationTransientStatus, DownloadableMetadata,
    GameDownloadStatus, GameVersion,
};

verus! {

/// The durable status the game's statuses map records for `id`.
pub open spec fn status_of(db: Applications, id: Seq<char>) -> Option<GameDownloadStatus> {
    lookup(db.game_statuses.view(), id)
}

/// Records an interrupted download so it can be resumed: the game becomes
/// partially installed at `install_dir`, and its transient status is dropped.
pub fn set_partially_installed_db(db_lock: &mut Applications, meta: &DownloadableMetadata, install_dir: String)
    requires
        meta.version is Some,
    ensures
        final(db_lock).transient_statuses.view() == old(db_lock).transient_statuses.view().remove(meta@),
        final(db_lock).game_statuses.view() == old(db_lock).game_statuses.view().insert(
            meta.id@,
            GameDownloadStatus::PartiallyInstalled { version_name: meta.version->0, install_dir },
        ),
        final(db_lock).installed_game_version.view() == old(db_lock).installed_game_version.view().insert(meta.id@, *meta),
        final(db_lock).game_versions == old(db_lock).game_versions,
        final(db_lock).install_dirs == old(db_lock).install_dirs,
{
    let _ = db_lock.transient_statuses.remove(meta);
    let version_name = match &meta.version {
        Some(v) => clone_string(v),
        None => String::new(),
    };
    db_lock.game_statuses.insert(
        clone_string(&meta.id),
        GameDownloadStatus::PartiallyInstalled { version_name, install_dir },
    );
    db_lock.installed_game_version.insert(clone_string(&meta.id), meta.duplicate());
}

/// The status a completed download leaves a game in: it needs its setup run
/// first exactly when the version has a setup command.
pub open spec fn spec_completed_status(version_name: String, install_dir: String, game_version: GameVersion) -> GameDownloadStatus {
    if game_version.setup_command@.len() == 0 {
        GameDownloadStatus::Installed { version_name, install_dir }
    } else {
        GameDownloadStatus::SetupRequired { version_name, install_dir }
    }
}

/// The query identifying the version record fetched when a download
/// completes; a download without a version cannot be completed.
pub fn game_version_query(meta: &DownloadableMetadata) -> (r: Result<Vec<(String, String)>, RemoteAccessError>)
    ensures
        match r {
            Ok(q) => meta.version is Some && q@.len() == 2
                && q@[0].0@ == "id"@ && q@[0].1@ == meta.id@
                && q@[1].0@ == "version"@ && q@[1].1@ == meta.version->0@,
            Err(e) => meta.version is None && e == RemoteAccessError::GameNotFound(meta.id),
        },
{
    match &meta.version {
        None => Err(RemoteAccessError::GameNotFound(clone_string(&meta.id))),
        Some(v) => {
            let mut q: Vec<(String, String)> = Vec::new();
            q.push((String::from_str("id"), clone_string(&meta.id)));
            q.push((String::from_str("version"), clone_string(v)));
            Ok(q)
        },
    }
}

/// Records a finished download: stores the fetched version record, marks the
/// version installed, and sets the game's status, which it returns. Metadata
/// without a version names no game version: that is a game-not-found error,
/// and nothing changes.
pub fn on_game_complete(
    db: &mut Applications,
    meta: &DownloadableMetadata,
    install_dir: String,
    game_version: GameVersion,
) -> (r: Result<GameDownloadStatus, RemoteAccessError>)
    ensures
        meta.version is None ==> r == Err::<GameDownloadStatus, RemoteAccessError>(
            RemoteAccessError::GameNotFound(meta.id),
        ) && *final(db) == *old(db),
        meta.version is Some ==> {
            &&& r == Ok::<GameDownloadStatus, RemoteAccessError>(
                spec_completed_status(meta.version->0, install_dir, game_version),
            )
            &&& final(db).game_statuses.view() == old(db).game_statuses.view().insert(
                meta.id@,
                spec_completed_status(meta.version->0, install_dir, game_version),
            )
            &&& final(db).installed_game_version.view() == old(db).installed_game_version.view().insert(meta.id@, *meta)
            &&& final(db).game_versions.view().contains_key(meta.id@)
            &&& final(db).game_versions.view()[meta.id@].view() == (match lookup(old(db).game_versions.view(), meta.id@) {
                Some(inner) => inner.view(),
                None => Map::empty(),
            }).insert(meta.version->0@, game_version)
            &&& forall|k: Seq<char>| k != meta.id@ ==> lookup(#[trigger] final(db).game_versions.view(), k)
                == lookup(old(db).game_versions.view(), k)
            &&& final(db).transient_statuses == old(db).transient_statuses
            &&& final(db).install_dirs == old(db).install_dirs
        },
{
    let version = match &meta.version {
        Some(v) => clone_string(v),
        None => return Err(RemoteAccessError::GameNotFound(clone_string(&meta.id))),
    };
    let status = if game_version.setup_command.as_str().is_empty() {
        GameDownloadStatus::Installed { version_name: clone_string(&version), install_dir }
    } else {
        GameDownloadStatus::SetupRequired { version_name: clone_string(&version), install_dir }
    };
    let mut inner = match db.game_versions.remove(&meta.id) {
        Some(m) => m,
        None => AssocMap::new(),
    };
    inner.insert(version, game_version);
    db.game_versions.insert(clone_string(&meta.id), inner);
    db.installed_game_version.insert(clone_string(&meta.id), meta.duplicate());
    let recorded = status.duplicate();
    db.game_statuses.insert(clone_string(&meta.id), recorded);
    Ok(status)
}

/// The install directory an uninstall removes, for the states that have one.
pub open spec fn spec_uninstall_dir(status: Option<GameDownloadStatus>) -> Option<String> {
    match status {
        Some(GameDownloadStatus::Installed { install_dir, .. }) => Some(install_dir),
        Some(GameDownloadStatus::SetupRequired { install_dir, .. }) => Some(install_dir),
        Some(GameDownloadStatus::PartiallyInstalled { install_dir, .. }) => Some(install_dir),
        _ => None,
    }
}

/// Every status that records an install directory (installed, waiting for
/// setup, partially installed) gives that directory as the one an uninstall
/// removes; a remote or unknown game has nothing to remove.
pub proof fn law_uninstall_removes_recorded_directory(version_name: String, install_dir: String)
    ensures
        spec_uninstall_dir(Some(GameDownloadStatus::Installed { version_name, install_dir })) == Some(install_dir),
        spec_uninstall_dir(Some(GameDownloadStatus::SetupRequired { version_name, install_dir })) == Some(install_dir),
        spec_uninstall_dir(Some(GameDownloadStatus::PartiallyInstalled { version_name, install_dir })) == Some(
            install_dir,
        ),
        spec_uninstall_dir(Some(GameDownloadStatus::Remote)) is None,
        spec_uninstall_dir(None) is None,
{
}

/// The transient map after marking `meta` as uninstalling, if it has an entry.
pub open spec fn spec_mark_uninstalling(
    m: Map<(Seq<char>, Option<Seq<char>>, crate::models::DownloadType), ApplicationTransientStatus>,
    k: (Seq<char>, Option<Seq<char>>, crate::models::DownloadType),
) -> Map<(Seq<char>, Option<Seq<char>>, crate::models::DownloadType), ApplicationTransientStatus> {
    if m.contains_key(k) {
        m.insert(k, ApplicationTransientStatus::Uninstalling)
    } else {
        m
    }
}

/// Starts an uninstall: marks an existing transient entry as uninstalling and
/// returns the directory to remove, or `None` when the game has nothing on disk.
pub fn begin_uninstall(db: &mut Applications, meta: &DownloadableMetadata) -> (r: Option<String>)
    ensures
        r == spec_uninstall_dir(status_of(*old(db), meta.id@)),
        final(db).transient_statuses.view() == spec_mark_uninstalling(old(db).transient_statuses.view(), meta@),
        final(db).game_statuses == old(db).game_statuses,
        final(db).installed_game_version == old(db).installed_game_version,
        final(db).game_versions == old(db).game_versions,
        final(db).install_dirs == old(db).install_dirs,
{
    if db.transient_statuses.contains_key(meta) {
        db.transient_statuses.insert(meta.duplicate(), ApplicationTransientStatus::Uninstalling);
    }
    match db.game_statuses.get(&meta.id) {
        Some(GameDownloadStatus::Installed { install_dir, .. }) => Some(clone_string(install_dir)),
        Some(GameDownloadStatus::SetupRequired { install_dir, .. }) => Some(clone_string(install_dir)),
        Some(GameDownloadStatus::PartiallyInstalled { install_dir, .. }) => Some(clone_string(install_dir)),
        _ => None,
    }
}

/// The statuses map after setting an existing entry for `id` back to remote.
pub open spec fn spec_mark_remote(m: Map<Seq<char>, GameDownloadStatus>, id: Seq<char>) -> Map<Seq<char>, GameDownloadStatus> {
    if m.contains_key(id) {
        m.insert(id, GameDownloadStatus::Remote)
    } else {
        m
    }
}

/// The records after an uninstall of `meta` has finished: it is no longer
/// installed, has no transient status, and an existing status is remote again.
pub open spec fn spec_uninstall_finished(before: Applications, after: Applications, meta: DownloadableMetadata) -> bool {
    &&& after.transient_statuses.view() == before.transient_statuses.view().remove(meta@)
    &&& after.installed_game_version.view() == before.installed_game_version.view().remove(meta.id@)
    &&& after.game_statuses.view() == spec_mark_remote(before.game_statuses.view(), meta.id@)
    &&& after.game_versions == before.game_versions
    &&& after.install_dirs == before.install_dirs
}

/// Finishes an uninstall once the files are gone.
pub fn finish_uninstall(db: &mut Applications, meta: &DownloadableMetadata)
    ensures
        spec_uninstall_finished(*old(db), *final(db), *meta),
{
    let _ = db.transient_statuses.remove(meta);
    let _ = db.installed_game_version.remove(&meta.id);
    if db.game_statuses.contains_key(&meta.id) {
        db.game_statuses.insert(clone_string(&meta.id), GameDownloadStatus::Remote);
    }
}

/// Once an uninstall has finished, a game that had a status shows as remote,
/// with no activity.
pub proof fn law_uninstalled_game_is_remote(before: Applications, after: Applications, meta: DownloadableMetadata)
    requires
        before.game_statuses.view().contains_key(meta.id@),
        spec_uninstall_finished(before, after, meta),
    ensures
        spec_game_state(after, meta.id@) == (Some(GameDownloadStatus::Remote), None::<ApplicationTransientStatus>),
{
}

/// The version and the directory a partially installed game resumes with.
pub fn resume_target(db: &Applications, game_id: &String) -> (r: (String, String))
    requires
        status_of(*db, game_id@) matches Some(GameDownloadStatus::PartiallyInstalled { .. }),
    ensures
        status_of(*db, game_id@) == Some(GameDownloadStatus::PartiallyInstalled { version_name: r.0, install_dir: r.1 }),
{
    match db.game_statuses.get(game_id) {
        Some(GameDownloadStatus::PartiallyInstalled { version_name, install_dir }) => {
            (clone_string(version_name), clone_string(install_dir))
        },
        _ => {
            proof {
                assert(false);
            }
            (String::new(), String::new())
        },
    }
}

/// The installed version's metadata for a game, if it is installed.
pub fn get_current_meta(db: &Applications, game_id: &String) -> (r: Option<DownloadableMetadata>)
    ensures
        r == lookup(db.installed_game_version.view(), game_id@),
{
    match db.installed_game_version.get(game_id) {
        Some(m) => Some(m.duplicate()),
        None => None,
    }
}

/// Makes sure a game has a durable status, defaulting to remote.
pub fn ensure_remote_status(db: &mut Applications, game_id: &String)
    ensures
        final(db).game_statuses.view() == (if old(db).game_statuses.view().contains_key(game_id@) {
            old(db).game_statuses.view()
        } else {
            old(db).game_statuses.view().insert(game_id@, GameDownloadStatus::Remote)
        }),
        final(db).transient_statuses == old(db).transient_statuses,
        final(db).installed_game_version == old(db).installed_game_version,
        final(db).game_versions == old(db).game_versions,
        final(db).install_dirs == old(db).install_dirs,
{
    if !db.game_statuses.contains_key(game_id) {
        db.game_statuses.insert(clone_string(game_id), GameDownloadStatus::Remote);
    }
}

/// The options the user can change for an installed game.
pub struct FrontendGameOptions {
    pub launch_string: String,
}

/// The stored records are consistent for `game_id`: an installed game has a
/// version, and the version's record is stored.
pub open spec fn version_record_present(db: Applications, game_id: Seq<char>) -> bool {
    match lookup(db.installed_game_version.view(), game_id) {
        Some(meta) => meta.version is Some && db.game_versions.view().contains_key(meta.id@)
            && db.game_versions.view()[meta.id@].view().contains_key(meta.version->0@),
        None => true,
    }
}

/// Replaces the launch command template of the installed version of a game.
pub fn update_game_configuration(
    db: &mut Applications,
    game_id: String,
    options: FrontendGameOptions,
) -> (r: Result<(), LibraryError>)
    requires
        version_record_present(*old(db), game_id@),
    ensures
        match r {
            Err(e) => e == LibraryError::MetaNotFound(game_id)
                && !old(db).installed_game_version.view().contains_key(game_id@)
                && *final(db) == *old(db),
            Ok(()) => {
                let meta = old(db).installed_game_version.view()[game_id@];
                let inner = old(db).game_versions.view()[meta.id@];
                let gv = inner.view()[meta.version->0@];
                &&& old(db).installed_game_version.view().contains_key(game_id@)
                &&& final(db).game_versions.view().contains_key(meta.id@)
                &&& final(db).game_versions.view()[meta.id@].view().dom() == inner.view().dom()
                &&& forall|v: Seq<char>| v != meta.version->0@ && inner.view().contains_key(v)
                    ==> #[trigger] final(db).game_versions.view()[meta.id@].view()[v] == inner.view()[v]
                &&& {
                    let ngv = final(db).game_versions.view()[meta.id@].view()[meta.version->0@];
                    &&& ngv.launch_command_template == options.launch_string
                    &&& ngv.game_id == gv.game_id
                    &&& ngv.version_name == gv.version_name
                    &&& ngv.platform == gv.platform
                    &&& ngv.launch_command == gv.launch_command
                    &&& ngv.launch_args@ == gv.launch_args@
                    &&& ngv.setup_command == gv.setup_command
                    &&& ngv.setup_args@ == gv.setup_args@
                    &&& ngv.umu_id_override == gv.umu_id_override
                }
                &&& forall|k: Seq<char>| k != meta.id@ ==> lookup(#[trigger] final(db).game_versions.view(), k)
                    == lookup(old(db).game_versions.view(), k)
                &&& final(db).game_statuses == old(db).game_statuses
                &&& final(db).installed_game_version == old(db).installed_game_version
                &&& final(db).transient_statuses == old(db).transient_statuses
                &&& final(db).install_dirs == old(db).install_dirs
            },
        },
{
    let (id, version) = match db.installed_game_version.get(&game_id) {
        None => return Err(LibraryError::MetaNotFound(game_id)),
        Some(meta) => {
            let v = match &meta.version {
                Some(v) => clone_string(v),
                None => String::new(),
            };
            (clone_string(&meta.id), v)
        },
    };
    let mut inner = match db.game_versions.remove(&id) {
        Some(m) => m,
        None => AssocMap::new(),
    };
    let existing = inner.remove(&version);
    match existing {
        Some(mut configuration) => {
            configuration.launch_command_template = options.launch_string;
            inner.insert(version, configuration);
        },
        None => {},
    }
    db.game_versions.insert(id, inner);
    proof {
        assert(final(db).game_versions.view()[old(db).installed_game_version.view()[game_id@].id@].view().dom()
            =~= old(db).game_versions.view()[old(db).installed_game_version.view()[game_id@].id@].view().dom());
    }
    Ok(())
}

} // verus!
