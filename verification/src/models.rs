//! The client's persistent bookkeeping about applications: what is installed
//! where, which version, and what is happening to it right now.

use vstd::prelude::*;
use crate::keymap::{AssocMap, MapKey};

verus! {

/// Looks a key up in a map, as an `Option`.
pub open spec fn lookup<K, V>(m: Map<K, V>, k: K) -> Option<V> {
    if m.contains_key(k) {
        Some(m[k])
    } else {
        None
    }
}

pub fn clone_string(s: &String) -> (r: String)
    ensures
        r == *s,
        r@ == s@,
{
    s.clone()
}

pub fn clone_opt_string(s: &Option<String>) -> (r: Option<String>)
    ensures
        r == *s,
{
    match s {
        Some(v) => Some(v.clone()),
        None => None,
    }
}

pub fn clone_strings(v: &Vec<String>) -> (r: Vec<String>)
    ensures
        r@ == v@,
{
    let mut out: Vec<String> = Vec::new();
    let mut i: usize = 0;
    while i < v.len()
        invariant
            i <= v@.len(),
            out@ == v@.subrange(0, i as int),
        decreases v@.len() - i,
    {
        out.push(v[i].clone());
        i = i + 1;
        proof {
            assert(out@ =~= v@.subrange(0, i as int));
        }
    }
    proof {
        assert(out@ =~= v@);
    }
    out
}

/// What kind of thing a download produces.
#[derive(PartialEq, Eq, Structural, Clone, Copy, Debug)]
pub enum DownloadType {
    Game,
    Tool,
}

/// Identifies one version of one downloadable application.
pub struct DownloadableMetadata {
    pub id: String,
    pub version: Option<String>,
    pub download_type: DownloadType,
}

pub open spec fn opt_view(o: Option<String>) -> Option<Seq<char>> {
    match o {
        Some(s) => Some(s@),
        None => None,
    }
}

impl View for DownloadableMetadata {
    type V = (Seq<char>, Option<Seq<char>>, DownloadType);

    open spec fn view(&self) -> Self::V {
        (self.id@, opt_view(self.version), self.download_type)
    }
}

impl DownloadableMetadata {
    pub fn new(id: String, version: Option<String>, download_type: DownloadType) -> (r: Self)
        ensures
            r.id == id,
            r.version == version,
            r.download_type == download_type,
    {
        DownloadableMetadata { id, version, download_type }
    }

    pub fn duplicate(&self) -> (r: Self)
        ensures
            r == *self,
    {
        DownloadableMetadata {
            id: self.id.clone(),
            version: clone_opt_string(&self.version),
            download_type: self.download_type,
        }
    }
}

impl MapKey for DownloadableMetadata {
    fn same_key(&self, other: &Self) -> (r: bool) {
        let same_version = match (&self.version, &other.version) {
            (Some(a), Some(b)) => *a == *b,
            (None, None) => true,
            _ => false,
        };
        self.id == other.id && same_version && self.download_type == other.download_type
    }

    fn copy_key(&self) -> (r: Self) {
        self.duplicate()
    }
}

/// The operating systems a game can be built for.
#[derive(PartialEq, Eq, Structural, Clone, Copy, Debug)]
pub enum Platform {
    Windows,
    Linux,
    MacOs,
}

/// What the client knows about one installed (or installable) version of a game.
pub struct GameVersion {
    pub game_id: String,
    pub version_name: String,
    pub platform: Platform,
    pub launch_command: String,
    pub launch_args: Vec<String>,
    pub setup_command: String,
    pub setup_args: Vec<String>,
    pub launch_command_template: String,
    pub umu_id_override: Option<String>,
}

impl GameVersion {
    pub fn duplicate(&self) -> (r: Self)
        ensures
            r.game_id == self.game_id,
            r.version_name == self.version_name,
            r.platform == self.platform,
            r.launch_command == self.launch_command,
            r.launch_args@ == self.launch_args@,
            r.setup_command == self.setup_command,
            r.setup_args@ == self.setup_args@,
            r.launch_command_template == self.launch_command_template,
            r.umu_id_override == self.umu_id_override,
    {
        GameVersion {
            game_id: self.game_id.clone(),
            version_name: self.version_name.clone(),
            platform: self.platform,
            launch_command: self.launch_command.clone(),
            launch_args: clone_strings(&self.launch_args),
            setup_command: self.setup_command.clone(),
            setup_args: clone_strings(&self.setup_args),
            launch_command_template: self.launch_command_template.clone(),
            umu_id_override: clone_opt_string(&self.umu_id_override),
        }
    }
}

/// The durable install state of a game.
pub enum GameDownloadStatus {
    Remote,
    SetupRequired { version_name: String, install_dir: String },
    Installed { version_name: String, install_dir: String },
    PartiallyInstalled { version_name: String, install_dir: String },
}

impl GameDownloadStatus {
    pub fn duplicate(&self) -> (r: Self)
        ensures
            r == *self,
    {
        match self {
            GameDownloadStatus::Remote => GameDownloadStatus::Remote,
            GameDownloadStatus::SetupRequired { version_name, install_dir } =>
                GameDownloadStatus::SetupRequired {
                    version_name: version_name.clone(),
                    install_dir: install_dir.clone(),
                },
            GameDownloadStatus::Installed { version_name, install_dir } =>
                GameDownloadStatus::Installed {
                    version_name: version_name.clone(),
                    install_dir: install_dir.clone(),
                },
            GameDownloadStatus::PartiallyInstalled { version_name, install_dir } =>
                GameDownloadStatus::PartiallyInstalled {
                    version_name: version_name.clone(),
                    install_dir: install_dir.clone(),
                },
        }
    }

    /// True for the two states in which the game's files are complete on disk.
    pub open spec fn is_playable(self) -> bool {
        self is Installed || self is SetupRequired
    }
}

/// What is happening to a game right now; never persisted across restarts.
pub enum ApplicationTransientStatus {
    Downloading { version_name: String },
    Validating { version_name: String },
    Uninstalling,
    Running,
}

impl ApplicationTransientStatus {
    pub fn duplicate(&self) -> (r: Self)
        ensures
            r == *self,
    {
        match self {
            ApplicationTransientStatus::Downloading { version_name } =>
                ApplicationTransientStatus::Downloading { version_name: version_name.clone() },
            ApplicationTransientStatus::Validating { version_name } =>
                ApplicationTransientStatus::Validating { version_name: version_name.clone() },
            ApplicationTransientStatus::Uninstalling => ApplicationTransientStatus::Uninstalling,
            ApplicationTransientStatus::Running => ApplicationTransientStatus::Running,
        }
    }
}

/// The applications part of the client database.
pub struct Applications {
    pub install_dirs: Vec<String>,
    pub game_statuses: AssocMap<String, GameDownloadStatus>,
    pub game_versions: AssocMap<String, AssocMap<String, GameVersion>>,
    pub installed_game_version: AssocMap<String, DownloadableMetadata>,
    pub transient_statuses: AssocMap<DownloadableMetadata, ApplicationTransientStatus>,
}

impl Applications {
    pub fn new(install_dirs: Vec<String>) -> (r: Self)
        ensures
            r.install_dirs@ == install_dirs@,
            r.game_statuses.view() == Map::<Seq<char>, GameDownloadStatus>::empty(),
            r.game_versions.view() == Map::<Seq<char>, AssocMap<String, GameVersion>>::empty(),
            r.installed_game_version.view() == Map::<Seq<char>, DownloadableMetadata>::empty(),
            r.transient_statuses.view() == Map::<(Seq<char>, Option<Seq<char>>, DownloadType), ApplicationTransientStatus>::empty(),
    {
        Applications {
            install_dirs,
            game_statuses: AssocMap::new(),
            game_versions: AssocMap::new(),
            installed_game_version: AssocMap::new(),
            transient_statuses: AssocMap::new(),
        }
    }
}

/// Whether the client can reach its server and who is signed in.
#[derive(PartialEq, Eq, Structural, Clone, Copy, Debug)]
pub enum AppStatus {
    NotConfigured,
    Offline,
    ServerError,
    SignedOut,
    SignedIn,
    SignedInNeedsReauth,
    ServerUnavailable,
}

} // verus!
