//! Launching games: which launcher a platform pair calls for, the command
//! line each launcher builds, what a launch checks first, and what the end
//! of a game process changes.

use vstd::prelude::*;
use vstd::string::{StrSliceExecFns, StringExecFns};
use crate::errors::{append_decimal, decimal_text, ProcessError};
use crate::keymap::AssocMap;
use crate::models::{
    clone_string, clone_strings, lookup, Applications, ApplicationTransientStatus, DownloadType,
    DownloadableMetadata, GameDownloadStatus, GameVersion, Platform,
};
use crate::paths::{join_path, spec_join_path};
use crate::text::{
    find, find_from, is_white_space, join_space, lemma_find_from_some, occurs_at, push_char,
    spec_join_space, spec_trim, trim, views,
};

verus! {

impl Platform {
    /// Only Linux file systems tell case apart.
    pub fn is_case_sensitive(&self) -> (r: bool)
        ensures
            r == (*self == Platform::Linux),
    {
        match self {
            Platform::Windows | Platform::MacOs => false,
            Platform::Linux => true,
        }
    }
}

pub open spec fn ascii_lower(c: char) -> char {
    if 'A' <= c && c <= 'Z' {
        ((c as u32) + 32) as char
    } else {
        c
    }
}

/// `s` lowercases to `lower`, which is ASCII lowercase.
pub open spec fn matches_lowercase(s: Seq<char>, lower: Seq<char>) -> bool {
    s.len() == lower.len() && forall|i: int| 0 <= i < s.len() ==> ascii_lower(#[trigger] s[i]) == lower[i]
}

/// The platform a name denotes, ignoring case and surrounding white space.
pub open spec fn spec_platform_name(s: Seq<char>) -> Option<Platform> {
    let t = spec_trim(s);
    if matches_lowercase(t, "windows"@) {
        Some(Platform::Windows)
    } else if matches_lowercase(t, "linux"@) {
        Some(Platform::Linux)
    } else if matches_lowercase(t, "mac"@) || matches_lowercase(t, "macos"@) {
        Some(Platform::MacOs)
    } else {
        None
    }
}

fn lower_char(c: char) -> (r: char)
    ensures
        r == ascii_lower(c),
{
    if 'A' <= c && c <= 'Z' {
        ((c as u8) + 32) as char
    } else {
        c
    }
}

pub fn matches_lowercase_exec(s: &str, lower: &str) -> (r: bool)
    ensures
        r == matches_lowercase(s@, lower@),
{
    let n = s.unicode_len();
    if n != lower.unicode_len() {
        return false;
    }
    let mut i: usize = 0;
    while i < n
        invariant
            n == s@.len(),
            n == lower@.len(),
            i <= n,
            forall|j: int| 0 <= j < i ==> ascii_lower(#[trigger] s@[j]) == lower@[j],
        decreases n - i,
    {
        if lower_char(s.get_char(i)) != lower.get_char(i) {
            return false;
        }
        i = i + 1;
    }
    true
}

/// Reads a platform name such as `Windows`, ` linux ` or `macOS`.
pub fn recognize_platform(s: &str) -> (r: Option<Platform>)
    ensures
        r == spec_platform_name(s@),
{
    let t = trim(s);
    if matches_lowercase_exec(t.as_str(), "windows") {
        Some(Platform::Windows)
    } else if matches_lowercase_exec(t.as_str(), "linux") {
        Some(Platform::Linux)
    } else if matches_lowercase_exec(t.as_str(), "mac") || matches_lowercase_exec(t.as_str(), "macos") {
        Some(Platform::MacOs)
    } else {
        None
    }
}

impl Platform {
    /// The platform a known name denotes.
    pub fn from_name(s: &str) -> (r: Platform)
        requires
            spec_platform_name(s@) is Some,
        ensures
            spec_platform_name(s@) == Some(r),
    {
        match recognize_platform(s) {
            Some(p) => p,
            None => Platform::Windows,
        }
    }
}

/// The shell-style words a command string splits into, or `None` for an
/// unterminated quote.
pub uninterp spec fn shell_words_of(s: Seq<char>) -> Option<Seq<Seq<char>>>;

#[verifier::external_type_specification]
#[verifier::external_body]
pub struct ExShellParseError(shell_words::ParseError);

/// Trusted: `shell_words::split`. Its outcome is a function of the text alone.
#[verifier::external_body]
fn shell_split(s: &str) -> (r: Result<Vec<String>, shell_words::ParseError>)
    ensures
        match r {
            Ok(words) => shell_words_of(s@) == Some(views(words@)),
            Err(_) => shell_words_of(s@) is None,
        },
{
    shell_words::split(s)
}

/// A program and its arguments.
pub struct ProcessCommand {
    pub command: String,
    pub args: Vec<String>,
}

impl ProcessCommand {
    pub fn new(command: String, args: Vec<String>) -> (r: Self)
        ensures
            r.command == command,
            r.args == args,
    {
        ProcessCommand { command, args }
    }

    pub fn set_command(&mut self, command: String)
        ensures
            final(self).command == command,
            final(self).args == old(self).args,
    {
        self.command = command;
    }

    pub fn set_args(&mut self, args: Vec<String>)
        ensures
            final(self).args == args,
            final(self).command == old(self).command,
    {
        self.args = args;
    }

    /// The program's path inside `install_dir`.
    pub fn get_command(&self, install_dir: &String) -> (r: String)
        ensures
            r@ == spec_join_path(install_dir@, self.command@),
    {
        join_path(install_dir.as_str(), self.command.as_str())
    }

    /// Takes the first word as the program and the rest as its arguments;
    /// with no words nothing changes. True when something was set.
    pub fn apply_words(&mut self, words: Vec<String>) -> (r: bool)
        ensures
            r == (words@.len() > 0),
            r ==> final(self).command@ == words@[0]@ && views(final(self).args@) == views(words@).drop_first(),
            !r ==> *final(self) == *old(self),
    {
        if words.len() == 0 {
            return false;
        }
        let mut rest = words;
        let first = rest.remove(0);
        proof {
            assert(views(rest@) =~= views(words@).drop_first());
        }
        self.command = first;
        self.args = rest;
        true
    }

    /// Sets program and arguments from a shell-style command string.
    pub fn set(&mut self, s: &str) -> (r: Result<bool, shell_words::ParseError>)
        ensures
            match shell_words_of(s@) {
                None => r is Err && *final(self) == *old(self),
                Some(ws) => r == Ok::<bool, shell_words::ParseError>(ws.len() > 0) && (ws.len() > 0 ==> (
                    final(self).command@ == ws[0] && views(final(self).args@) == ws.drop_first()))
                    && (ws.len() == 0 ==> *final(self) == *old(self)),
            },
    {
        match shell_split(s) {
            Ok(words) => {
                let ghost ws = views(words@);
                let set = self.apply_words(words);
                proof {
                    if set {
                        assert(ws[0] == words@[0]@);
                    }
                }
                Ok(set)
            },
            Err(e) => Err(e),
        }
    }

    /// The program and the arguments, as they are.
    pub fn into_readable(&self) -> (r: (String, Vec<String>))
        ensures
            r.0@ == self.command@,
            r.1@ == self.args@,
    {
        (clone_string(&self.command), clone_strings(&self.args))
    }

    /// The program inside `install_dir`, and the arguments.
    pub fn into_readable_with_dir(&self, install_dir: &String) -> (r: (String, Vec<String>))
        ensures
            r.0@ == spec_join_path(install_dir@, self.command@),
            r.1@ == self.args@,
    {
        (self.get_command(install_dir), clone_strings(&self.args))
    }

    /// A command inside `install_dir`.
    pub fn process_command(install_dir: &String, command: &str) -> (r: String)
        ensures
            r@ == spec_join_path(install_dir@, command@),
    {
        join_path(install_dir.as_str(), command)
    }
}

/// The wrapper that runs Windows games on Linux.
pub const UMU_LAUNCHER_EXECUTABLE: &'static str = "umu-run";

/// What the host offers for running games.
pub struct LaunchEnvironment {
    pub current_platform: Platform,
    /// Whether the compatibility layer is installed, when that is known.
    pub umu_installed: Option<bool>,
    /// The host is Linux on 64-bit ARM.
    pub linux_aarch64: bool,
    pub page_size: usize,
}

/// Trusted: `page_size::get`, the memory page size of this machine. Nothing
/// is stated of the value.
#[verifier::external_body]
fn host_page_size() -> usize {
    page_size::get()
}

impl LaunchEnvironment {
    /// Describes this host, measuring its page size.
    pub fn detect(current_platform: Platform, umu_installed: Option<bool>, linux_aarch64: bool) -> (r: Self)
        ensures
            r.current_platform == current_platform,
            r.umu_installed == umu_installed,
            r.linux_aarch64 == linux_aarch64,
    {
        LaunchEnvironment { current_platform, umu_installed, linux_aarch64, page_size: host_page_size() }
    }
}

/// The three ways of starting a game.
#[derive(PartialEq, Eq, Structural, Clone, Copy, Debug)]
pub enum LauncherKind {
    Native,
    Umu,
    AsahiMuvm,
}

pub open spec fn umu_ready(env: LaunchEnvironment) -> bool {
    env.umu_installed == Some(true)
}

/// Whether a launcher can run games on this host.
pub open spec fn spec_launcher_valid(kind: LauncherKind, env: LaunchEnvironment) -> bool {
    match kind {
        LauncherKind::Native => true,
        LauncherKind::Umu => umu_ready(env),
        LauncherKind::AsahiMuvm => env.linux_aarch64 && env.page_size == 16384 && umu_ready(env),
    }
}

/// The first usable launcher, in table order, for the host platform and the
/// game's platform: native for same-platform pairs; on Linux for Windows
/// games, the Asahi muvm launcher, then plain umu.
pub open spec fn spec_fetch_handler(env: LaunchEnvironment, target: Platform) -> Option<LauncherKind> {
    let cur = env.current_platform;
    if cur == Platform::Windows && target == Platform::Windows {
        Some(LauncherKind::Native)
    } else if cur == Platform::Linux && target == Platform::Linux {
        Some(LauncherKind::Native)
    } else if cur == Platform::MacOs && target == Platform::MacOs {
        Some(LauncherKind::Native)
    } else if cur == Platform::Linux && target == Platform::Windows && spec_launcher_valid(LauncherKind::AsahiMuvm, env) {
        Some(LauncherKind::AsahiMuvm)
    } else if cur == Platform::Linux && target == Platform::Windows && spec_launcher_valid(LauncherKind::Umu, env) {
        Some(LauncherKind::Umu)
    } else {
        None
    }
}

pub struct NativeGameLauncher;

pub struct UMULauncher;

pub struct AsahiMuvmLauncher;

fn umu_ready_exec(env: &LaunchEnvironment) -> (r: bool)
    ensures
        r == umu_ready(*env),
{
    match env.umu_installed {
        Some(b) => b,
        None => false,
    }
}

impl NativeGameLauncher {
    pub fn valid_for_platform(&self, env: &LaunchEnvironment) -> (r: bool)
        ensures
            r == spec_launcher_valid(LauncherKind::Native, *env),
    {
        true
    }

    /// `"<launch>" <args>`.
    pub fn create_launch_process(&self, launch_command: &str, args: &Vec<String>) -> (r: String)
        ensures
            r@ == spec_native_line(launch_command@, views(args@)),
    {
        let mut r = String::new();
        push_char(&mut r, '"');
        r.append(launch_command);
        push_char(&mut r, '"');
        push_char(&mut r, ' ');
        let joined = join_space(args);
        r.append(joined.as_str());
        proof {
            assert(r@ =~= spec_native_line(launch_command@, views(args@)));
        }
        r
    }
}

pub open spec fn spec_native_line(launch: Seq<char>, args: Seq<Seq<char>>) -> Seq<char> {
    seq!['"'] + launch + seq!['"', ' '] + spec_join_space(args)
}

/// The game id umu is told: a non-empty override, else the version's game id.
pub open spec fn spec_umu_game_id(gv: GameVersion) -> Seq<char> {
    match gv.umu_id_override {
        Some(o) => if o@.len() == 0 { gv.game_id@ } else { o@ },
        None => gv.game_id@,
    }
}

pub open spec fn spec_umu_line(game_id: Seq<char>, launch: Seq<char>, args: Seq<Seq<char>>) -> Seq<char> {
    "GAMEID="@ + game_id + seq![' '] + UMU_LAUNCHER_EXECUTABLE@ + seq![' ', '"'] + launch + seq!['"', ' ']
        + spec_join_space(args)
}

impl UMULauncher {
    pub fn valid_for_platform(&self, env: &LaunchEnvironment) -> (r: bool)
        ensures
            r == spec_launcher_valid(LauncherKind::Umu, *env),
    {
        umu_ready_exec(env)
    }

    /// `GAMEID=<id> umu-run "<launch>" <args>`.
    pub fn create_launch_process(&self, launch_command: &str, args: &Vec<String>, game_version: &GameVersion) -> (r: String)
        ensures
            r@ == spec_umu_line(spec_umu_game_id(*game_version), launch_command@, views(args@)),
    {
        let game_id = match &game_version.umu_id_override {
            Some(game_override) => {
                if game_override.as_str().is_empty() {
                    clone_string(&game_version.game_id)
                } else {
                    clone_string(game_override)
                }
            },
            None => clone_string(&game_version.game_id),
        };
        let mut r = String::from_str("GAMEID=");
        r.append(game_id.as_str());
        push_char(&mut r, ' ');
        r.append(UMU_LAUNCHER_EXECUTABLE);
        push_char(&mut r, ' ');
        push_char(&mut r, '"');
        r.append(launch_command);
        push_char(&mut r, '"');
        push_char(&mut r, ' ');
        let joined = join_space(args);
        r.append(joined.as_str());
        proof {
            assert(r@ =~= spec_umu_line(spec_umu_game_id(*game_version), launch_command@, views(args@)));
        }
        r
    }
}

/// The umu line rearranged to run under muvm: what precedes the first
/// `umu-run`, trimmed, then `muvm --`, then `umu-run` and what follows it up
/// to any further `umu-run`.
pub open spec fn spec_asahi_line(umu: Seq<char>) -> Seq<char> {
    let pat = UMU_LAUNCHER_EXECUTABLE@;
    match find_from(umu, pat, 0) {
        Some(p) => {
            let rest = p + pat.len();
            let q = match find_from(umu, pat, rest) {
                Some(q) => q,
                None => umu.len() as int,
            };
            spec_trim(umu.subrange(0, p)) + " muvm -- "@ + pat + umu.subrange(rest, q)
        },
        None => Seq::empty(),
    }
}

impl AsahiMuvmLauncher {
    /// Valid on Linux/aarch64 with 16 KiB pages and umu installed.
    pub fn valid_for_platform(&self, env: &LaunchEnvironment) -> (r: bool)
        ensures
            r == spec_launcher_valid(LauncherKind::AsahiMuvm, *env),
    {
        if !env.linux_aarch64 {
            return false;
        }
        if env.page_size != 16384 {
            return false;
        }
        umu_ready_exec(env)
    }

    pub fn create_launch_process(&self, launch_command: &str, args: &Vec<String>, game_version: &GameVersion) -> (r: String)
        ensures
            r@ == spec_asahi_line(spec_umu_line(spec_umu_game_id(*game_version), launch_command@, views(args@))),
    {
        let umu_launcher = UMULauncher {};
        let umu_string = umu_launcher.create_launch_process(launch_command, args, game_version);
        let ghost u = umu_string@;
        let ghost pat = UMU_LAUNCHER_EXECUTABLE@;
        let ghost gid = spec_umu_game_id(*game_version);
        proof {
            let k: int = ("GAMEID="@.len() + gid.len() + 1) as int;
            assert(u.subrange(k, k + pat.len()) =~= pat);
            lemma_find_from_some(u, pat, 0, k);
        }
        let p = match find(umu_string.as_str(), UMU_LAUNCHER_EXECUTABLE, 0) {
            Some(p) => p,
            None => 0,
        };
        let n = umu_string.as_str().unicode_len();
        let m = UMU_LAUNCHER_EXECUTABLE.unicode_len();
        let rest = p + m;
        let q = match find(umu_string.as_str(), UMU_LAUNCHER_EXECUTABLE, rest) {
            Some(q) => q,
            None => n,
        };
        proof {
            crate::text::lemma_find_from_facts_pub(u, pat, rest as int);
        }
        let head = trim(umu_string.as_str().substring_char(0, p));
        let mut r = head;
        r.append(" muvm -- ");
        r.append(UMU_LAUNCHER_EXECUTABLE);
        r.append(umu_string.as_str().substring_char(rest, q));
        r
    }
}

/// Picks the launcher for running a `target_platform` game on this host.
pub fn fetch_process_handler(env: &LaunchEnvironment, target_platform: Platform) -> (r: Result<LauncherKind, ProcessError>)
    ensures
        match r {
            Ok(k) => spec_fetch_handler(*env, target_platform) == Some(k),
            Err(e) => spec_fetch_handler(*env, target_platform) is None && e == ProcessError::InvalidPlatform,
        },
{
    let cur = env.current_platform;
    if cur == Platform::Windows && target_platform == Platform::Windows && (NativeGameLauncher {}).valid_for_platform(env) {
        Ok(LauncherKind::Native)
    } else if cur == Platform::Linux && target_platform == Platform::Linux && (NativeGameLauncher {}).valid_for_platform(env) {
        Ok(LauncherKind::Native)
    } else if cur == Platform::MacOs && target_platform == Platform::MacOs && (NativeGameLauncher {}).valid_for_platform(env) {
        Ok(LauncherKind::Native)
    } else if cur == Platform::Linux && target_platform == Platform::Windows && (AsahiMuvmLauncher {}).valid_for_platform(env) {
        Ok(LauncherKind::AsahiMuvm)
    } else if cur == Platform::Linux && target_platform == Platform::Windows && (UMULauncher {}).valid_for_platform(env) {
        Ok(LauncherKind::Umu)
    } else {
        Err(ProcessError::InvalidPlatform)
    }
}

/// A game built for the host's own platform (Windows on Windows, Linux on
/// Linux, macOS on macOS) always gets the native launcher, whatever else the
/// host offers.
pub proof fn law_own_platform_is_native(env: LaunchEnvironment)
    ensures
        spec_fetch_handler(env, env.current_platform) == Some(LauncherKind::Native),
{
}

/// Whether games built for `platform` can be launched on this host.
pub fn valid_platform(env: &LaunchEnvironment, platform: Platform) -> (r: bool)
    ensures
        r == spec_fetch_handler(*env, platform) is Some,
{
    fetch_process_handler(env, platform).is_ok()
}

/// The command line the chosen launcher builds.
pub open spec fn spec_launch_line(kind: LauncherKind, launch: Seq<char>, args: Seq<Seq<char>>, gv: GameVersion) -> Seq<char> {
    match kind {
        LauncherKind::Native => spec_native_line(launch, args),
        LauncherKind::Umu => spec_umu_line(spec_umu_game_id(gv), launch, args),
        LauncherKind::AsahiMuvm => spec_asahi_line(spec_umu_line(spec_umu_game_id(gv), launch, args)),
    }
}

pub fn create_launch_process(kind: LauncherKind, launch_command: &str, args: &Vec<String>, game_version: &GameVersion) -> (r: String)
    ensures
        r@ == spec_launch_line(kind, launch_command@, views(args@), *game_version),
{
    match kind {
        LauncherKind::Native => (NativeGameLauncher {}).create_launch_process(launch_command, args),
        LauncherKind::Umu => (UMULauncher {}).create_launch_process(launch_command, args, game_version),
        LauncherKind::AsahiMuvm => (AsahiMuvmLauncher {}).create_launch_process(launch_command, args, game_version),
    }
}


/// A game process the client started.
#[derive(Clone, Copy)]
pub struct RunningProcess {
    /// When it was started, in nanoseconds since the epoch.
    pub start: u64,
    /// Whether the user stopped it.
    pub manually_killed: bool,
}

/// The game processes the client is running, by game id.
pub struct ProcessRegistry {
    pub processes: AssocMap<String, RunningProcess>,
}

impl ProcessRegistry {
    pub fn new() -> (r: Self)
        ensures
            r.processes.view() == Map::<Seq<char>, RunningProcess>::empty(),
    {
        ProcessRegistry { processes: AssocMap::new() }
    }
}

/// What a launch needs once its checks have passed.
pub struct LaunchTarget {
    pub meta: DownloadableMetadata,
    pub version_name: String,
    pub install_dir: String,
    /// The game still needs its setup run, so the setup command is launched.
    pub setup: bool,
}

/// Why a game cannot be launched, checked in this order: it is running, it
/// is not installed, its version records are missing.
pub open spec fn spec_prepare_launch_error(registry: ProcessRegistry, db: Applications, game_id: Seq<char>) -> Option<ProcessError> {
    if registry.processes.view().contains_key(game_id) {
        Some(ProcessError::AlreadyRunning)
    } else {
        match lookup(db.game_statuses.view(), game_id) {
            Some(GameDownloadStatus::Installed { version_name, .. })
            | Some(GameDownloadStatus::SetupRequired { version_name, .. }) => {
                if !db.game_versions.view().contains_key(game_id) {
                    Some(ProcessError::InvalidID)
                } else if !db.game_versions.view()[game_id].view().contains_key(version_name@) {
                    Some(ProcessError::InvalidVersion)
                } else {
                    None
                }
            },
            _ => Some(ProcessError::NotInstalled),
        }
    }
}

/// The checks a launch starts with, and the target they resolve.
pub fn prepare_launch(registry: &ProcessRegistry, db: &Applications, game_id: &String) -> (r: Result<LaunchTarget, ProcessError>)
    ensures
        match r {
            Err(e) => spec_prepare_launch_error(*registry, *db, game_id@) == Some(e),
            Ok(t) => {
                &&& spec_prepare_launch_error(*registry, *db, game_id@) is None
                &&& t.meta.id == *game_id
                &&& t.meta.version == Some(t.version_name)
                &&& t.meta.download_type == DownloadType::Game
                &&& match lookup(db.game_statuses.view(), game_id@) {
                    Some(GameDownloadStatus::Installed { version_name, install_dir }) =>
                        t.version_name == version_name && t.install_dir == install_dir && !t.setup,
                    Some(GameDownloadStatus::SetupRequired { version_name, install_dir }) =>
                        t.version_name == version_name && t.install_dir == install_dir && t.setup,
                    _ => false,
                }
            },
        },
{
    if registry.processes.contains_key(game_id) {
        return Err(ProcessError::AlreadyRunning);
    }
    let (version_name, install_dir, setup) = match db.game_statuses.get(game_id) {
        Some(GameDownloadStatus::Installed { version_name, install_dir }) =>
            (clone_string(version_name), clone_string(install_dir), false),
        Some(GameDownloadStatus::SetupRequired { version_name, install_dir }) =>
            (clone_string(version_name), clone_string(install_dir), true),
        _ => return Err(ProcessError::NotInstalled),
    };
    match db.game_versions.get(game_id) {
        None => return Err(ProcessError::InvalidID),
        Some(inner) => {
            if !inner.contains_key(&version_name) {
                return Err(ProcessError::InvalidVersion);
            }
        },
    }
    let meta = DownloadableMetadata {
        id: clone_string(game_id),
        version: Some(clone_string(&version_name)),
        download_type: DownloadType::Game,
    };
    Ok(LaunchTarget { meta, version_name, install_dir, setup })
}

/// The command line and template of a launch.
pub struct LaunchPlan {
    pub launcher: LauncherKind,
    /// The launched program, inside the install directory.
    pub launch_path: String,
    /// The command line the launcher built.
    pub launch_string: String,
    /// The user's template the command line is substituted into.
    pub template: String,
}

/// The version record of a prepared launch.
pub open spec fn target_version(db: Applications, t: LaunchTarget) -> GameVersion {
    db.game_versions.view()[t.meta.id@].view()[t.version_name@]
}

/// Picks the launcher for the game's platform and builds its command line:
/// the setup command while setup is required, the launch command otherwise.
pub fn plan_launch(db: &Applications, target: &LaunchTarget, env: &LaunchEnvironment) -> (r: Result<LaunchPlan, ProcessError>)
    requires
        db.game_versions.view().contains_key(target.meta.id@),
        db.game_versions.view()[target.meta.id@].view().contains_key(target.version_name@),
    ensures
        ({
            let gv = target_version(*db, *target);
            let (launch, args) = if target.setup { (gv.setup_command@, gv.setup_args@) } else {
                (gv.launch_command@, gv.launch_args@)
            };
            match r {
                Err(e) => spec_fetch_handler(*env, gv.platform) is None && e == ProcessError::InvalidPlatform,
                Ok(plan) => {
                    &&& spec_fetch_handler(*env, gv.platform) == Some(plan.launcher)
                    &&& plan.launch_path@ == spec_join_path(target.install_dir@, launch)
                    &&& plan.launch_string@ == spec_launch_line(plan.launcher, plan.launch_path@, views(args), gv)
                    &&& plan.template@ == gv.launch_command_template@
                },
            }
        }),
{
    let inner = match db.game_versions.get(&target.meta.id) {
        Some(inner) => inner,
        None => return Err(ProcessError::InvalidID),
    };
    let game_version = match inner.get(&target.version_name) {
        Some(gv) => gv,
        None => return Err(ProcessError::InvalidVersion),
    };
    let launcher = fetch_process_handler(env, game_version.platform)?;
    let (launch, args) = if target.setup {
        (&game_version.setup_command, &game_version.setup_args)
    } else {
        (&game_version.launch_command, &game_version.launch_args)
    };
    let launch_path = join_path(target.install_dir.as_str(), launch.as_str());
    let launch_string = create_launch_process(launcher, launch_path.as_str(), args, game_version);
    Ok(LaunchPlan {
        launcher,
        launch_path,
        launch_string,
        template: clone_string(&game_version.launch_command_template),
    })
}

/// Records a started game: it is running, since `start`.
pub fn record_launch(db: &mut Applications, registry: &mut ProcessRegistry, meta: &DownloadableMetadata, start: u64)
    ensures
        final(db).transient_statuses.view() == old(db).transient_statuses.view().insert(meta@, ApplicationTransientStatus::Running),
        final(registry).processes.view() == old(registry).processes.view().insert(
            meta.id@,
            RunningProcess { start, manually_killed: false },
        ),
        final(db).game_statuses == old(db).game_statuses,
        final(db).installed_game_version == old(db).installed_game_version,
        final(db).game_versions == old(db).game_versions,
        final(db).install_dirs == old(db).install_dirs,
{
    db.transient_statuses.insert(meta.duplicate(), ApplicationTransientStatus::Running);
    registry.processes.insert(clone_string(&meta.id), RunningProcess { start, manually_killed: false });
}

/// Marks a running game as stopped by the user; the caller then kills it.
pub fn kill_game(registry: &mut ProcessRegistry, game_id: &String) -> (r: Result<(), ProcessError>)
    ensures
        match r {
            Ok(()) => old(registry).processes.view().contains_key(game_id@)
                && final(registry).processes.view() == old(registry).processes.view().insert(
                    game_id@,
                    RunningProcess { start: old(registry).processes.view()[game_id@].start, manually_killed: true },
                ),
            Err(e) => !old(registry).processes.view().contains_key(game_id@)
                && *final(registry) == *old(registry)
                && (e matches ProcessError::IOError(m) && m@ == "Game ID not running"@),
        },
{
    match registry.processes.get(game_id) {
        Some(p) => {
            let start = p.start;
            registry.processes.insert(clone_string(game_id), RunningProcess { start, manually_killed: true });
            Ok(())
        },
        None => Err(ProcessError::IOError(String::from_str("Game ID not running"))),
    }
}

/// How a game process ended.
pub enum ProcessExit {
    /// It exited; whether with success.
    Exited(bool),
    /// Waiting for it failed.
    WaitFailed,
}

/// A game that ends within this many seconds, or unsuccessfully, without the
/// user stopping it, probably failed to start.
pub const QUICK_EXIT_SECONDS: u64 = 2;

/// Whether a game that ended at `now` (nanoseconds) probably failed to
/// start; its run time counts in whole seconds.
pub open spec fn spec_launch_failed(p: RunningProcess, exit: ProcessExit, now: u64) -> bool {
    let elapsed = crate::playtime::session_duration(p.start, now);
    !p.manually_killed && (elapsed <= QUICK_EXIT_SECONDS || exit is WaitFailed || exit == ProcessExit::Exited(false))
}

/// The statuses map after a process ends: a game that needed setup and
/// exited successfully is installed now.
pub open spec fn spec_status_after_exit(m: Map<Seq<char>, GameDownloadStatus>, game_id: Seq<char>, exit: ProcessExit) -> Map<Seq<char>, GameDownloadStatus> {
    match lookup(m, game_id) {
        Some(GameDownloadStatus::SetupRequired { version_name, install_dir }) => if exit == ProcessExit::Exited(true) {
            m.insert(game_id, GameDownloadStatus::Installed { version_name, install_dir })
        } else {
            m
        },
        _ => m,
    }
}

/// A process end changes a game's status only when the game needed setup and
/// its process exited successfully: then it is installed, with the same
/// version and directory. After an unsuccessful exit or a failed wait, and
/// for every other game or status, the status is as before.
pub proof fn law_setup_completes_only_on_success(
    m: Map<Seq<char>, GameDownloadStatus>,
    game_id: Seq<char>,
    exit: ProcessExit,
    k: Seq<char>,
)
    ensures
        lookup(m, game_id) matches Some(GameDownloadStatus::SetupRequired { version_name, install_dir })
            ==> (exit == ProcessExit::Exited(true) ==> lookup(spec_status_after_exit(m, game_id, exit), game_id)
            == Some(GameDownloadStatus::Installed { version_name, install_dir })),
        exit != ProcessExit::Exited(true) ==> lookup(spec_status_after_exit(m, game_id, exit), k) == lookup(m, k),
        !(lookup(m, game_id) matches Some(GameDownloadStatus::SetupRequired { .. })) ==> lookup(
            spec_status_after_exit(m, game_id, exit),
            k,
        ) == lookup(m, k),
        k != game_id ==> lookup(spec_status_after_exit(m, game_id, exit), k) == lookup(m, k),
{
}

/// Handles the end of a game process. Returns `None` when the game was not
/// being tracked, else whether to warn that the game may have failed to start.
pub fn on_process_finish(
    db: &mut Applications,
    registry: &mut ProcessRegistry,
    game_id: &String,
    exit: ProcessExit,
    now: u64,
) -> (r: Option<bool>)
    requires
        old(registry).processes.view().contains_key(game_id@) ==> old(db).installed_game_version.view().contains_key(game_id@),
    ensures
        !old(registry).processes.view().contains_key(game_id@) ==> r is None && *final(db) == *old(db)
            && *final(registry) == *old(registry),
        old(registry).processes.view().contains_key(game_id@) ==> {
            let p = old(registry).processes.view()[game_id@];
            let meta = old(db).installed_game_version.view()[game_id@];
            &&& r == Some(spec_launch_failed(p, exit, now))
            &&& final(registry).processes.view() == old(registry).processes.view().remove(game_id@)
            &&& final(db).transient_statuses.view() == old(db).transient_statuses.view().remove(meta@)
            &&& final(db).game_statuses.view() == spec_status_after_exit(old(db).game_statuses.view(), game_id@, exit)
            &&& final(db).installed_game_version == old(db).installed_game_version
            &&& final(db).game_versions == old(db).game_versions
            &&& final(db).install_dirs == old(db).install_dirs
        },
{
    if !registry.processes.contains_key(game_id) {
        return None;
    }
    let process = match registry.processes.remove(game_id) {
        Some(p) => p,
        None => return None,
    };
    let meta = match db.installed_game_version.get(game_id) {
        Some(m) => m.duplicate(),
        None => return None,
    };
    let _ = db.transient_statuses.remove(&meta);
    let succeeded = match exit {
        ProcessExit::Exited(ok) => ok,
        ProcessExit::WaitFailed => false,
    };
    let updated = match db.game_statuses.get(game_id) {
        Some(GameDownloadStatus::SetupRequired { version_name, install_dir }) => {
            if succeeded {
                Some(GameDownloadStatus::Installed {
                    version_name: clone_string(version_name),
                    install_dir: clone_string(install_dir),
                })
            } else {
                None
            }
        },
        _ => None,
    };
    match updated {
        Some(status) => db.game_statuses.insert(clone_string(game_id), status),
        None => {},
    }
    let elapsed = crate::playtime::elapsed_seconds(process.start, now);
    let failed = !process.manually_killed && (elapsed <= QUICK_EXIT_SECONDS || !succeeded);
    Some(failed)
}

/// The directory a game's logs go to.
pub fn get_log_dir(log_output_dir: &String, game_id: &String) -> (r: String)
    ensures
        r@ == spec_join_path(log_output_dir@, game_id@),
{
    join_path(log_output_dir.as_str(), game_id.as_str())
}

/// The decimal text of a signed number.
pub open spec fn signed_text(n: int) -> Seq<char> {
    if n < 0 {
        seq!['-'] + decimal_text((-n) as nat)
    } else {
        decimal_text(n as nat)
    }
}

/// The output and error log file names of a launch: `<version>-<time>.log`
/// and `<version>-<time>-error.log`.
pub fn log_file_names(version: &String, timestamp: i64) -> (r: (String, String))
    ensures
        r.0@ == version@ + seq!['-'] + signed_text(timestamp as int) + ".log"@,
        r.1@ == version@ + seq!['-'] + signed_text(timestamp as int) + "-error.log"@,
{
    let mut stem = clone_string(version);
    push_char(&mut stem, '-');
    if timestamp < 0 {
        push_char(&mut stem, '-');
        let magnitude: u64 = if timestamp == i64::MIN { 9223372036854775808u64 } else { (-timestamp) as u64 };
        append_u64_decimal(&mut stem, magnitude);
    } else {
        append_u64_decimal(&mut stem, timestamp as u64);
    }
    let mut out = clone_string(&stem);
    out.append(".log");
    let mut err = stem;
    err.append("-error.log");
    proof {
        assert(out@ =~= version@ + seq!['-'] + signed_text(timestamp as int) + ".log"@);
        assert(err@ =~= version@ + seq!['-'] + signed_text(timestamp as int) + "-error.log"@);
    }
    (out, err)
}

pub fn append_u64_decimal(out: &mut String, n: u64)
    ensures
        final(out)@ == old(out)@ + decimal_text(n as nat),
    decreases n,
{
    if n < 10 {
        append_decimal(out, n as usize);
    } else {
        append_u64_decimal(out, n / 10);
        append_decimal(out, (n % 10) as usize);
        proof {
            assert(decimal_text((n % 10) as nat) == seq![crate::errors::digit_char((n % 10) as nat)]);
            assert(final(out)@ =~= old(out)@ + decimal_text(n as nat));
        }
    }
}

/// What a launch request tells the user interface.
pub enum LaunchResult {
    Success,
    /// The game needs another game installed first: its id and version.
    InstallRequired(String, String),
}
} // verus!
