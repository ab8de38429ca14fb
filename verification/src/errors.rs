//! The client's error types, each with the user-facing message it shows.

use vstd::prelude::*;
use crate::text::{append, concat, to_string};

verus! {

/// Renders a byte count with binary units, e.g. `1 KiB`.
pub uninterp spec fn binary_size_text(bytes: u64) -> Seq<char>;

/// Trusted: `humansize::format_size` with the `BINARY` options. Its text is a
/// function of the byte count alone; what that text is, is not stated.
#[verifier::external_body]
fn format_size_binary(bytes: u64) -> (r: String)
    ensures
        r@ == binary_size_text(bytes),
{
    humansize::format_size(bytes, humansize::BINARY)
}

/// The error body the Drop server sends with a failing status.
pub struct DropServerError {
    pub status_code: usize,
    pub status_message: String,
}

impl DropServerError {
    pub fn duplicate(&self) -> (r: Self)
        ensures
            r == *self,
    {
        DropServerError { status_code: self.status_code, status_message: self.status_message.clone() }
    }
}

/// Failures to talk to the Drop server, with the details kept as text.
pub enum RemoteAccessError {
    /// The request could not be sent or its body not read: the error and its source, if any.
    FetchError(String, Option<String>),
    ParsingError(String),
    InvalidEndpoint,
    HandshakeFailed(String),
    GameNotFound(String),
    InvalidResponse(DropServerError),
    InvalidRedirect,
    /// The status line and the body of the failed manifest request.
    ManifestDownloadFailed(String, String),
    OutOfSync,
    Cache(String),
    Generic(String),
    UnparseableResponse(String),
}

pub open spec fn spec_remote_message(e: RemoteAccessError) -> Seq<char> {
    match e {
        RemoteAccessError::FetchError(err, source) => err@ + ": "@ + match source {
            Some(s) => s@,
            None => "Unknown error"@,
        },
        RemoteAccessError::ParsingError(m) => m@,
        RemoteAccessError::InvalidEndpoint => "invalid drop endpoint"@,
        RemoteAccessError::HandshakeFailed(m) => "failed to complete handshake: "@ + m@,
        RemoteAccessError::GameNotFound(_) => "could not find game on server"@,
        RemoteAccessError::InvalidResponse(err) => "server returned an invalid response: "@
            + decimal_text(err.status_code as nat) + " "@ + err.status_message@,
        RemoteAccessError::InvalidRedirect => "server redirect was invalid"@,
        RemoteAccessError::ManifestDownloadFailed(status, body) => "failed to download game manifest: "@
            + status@ + " "@ + body@,
        RemoteAccessError::OutOfSync =>
            "server's and client's time are out of sync. Please ensure they are within at least 30 seconds of each other"@,
        RemoteAccessError::Cache(m) => "Cache Error: "@ + m@,
        RemoteAccessError::Generic(m) => m@,
        RemoteAccessError::UnparseableResponse(m) => m@,
    }
}

/// The decimal digits of `n`.
pub open spec fn decimal_text(n: nat) -> Seq<char>
    decreases n,
{
    if n < 10 {
        seq![digit_char(n)]
    } else {
        decimal_text(n / 10).push(digit_char(n % 10))
    }
}

pub open spec fn digit_char(d: nat) -> char {
    if d == 0 { '0' } else if d == 1 { '1' } else if d == 2 { '2' } else if d == 3 { '3' }
    else if d == 4 { '4' } else if d == 5 { '5' } else if d == 6 { '6' } else if d == 7 { '7' }
    else if d == 8 { '8' } else { '9' }
}

fn digit(d: usize) -> (c: char)
    requires
        d < 10,
    ensures
        c == digit_char(d as nat),
{
    if d == 0 { '0' } else if d == 1 { '1' } else if d == 2 { '2' } else if d == 3 { '3' }
    else if d == 4 { '4' } else if d == 5 { '5' } else if d == 6 { '6' } else if d == 7 { '7' }
    else if d == 8 { '8' } else { '9' }
}

/// Appends the decimal digits of `n`.
pub fn append_decimal(out: &mut String, n: usize)
    ensures
        final(out)@ == old(out)@ + decimal_text(n as nat),
    decreases n,
{
    if n < 10 {
        crate::text::push_char(out, digit(n));
        proof {
            assert(decimal_text(n as nat) =~= seq![digit_char(n as nat)]);
        }
    } else {
        append_decimal(out, n / 10);
        crate::text::push_char(out, digit(n % 10));
        proof {
            assert(final(out)@ =~= old(out)@ + decimal_text(n as nat));
        }
    }
}

impl RemoteAccessError {
    /// The text shown to the user.
    pub fn message(&self) -> (r: String)
        ensures
            r@ == spec_remote_message(*self),
    {
        match self {
            RemoteAccessError::FetchError(err, source) => {
                let mut r = concat(err.as_str(), ": ");
                match source {
                    Some(s) => append(&mut r, s.as_str()),
                    None => append(&mut r, "Unknown error"),
                }
                r
            },
            RemoteAccessError::ParsingError(m) => to_string(m.as_str()),
            RemoteAccessError::InvalidEndpoint => to_string("invalid drop endpoint"),
            RemoteAccessError::HandshakeFailed(m) => concat("failed to complete handshake: ", m.as_str()),
            RemoteAccessError::GameNotFound(_) => to_string("could not find game on server"),
            RemoteAccessError::InvalidResponse(err) => {
                let mut r = to_string("server returned an invalid response: ");
                append_decimal(&mut r, err.status_code);
                append(&mut r, " ");
                append(&mut r, err.status_message.as_str());
                r
            },
            RemoteAccessError::InvalidRedirect => to_string("server redirect was invalid"),
            RemoteAccessError::ManifestDownloadFailed(status, body) => {
                let mut r = concat("failed to download game manifest: ", status.as_str());
                append(&mut r, " ");
                append(&mut r, body.as_str());
                r
            },
            RemoteAccessError::OutOfSync => to_string(
                "server's and client's time are out of sync. Please ensure they are within at least 30 seconds of each other",
            ),
            RemoteAccessError::Cache(m) => concat("Cache Error: ", m.as_str()),
            RemoteAccessError::Generic(m) => to_string(m.as_str()),
            RemoteAccessError::UnparseableResponse(m) => to_string(m.as_str()),
        }
    }
}

/// Failures of a game download as a whole.
pub enum ApplicationDownloadError {
    NotInitialized,
    Communication(RemoteAccessError),
    /// Bytes required, bytes available.
    DiskFull(u64, u64),
    Checksum,
    Lock,
    IoError(String),
    DownloadError,
}

pub open spec fn spec_download_message(e: ApplicationDownloadError) -> Seq<char> {
    match e {
        ApplicationDownloadError::NotInitialized => "Download not initalized, did something go wrong?"@,
        ApplicationDownloadError::DiskFull(required, available) => "Game requires "@
            + binary_size_text(required) + ", "@ + binary_size_text(available) + " remaining left on disk."@,
        ApplicationDownloadError::Communication(err) => spec_remote_message(err),
        ApplicationDownloadError::Lock =>
            "failed to acquire lock. Something has gone very wrong internally. Please restart the application"@,
        ApplicationDownloadError::Checksum => "checksum failed to validate for download"@,
        ApplicationDownloadError::IoError(m) => "io error: "@ + m@,
        ApplicationDownloadError::DownloadError =>
            "Download failed. See Download Manager status for specific error"@,
    }
}

impl ApplicationDownloadError {
    /// The text shown to the user.
    pub fn message(&self) -> (r: String)
        ensures
            r@ == spec_download_message(*self),
    {
        match self {
            ApplicationDownloadError::NotInitialized => to_string("Download not initalized, did something go wrong?"),
            ApplicationDownloadError::DiskFull(required, available) => {
                let mut r = to_string("Game requires ");
                let a = format_size_binary(*required);
                append(&mut r, a.as_str());
                append(&mut r, ", ");
                let b = format_size_binary(*available);
                append(&mut r, b.as_str());
                append(&mut r, " remaining left on disk.");
                r
            },
            ApplicationDownloadError::Communication(err) => err.message(),
            ApplicationDownloadError::Lock => to_string(
                "failed to acquire lock. Something has gone very wrong internally. Please restart the application",
            ),
            ApplicationDownloadError::Checksum => to_string("checksum failed to validate for download"),
            ApplicationDownloadError::IoError(m) => concat("io error: ", m.as_str()),
            ApplicationDownloadError::DownloadError => to_string(
                "Download failed. See Download Manager status for specific error",
            ),
        }
    }
}

/// Failures while resolving backup paths.
#[derive(PartialEq, Eq, Structural, Clone, Copy, Debug)]
pub enum BackupError {
    InvalidSystem,
    NotFound,
    ParseError,
}

impl BackupError {
    pub fn message(&self) -> (r: String)
        ensures
            r@ == match *self {
                BackupError::InvalidSystem => "Attempted to generate path for invalid system"@,
                BackupError::NotFound => "Could not generate or find path"@,
                BackupError::ParseError => "Failed to parse path"@,
            },
    {
        match self {
            BackupError::InvalidSystem => to_string("Attempted to generate path for invalid system"),
            BackupError::NotFound => to_string("Could not generate or find path"),
            BackupError::ParseError => to_string("Failed to parse path"),
        }
    }
}

/// Failures of the download manager's own plumbing.
pub enum DownloadManagerError<T> {
    IOError(String),
    /// The signal that could not be delivered because the receiver is gone.
    SignalError(T),
}

impl<T> DownloadManagerError<T> {
    pub fn message(&self) -> (r: String)
        ensures
            r@ == match *self {
                DownloadManagerError::IOError(m) => m@,
                DownloadManagerError::SignalError(_) => "sending on a closed channel"@,
            },
    {
        match self {
            DownloadManagerError::IOError(m) => to_string(m.as_str()),
            DownloadManagerError::SignalError(_) => to_string("sending on a closed channel"),
        }
    }
}

/// Failures of library bookkeeping.
pub enum LibraryError {
    MetaNotFound(String),
}

impl LibraryError {
    pub fn message(&self) -> (r: String)
        ensures
            r@ == match *self {
                LibraryError::MetaNotFound(id) => "Could not locate any installed version of game ID "@ + id@
                    + " in the database"@,
            },
    {
        match self {
            LibraryError::MetaNotFound(id) => {
                let mut r = concat("Could not locate any installed version of game ID ", id.as_str());
                append(&mut r, " in the database");
                r
            },
        }
    }
}

/// Failures while preparing a download.
#[derive(PartialEq, Eq, Structural, Clone, Copy, Debug)]
pub enum SetupError {
    Context,
}

impl SetupError {
    pub fn message(&self) -> (r: String)
        ensures
            r@ == "failed to generate contexts for download"@,
    {
        to_string("failed to generate contexts for download")
    }
}

/// Failures of launching, stopping or inspecting a game process.
pub enum ProcessError {
    SetupRequired,
    NotInstalled,
    AlreadyRunning,
    NotDownloaded,
    InvalidID,
    InvalidVersion,
    IOError(String),
    FormatError(String),
    InvalidPlatform,
    OpenerError(String),
    PlaytimeError(String),
}

impl ProcessError {
    pub fn message(&self) -> (r: String)
        ensures
            r@ == match *self {
                ProcessError::SetupRequired => "Game not set up"@,
                ProcessError::NotInstalled => "Game not installed"@,
                ProcessError::AlreadyRunning => "Game already running"@,
                ProcessError::NotDownloaded => "Game not downloaded"@,
                ProcessError::InvalidID => "Invalid game ID"@,
                ProcessError::InvalidVersion => "Invalid game version"@,
                ProcessError::IOError(m) => m@,
                ProcessError::InvalidPlatform => "This game cannot be played on the current platform"@,
                ProcessError::FormatError(m) => "Failed to format template: "@ + m@,
                ProcessError::OpenerError(m) => "Failed to open directory: "@ + m@,
                ProcessError::PlaytimeError(m) => m@,
            },
    {
        match self {
            ProcessError::SetupRequired => to_string("Game not set up"),
            ProcessError::NotInstalled => to_string("Game not installed"),
            ProcessError::AlreadyRunning => to_string("Game already running"),
            ProcessError::NotDownloaded => to_string("Game not downloaded"),
            ProcessError::InvalidID => to_string("Invalid game ID"),
            ProcessError::InvalidVersion => to_string("Invalid game version"),
            ProcessError::IOError(m) => to_string(m.as_str()),
            ProcessError::InvalidPlatform => to_string("This game cannot be played on the current platform"),
            ProcessError::FormatError(m) => concat("Failed to format template: ", m.as_str()),
            ProcessError::OpenerError(m) => concat("Failed to open directory: ", m.as_str()),
            ProcessError::PlaytimeError(m) => to_string(m.as_str()),
        }
    }
}

/// Failures of playtime bookkeeping.
pub enum PlaytimeError {
    DatabaseError(String),
    SessionNotFound(String),
    SessionAlreadyActive(String),
    InvalidGameId(String),
}

pub open spec fn spec_playtime_message(e: PlaytimeError) -> Seq<char> {
    match e {
        PlaytimeError::DatabaseError(m) => "Database error: "@ + m@,
        PlaytimeError::SessionNotFound(g) => "Session not found for game: "@ + g@,
        PlaytimeError::SessionAlreadyActive(g) => "Session already active for game: "@ + g@,
        PlaytimeError::InvalidGameId(g) => "Invalid game ID: "@ + g@,
    }
}

impl PlaytimeError {
    pub fn message(&self) -> (r: String)
        ensures
            r@ == spec_playtime_message(*self),
    {
        match self {
            PlaytimeError::DatabaseError(m) => concat("Database error: ", m.as_str()),
            PlaytimeError::SessionNotFound(g) => concat("Session not found for game: ", g.as_str()),
            PlaytimeError::SessionAlreadyActive(g) => concat("Session already active for game: ", g.as_str()),
            PlaytimeError::InvalidGameId(g) => concat("Invalid game ID: ", g.as_str()),
        }
    }

    /// The process error a playtime failure becomes: its message.
    pub fn into_process_error(&self) -> (r: ProcessError)
        ensures
            r matches ProcessError::PlaytimeError(m) && m@ == spec_playtime_message(*self),
    {
        ProcessError::PlaytimeError(self.message())
    }
}

} // verus!
