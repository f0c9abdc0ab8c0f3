//! Torrent states as the torrent client reports them, and the reading of its
//! status listing.

use vstd::prelude::*;
use crate::pattern::{Pattern, captures, regex_captures, regex_compiles};
use crate::text::{text_eq, trim, trimmed};

verus! {

/// The state of a torrent.
#[derive(Debug, PartialEq, Eq, Structural, Clone, Copy)]
pub enum State {
    Downloading,
    Uploading,
    StalledDownloading,
    StalledUploading,
    StoppedDownloading,
    StoppedUploading,
    DownloadingMetadata,
    MissingFiles,
}

/// The state that the client's name `s` stands for.
pub open spec fn state_named(s: Seq<char>) -> Option<State> {
    if s == "downloading"@ {
        Some(State::Downloading)
    } else if s == "uploading"@ {
        Some(State::Uploading)
    } else if s == "stalledDL"@ {
        Some(State::StalledDownloading)
    } else if s == "stalledUP"@ {
        Some(State::StalledUploading)
    } else if s == "stoppedDL"@ {
        Some(State::StoppedDownloading)
    } else if s == "stoppedUP"@ {
        Some(State::StoppedUploading)
    } else if s == "metaDL"@ {
        Some(State::DownloadingMetadata)
    } else if s == "missingFiles"@ {
        Some(State::MissingFiles)
    } else {
        None
    }
}

/// Whether the download is complete: the torrent is seeding, stalled while
/// seeding, or stopped after it.
pub open spec fn download_complete(s: State) -> bool {
    s == State::StalledUploading || s == State::Uploading || s == State::StoppedUploading
}

impl State {
    /// The state that the client calls `s`; `None` for a name it does not use.
    pub fn from_str(s: &str) -> (r: Option<State>)
        ensures
            r == state_named(s@),
    {
        if text_eq(s, "downloading") {
            Some(State::Downloading)
        } else if text_eq(s, "uploading") {
            Some(State::Uploading)
        } else if text_eq(s, "stalledDL") {
            Some(State::StalledDownloading)
        } else if text_eq(s, "stalledUP") {
            Some(State::StalledUploading)
        } else if text_eq(s, "stoppedDL") {
            Some(State::StoppedDownloading)
        } else if text_eq(s, "stoppedUP") {
            Some(State::StoppedUploading)
        } else if text_eq(s, "metaDL") {
            Some(State::DownloadingMetadata)
        } else if text_eq(s, "missingFiles") {
            Some(State::MissingFiles)
        } else {
            None
        }
    }

    /// Whether the download is complete.
    pub fn is_complete(&self) -> (r: bool)
        ensures
            r == download_complete(*self),
            r <==> (*self == State::Uploading || *self == State::StalledUploading || *self
                == State::StoppedUploading),
    {
        match self {
            State::StalledUploading | State::Uploading | State::StoppedUploading => true,
            _ => false,
        }
    }
}

/// Why a status listing could not be read.
#[derive(Debug, PartialEq, Eq, Structural, Clone, Copy)]
pub enum StatusError {
    /// The listing pattern does not compile.
    BadPattern,
    /// The listing does not hold a torrent entry.
    NoMatch,
    /// The entry has no file name.
    MissingFilename,
    /// The entry has no state.
    MissingState,
    /// The entry has no save path.
    MissingPath,
    /// The entry's state is not one the client uses.
    InvalidState,
}

/// The message of a status error, as it is shown to the user.
pub open spec fn status_error_text(e: StatusError) -> Seq<char> {
    match e {
        StatusError::BadPattern => "Invalid status pattern"@,
        StatusError::NoMatch => "Error extracting state from output"@,
        StatusError::MissingFilename => "Missing filename"@,
        StatusError::MissingState => "Missing state"@,
        StatusError::MissingPath => "Missing path"@,
        StatusError::InvalidState => "Invalid state"@,
    }
}

impl StatusError {
    /// The message of the error, as it is shown to the user.
    pub fn message(&self) -> (r: &'static str)
        ensures
            r@ == status_error_text(*self),
    {
        match self {
            StatusError::BadPattern => "Invalid status pattern",
            StatusError::NoMatch => "Error extracting state from output",
            StatusError::MissingFilename => "Missing filename",
            StatusError::MissingState => "Missing state",
            StatusError::MissingPath => "Missing path",
            StatusError::InvalidState => "Invalid state",
        }
    }
}

/// The pattern of a torrent entry in the client's listing: the name after
/// `[*] `, then the `State: ` line, then the `Save path: ` line.
pub const STATUS_PATTERN: &'static str = "\\[\\*\\] (.*)[\\s\\S]*?State: (.*)[\\s\\S]*?Save path: (.*)";

/// Capture group `i` of `groups`; `None` past the last group.
pub open spec fn group(groups: Seq<Option<Seq<char>>>, i: int) -> Option<Seq<char>> {
    if 0 <= i < groups.len() {
        groups[i]
    } else {
        None
    }
}

/// The state, save path and file name that the groups of a listing match
/// give, each trimmed of whitespace; the groups are checked in the order name,
/// state, path, and the state's name last.
pub open spec fn status_of(caps: Option<Seq<Option<Seq<char>>>>) -> Result<
    (State, Seq<char>, Seq<char>),
    StatusError,
> {
    match caps {
        None => Err(StatusError::NoMatch),
        Some(g) => match (group(g, 1), group(g, 2), group(g, 3)) {
            (None, _, _) => Err(StatusError::MissingFilename),
            (Some(_), None, _) => Err(StatusError::MissingState),
            (Some(_), Some(_), None) => Err(StatusError::MissingPath),
            (Some(name), Some(state), Some(path)) => match state_named(trim(state)) {
                None => Err(StatusError::InvalidState),
                Some(st) => Ok((st, trim(path), trim(name))),
            },
        },
    }
}

/// Whether `r` is `expected` with the strings taken by their views.
pub open spec fn status_matches(
    r: Result<(State, String, String), StatusError>,
    expected: Result<(State, Seq<char>, Seq<char>), StatusError>,
) -> bool {
    match r {
        Ok((st, path, name)) => expected == Ok::<(State, Seq<char>, Seq<char>), StatusError>(
            (st, path@, name@),
        ),
        Err(e) => expected == Err::<(State, Seq<char>, Seq<char>), StatusError>(e),
    }
}

fn group_at(groups: &Vec<Option<String>>, i: usize) -> (r: Option<&String>)
    ensures
        r.deep_view() == group(groups.deep_view(), i as int),
{
    if i < groups.len() {
        match &groups[i] {
            Some(s) => Some(s),
            None => None,
        }
    } else {
        None
    }
}

/// Reads the state, save path and file name out of the groups of a listing match.
pub fn status_from_captures(caps: &Option<Vec<Option<String>>>) -> (r: Result<
    (State, String, String),
    StatusError,
>)
    ensures
        status_matches(r, status_of(caps.deep_view())),
{
    match caps {
        None => Err(StatusError::NoMatch),
        Some(g) => {
            let name = match group_at(g, 1) {
                Some(s) => s,
                None => {
                    return Err(StatusError::MissingFilename);
                },
            };
            let state = match group_at(g, 2) {
                Some(s) => s,
                None => {
                    return Err(StatusError::MissingState);
                },
            };
            let path = match group_at(g, 3) {
                Some(s) => s,
                None => {
                    return Err(StatusError::MissingPath);
                },
            };
            let filename = trimmed(name.as_str()).to_owned();
            let path = trimmed(path.as_str()).to_owned();
            match State::from_str(trimmed(state.as_str())) {
                Some(st) => Ok((st, path, filename)),
                None => Err(StatusError::InvalidState),
            }
        },
    }
}

/// Reads the state, save path and file name of the torrent in the client's
/// listing `output`.
pub fn check_status_output(output: &str) -> (r: Result<(State, String, String), StatusError>)
    ensures
        !regex_compiles(STATUS_PATTERN@) ==> r == Err::<(State, String, String), StatusError>(
            StatusError::BadPattern,
        ),
        regex_compiles(STATUS_PATTERN@) ==> status_matches(
            r,
            status_of(regex_captures(STATUS_PATTERN@, output@)),
        ),
{
    let pattern = match Pattern::new(STATUS_PATTERN) {
        Ok(p) => p,
        Err(_) => {
            return Err(StatusError::BadPattern);
        },
    };
    let caps = captures(&pattern, output);
    status_from_captures(&caps)
}

} // verus!

verus! {

/// Only a torrent that seeds, stalled or stopped or not, has its download
/// complete: one fetching metadata, downloading (stalled or stopped too) or
/// missing its files has not.
pub proof fn law_complete_only_when_seeding(s: State)
    ensures
        download_complete(s) <==> (s == State::Uploading || s == State::StalledUploading || s
            == State::StoppedUploading),
        !download_complete(State::DownloadingMetadata),
        !download_complete(State::Downloading),
        !download_complete(State::StalledDownloading),
        !download_complete(State::StoppedDownloading),
        !download_complete(State::MissingFiles),
{
}

} // verus!
