//! The requests that the daemon takes and the answers that it gives.

use vstd::prelude::*;
use vstd::string::StringExecFns;

verus! {

/// A request as the daemon handles it: those that clients send, and the
/// daemon's own.
#[derive(Clone, Debug)]
pub enum InternalRequest {
    SetWallpaper { id: u64, screen: String },
    KillDaemon,
    ListOutputs,
    /// An output appeared; raised by the daemon itself.
    NewOutput { screen: String },
}

/// A request that a client may send.
#[derive(Clone, Debug)]
pub enum IPCRequest {
    SetWallpaper { id: u64, screen: String },
    KillDaemon,
    ListOutputs,
}

/// The daemon's answer.
#[derive(Clone, Debug)]
pub enum IPCResponse {
    Success,
    Outputs(Vec<String>),
    Error(IPCError),
}

/// Why a request failed.
#[derive(Clone, Copy, Debug, PartialEq, Eq, Structural)]
pub enum IPCError {
    ScreenNotFound,
    WallpaperNotFound,
    UnsupportedWallpaperType,
    InternalError,
    WallpaperLoadingError,
}

/// The internal request that a client's request stands for.
pub open spec fn internal_of(request: IPCRequest) -> InternalRequest {
    match request {
        IPCRequest::SetWallpaper { id, screen } => InternalRequest::SetWallpaper { id, screen },
        IPCRequest::KillDaemon => InternalRequest::KillDaemon,
        IPCRequest::ListOutputs => InternalRequest::ListOutputs,
    }
}

impl InternalRequest {
    /// Whether a client may send the request.
    pub open spec fn public(&self) -> bool {
        !(self is NewOutput)
    }

    /// The request as the daemon handles it.
    pub fn from_request(request: IPCRequest) -> (r: Self)
        ensures
            r == internal_of(request),
            r.public(),
    {
        match request {
            IPCRequest::SetWallpaper { id, screen } => InternalRequest::SetWallpaper {
                id,
                screen,
            },
            IPCRequest::KillDaemon => InternalRequest::KillDaemon,
            IPCRequest::ListOutputs => InternalRequest::ListOutputs,
        }
    }

    /// The request as a client sends it; none for the daemon's own.
    pub fn into_request(self) -> (r: Option<IPCRequest>)
        ensures
            r is Some <==> self.public(),
            r matches Some(request) ==> internal_of(request) == self,
    {
        match self {
            InternalRequest::SetWallpaper { id, screen } => Some(
                IPCRequest::SetWallpaper { id, screen },
            ),
            InternalRequest::KillDaemon => Some(IPCRequest::KillDaemon),
            InternalRequest::ListOutputs => Some(IPCRequest::ListOutputs),
            InternalRequest::NewOutput { screen: _ } => None,
        }
    }
}

impl IPCError {
    /// The short name by which a machine reads the error.
    pub open spec fn spec_kind(&self) -> Seq<char> {
        match self {
            IPCError::ScreenNotFound => "screen_not_found"@,
            IPCError::WallpaperNotFound => "wallpaper_not_found"@,
            IPCError::UnsupportedWallpaperType => "unsupported_wallpaper_type"@,
            IPCError::InternalError => "internal_error"@,
            IPCError::WallpaperLoadingError => "wallpaper_loading_error"@,
        }
    }

    /// The sentence by which a person reads the error.
    pub open spec fn spec_message(&self) -> Seq<char> {
        match self {
            IPCError::ScreenNotFound => "The specified screen was not found."@,
            IPCError::WallpaperNotFound => "The specified wallpaper was not found."@,
            IPCError::UnsupportedWallpaperType => "The wallpaper type is unsupported."@,
            IPCError::InternalError => "An internal error occurred while processing the request."@,
            IPCError::WallpaperLoadingError => "The wallpaper could not be loaded."@,
        }
    }

    /// The error's short name and its sentence.
    pub fn describe(&self) -> (r: (&'static str, &'static str))
        ensures
            r.0@ == self.spec_kind(),
            r.1@ == self.spec_message(),
    {
        match self {
            IPCError::ScreenNotFound => ("screen_not_found", "The specified screen was not found."),
            IPCError::WallpaperNotFound => (
                "wallpaper_not_found",
                "The specified wallpaper was not found.",
            ),
            IPCError::UnsupportedWallpaperType => (
                "unsupported_wallpaper_type",
                "The wallpaper type is unsupported.",
            ),
            IPCError::InternalError => (
                "internal_error",
                "An internal error occurred while processing the request.",
            ),
            IPCError::WallpaperLoadingError => (
                "wallpaper_loading_error",
                "The wallpaper could not be loaded.",
            ),
        }
    }
}

/// The line that reports success to a machine.
pub fn json_success() -> (line: &'static str)
    ensures
        line@ == "{\"success\": true}"@,
{
    "{\"success\": true}"
}

/// The line that reports an error to a machine. Name and sentence are written
/// as they are.
pub fn json_error(error_kind: &str, message: &str) -> (line: String)
    ensures
        line@ == "{\"success\": false, \"error\": \""@ + error_kind@ + "\", \"message\": \""@
            + message@ + "\"}"@,
{
    String::from_str("{\"success\": false, \"error\": \"").concat(error_kind).concat(
        "\", \"message\": \"",
    ).concat(message).concat("\"}")
}

/// The line that reports to a machine that the daemon gave no answer.
pub fn json_no_response() -> (line: String)
    ensures
        line@ == "{\"success\": false, \"error\": \""@ + "no_response"@
            + "\", \"message\": \""@ + "No response from daemon."@ + "\"}"@,
{
    json_error("no_response", "No response from daemon.")
}

/// The line that reports to a machine that the daemon could not be reached,
/// with the reason as it is.
pub fn json_connection_error(error: &str) -> (line: String)
    ensures
        line@ == "{\"success\": false, \"error_kind\": \"no_daemon\", \"message\": \""@ + error@
            + "\"}"@,
{
    String::from_str("{\"success\": false, \"error_kind\": \"no_daemon\", \"message\": \"").concat(
        error,
    ).concat("\"}")
}

/// What a client makes of the answer to a request.
pub enum Report {
    /// The daemon answered.
    Answer(IPCResponse),
    /// The daemon was reached and gave no answer.
    NoResponse,
    /// The daemon could not be reached; the reason is given.
    NoDaemon(String),
}

/// Sorts the answer to a request: an answer, none, or the reason why the
/// daemon could not be reached.
pub fn handle_ipc_response(response: Result<Option<IPCResponse>, String>) -> (report: Report)
    ensures
        report == match response {
            Ok(Some(answer)) => Report::Answer(answer),
            Ok(None) => Report::NoResponse,
            Err(reason) => Report::NoDaemon(reason),
        },
{
    match response {
        Ok(Some(answer)) => Report::Answer(answer),
        Ok(None) => Report::NoResponse,
        Err(reason) => Report::NoDaemon(reason),
    }
}

} // verus!
