use vstd::prelude::*;

verus! {

/// Error taxonomy of the core. Each fallible operation returns one of these;
/// there is no unwinding-as-control-flow anywhere in the library.
#[derive(Debug, Clone, PartialEq, Eq)]
pub enum ArchivistError {
    /// The local node API is unreachable; callers typically retry next cycle.
    NodeUnavailable,
    /// Supervisor transition attempted while the node is not running.
    NodeNotRunning,
    /// Supervisor transition attempted while the node is already running.
    NodeAlreadyRunning,
    /// The node process could not be started.
    NodeStartFailed(String),
    /// The node process could not be stopped.
    NodeStopFailed(String),
    /// A file or folder the caller named does not exist.
    FileNotFound(String),
    /// A local file operation failed.
    FileOperationFailed(String),
    /// Manifest authoring or registration failed; the folder keeps its state.
    SyncError(String),
    /// A peer session could not be established.
    PeerConnectionFailed(String),
    /// Unreadable or unparseable configuration; fatal for the component.
    ConfigError(String),
    /// HTTP error from the node API or a peer service.
    ApiError(String),
    /// A malformed streaming request, such as a bad Range header.
    StreamingError(String),
}

/// The text that `ArchivistError::message` renders for each variant.
pub open spec fn message_of(e: ArchivistError) -> Seq<char> {
    match e {
        ArchivistError::NodeUnavailable => "node unavailable"@,
        ArchivistError::NodeNotRunning => "node not running"@,
        ArchivistError::NodeAlreadyRunning => "node already running"@,
        ArchivistError::NodeStartFailed(s) => "failed to start node: "@ + s@,
        ArchivistError::NodeStopFailed(s) => "failed to stop node: "@ + s@,
        ArchivistError::FileNotFound(s) => "file not found: "@ + s@,
        ArchivistError::FileOperationFailed(s) => "file operation failed: "@ + s@,
        ArchivistError::SyncError(s) => "sync error: "@ + s@,
        ArchivistError::PeerConnectionFailed(s) => "peer connection failed: "@ + s@,
        ArchivistError::ConfigError(s) => "configuration error: "@ + s@,
        ArchivistError::ApiError(s) => "api request failed: "@ + s@,
        ArchivistError::StreamingError(s) => "streaming error: "@ + s@,
    }
}

impl ArchivistError {
    /// A short human-readable description, used by callers in place of
    /// a `Display` implementation.
    pub fn message(&self) -> (r: String)
        ensures
            r@ == message_of(*self),
    {
        match self {
            ArchivistError::NodeUnavailable => String::from_str("node unavailable"),
            ArchivistError::NodeNotRunning => String::from_str("node not running"),
            ArchivistError::NodeAlreadyRunning => String::from_str("node already running"),
            ArchivistError::NodeStartFailed(s) => concat_label("failed to start node: ", s),
            ArchivistError::NodeStopFailed(s) => concat_label("failed to stop node: ", s),
            ArchivistError::FileNotFound(s) => concat_label("file not found: ", s),
            ArchivistError::FileOperationFailed(s) => concat_label("file operation failed: ", s),
            ArchivistError::SyncError(s) => concat_label("sync error: ", s),
            ArchivistError::PeerConnectionFailed(s) => concat_label("peer connection failed: ", s),
            ArchivistError::ConfigError(s) => concat_label("configuration error: ", s),
            ArchivistError::ApiError(s) => concat_label("api request failed: ", s),
            ArchivistError::StreamingError(s) => concat_label("streaming error: ", s),
        }
    }
}

/// Joins a fixed label with the detail text of an error.
fn concat_label(label: &str, detail: &String) -> (r: String)
    ensures
        r@ == label@ + detail@,
{
    let mut out = String::from_str(label);
    out.append(detail.as_str());
    out
}

} // verus!
