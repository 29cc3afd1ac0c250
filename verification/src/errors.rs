//! The library's error type. Errors from collaborators (filesystem,
//! notification layer, config reader) arrive as plain text detail; the
//! variants the pipeline itself produces carry the offending command or path.

use vstd::prelude::*;

verus! {

/// Everything that can go wrong around the pipeline. Only action errors are
/// produced by the verified logic itself; the other variants give the
/// surrounding binary one shape for its own failures.
#[derive(Debug, Clone)]
pub enum AppError {
    /// A filesystem operation failed.
    Io(String),
    /// The configuration file could not be read.
    ConfigRead { path: String, detail: String },
    /// The configuration file could not be parsed.
    ConfigParse { path: String, detail: String },
    /// The configuration path itself is unusable.
    InvalidConfigPath(String),
    /// The filesystem watcher failed.
    Notify(String),
    /// The event debouncer failed.
    Debounce(String),
    /// Running an action's command failed; carries the final command string.
    ActionExec { command: String, detail: String },
    /// An affected path is not valid text and cannot be substituted.
    PathNonUtf8(String),
    /// A configured watch path could not be expanded.
    PathExpansion { path: String, detail: String },
    /// An event could not be handed to the processing loop.
    EventSend(String),
    /// A watch root could not be made absolute.
    AbsolutePath(String),
    /// An action matched but its command is empty after substitution;
    /// carries the substituted command and the affected path.
    EmptyCommand { event_kind: String, path: String },
}

} // verus!
