use vstd::prelude::*;

verus! {

/// The error kinds surfaced across the profiler's public boundary.
#[derive(Clone, Copy, Debug, PartialEq, Eq, Structural)]
pub enum ProfError {
    /// `start` was called while a session is active.
    AlreadyStarted,
    /// `stop` was called while no session is active.
    NotStarted,
    /// The requested sampling frequency is not positive.
    InvalidArgument,
    /// The guest program image's container format could not be parsed.
    ImageParse,
    /// The image's debug records are malformed.
    DebugLoad,
    /// The image has no `.debug_frame` section.
    MissingDebugInfo,
    /// The tick handler could not be installed.
    HandlerInstall,
    /// The tick handler could not be removed.
    HandlerUninstall,
    /// The serialized artifact could not be written.
    Io,
}

impl ProfError {
    /// A short description, in place of a `Display` impl.
    pub fn describe(&self) -> (r: &'static str) {
        match self {
            ProfError::AlreadyStarted => "profiler already started",
            ProfError::NotStarted => "profiler not started",
            ProfError::InvalidArgument => "sampling frequency must be positive",
            ProfError::ImageParse => "object parsing error",
            ProfError::DebugLoad => "debug record loading error",
            ProfError::MissingDebugInfo => "missing .debug_frame section",
            ProfError::HandlerInstall => "tick handler install error",
            ProfError::HandlerUninstall => "tick handler uninstall error",
            ProfError::Io => "artifact write error",
        }
    }
}

} // verus!
