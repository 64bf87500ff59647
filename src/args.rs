use vstd::prelude::*;

verus! {

/// The command line of the tool.
pub struct Args {
    /// How much to log: `DEBUG_ERROR`, `DEBUG_WARN` or `DEBUG_INFO` and up.
    pub verbose: u8,
    pub command: Commands,
    /// Use the runtime variant with developer tools.
    pub sdk: bool,
    /// Log to standard error instead of a log file.
    pub stderr: bool,
}

/// What the tool is asked to do.
pub enum Commands {
    /// Port the application in the directory, then run it.
    Run { path: String },
    /// Port and run an application that Steam launches, from the command line
    /// of Steam's launch chain.
    SteamRun { args: Vec<String> },
    /// Port the application in the directory.
    Port { path: String },
}

} // verus!
