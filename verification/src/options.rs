use vstd::prelude::*;

use crate::engine::{Request, RequestView};
use crate::text::views;

verus! {

/// What the command line asks for.
#[derive(Clone, Debug)]
pub struct Opts {
    /// How often the verbosity flag was given.
    pub verbose: u64,
    /// The user to run the command as.
    pub user: String,
    /// Whether a login shell is wanted.
    pub login: bool,
    /// The command and its arguments.
    pub command: Vec<String>,
}

/// How much is logged.
#[derive(Clone, Copy, Debug, PartialEq, Eq, Structural)]
pub enum LogLevel {
    Warn,
    Info,
    Debug,
    Trace,
}

/// The level for a number of verbosity flags: warnings without one, one
/// level more for each of the first three.
pub open spec fn level_of(verbose: u64) -> LogLevel {
    if verbose == 0 {
        LogLevel::Warn
    } else if verbose == 1 {
        LogLevel::Info
    } else if verbose == 2 {
        LogLevel::Debug
    } else {
        LogLevel::Trace
    }
}

impl Opts {
    /// The level at which to log.
    pub fn log_level(&self) -> (r: LogLevel)
        ensures
            r == level_of(self.verbose),
    {
        match self.verbose {
            0 => LogLevel::Warn,
            1 => LogLevel::Info,
            2 => LogLevel::Debug,
            _ => LogLevel::Trace,
        }
    }

    /// The request that the command line makes, if it names a command.
    pub fn request(&self) -> (r: Option<Request>)
        ensures
            match r {
                Some(request) => self.command.len() > 0 && request@ == (RequestView {
                    target: self.user@,
                    executable: self.command[0]@,
                    arguments: views(self.command@).subrange(1, self.command.len() as int),
                }),
                None => self.command.len() == 0,
            },
    {
        Request::from_command(self.user.as_str(), &self.command)
    }
}

} // verus!
