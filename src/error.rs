use vstd::prelude::*;

verus! {

/// Failures that stop the program before the interface is shown.
#[derive(Debug, Clone, Copy, PartialEq, Eq, Structural)]
pub enum InitError {
    NotEnoughArguments,
    InvalidConnectionSettings,
    CouldNotConnect,
    NoTerminal,
    Window,
    Threads,
}

impl InitError {
    /// The one-line summary shown to the user.
    pub fn message(&self) -> (r: &'static str)
        ensures
            r@ == "App could not start."@,
    {
        "App could not start."
    }
}

/// Failures while the interface runs.
#[derive(Debug, Clone, Copy, PartialEq, Eq, Structural)]
pub enum AppError {
    InitError,
    ChannelBroken,
    TerminalError,
    UserInput,
    StreamRead,
}

impl AppError {
    /// The one-line summary shown to the user.
    pub fn message(&self) -> (r: &'static str)
        ensures
            r@ == "Something went wrong."@,
    {
        "Something went wrong."
    }
}

} // verus!
