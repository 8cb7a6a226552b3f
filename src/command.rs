use vstd::prelude::*;

verus! {

/// A command of the command-line front end: it runs, and reports what it did
/// in one message.
pub trait OpcCommand {
    /// Runs the command and returns the message to show.
    fn run(&self) -> String;

    /// How to use the command.
    fn help() -> String;
}

/// A command that reads its own arguments.
pub trait SuperOpcCommand: OpcCommand {
    /// `None` when `args` do not name this command; otherwise the command, or
    /// why its arguments do not fit.
    fn parse(args: Vec<String>) -> Option<Result<Self, String>> where Self: Sized;
}

} // verus!
