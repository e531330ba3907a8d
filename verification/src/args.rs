use vstd::prelude::*;

verus! {

/// The parsed command line: an optional subcommand. The surrounding
/// application parses the real command line into this shape.
pub struct Args {
    pub command: Option<Command>,
}

/// The tool's subcommands.
pub enum Command {
    Start { comment: Option<String> },
    Stop {},
    Status {},
    Info {},
}

} // verus!
