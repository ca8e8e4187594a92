//! The server's command-line arguments.

use vstd::prelude::*;

verus! {

/// The arguments of the command line.
#[derive(Clone, Debug)]
pub struct Args {
    /// The directory to serve files from.
    pub path: String,
    /// The port to bind the server to.
    pub port: u16,
    /// Whether to print how to use the server and leave.
    pub docs: bool,
}

/// The arguments of a command line that gives none: the current directory,
/// port 8090, no documentation.
pub fn default_args() -> (args: Args)
    ensures
        args.path@ == "."@,
        args.port == 8090,
        !args.docs,
{
    Args { path: ".".to_owned(), port: 8090, docs: false }
}

} // verus!
