//! Validation of the command-line arguments: the remote host and the remote
//! path prefix, taken from the positional arguments.

use vstd::prelude::*;

use crate::bytes::copy_bytes;

verus! {

/// The watcher's configuration: where to push changed files.
pub struct Config {
    /// The remote host the transfer session connects to.
    pub host: Vec<u8>,
    /// The prefix prepended verbatim to each changed file's base name to form
    /// its remote path.
    pub remote_path: Vec<u8>,
}

/// Why the command line was rejected.
#[derive(Clone, Copy, PartialEq, Eq, Structural, Debug)]
pub enum ArgError {
    /// Fewer than the two required positional arguments were given.
    MissingArguments,
}

/// Validates the full argument vector, program name included.  Succeeds if
/// and only if at least two positional arguments follow the program name;
/// the first is the remote host, the second the remote path prefix.  On
/// failure the caller must not scan the directory nor spawn the transfer
/// session.
pub fn parse_args(args: &Vec<Vec<u8>>) -> (r: Result<Config, ArgError>)
    ensures
        args@.len() >= 3 ==> (r matches Ok(c) && c.host@ == args@[1]@ && c.remote_path@
            == args@[2]@),
        args@.len() < 3 ==> r == Err::<Config, ArgError>(ArgError::MissingArguments),
{
    if args.len() < 3 {
        Err(ArgError::MissingArguments)
    } else {
        Ok(Config { host: copy_bytes(&args[1]), remote_path: copy_bytes(&args[2]) })
    }
}

} // verus!
