//! Command-line arguments.
use vstd::prelude::*;

verus! {

/// The arguments of the command: the length of the password.
#[derive(Clone, Copy, Debug, PartialEq, Eq, Structural)]
pub struct Cli {
    /// Length of the password
    pub length: u32,
}

} // verus!
