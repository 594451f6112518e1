//! The commands that the control layer sends.
use vstd::prelude::*;

verus! {

/// Asks the peer for its process id, reporting the sender's own.
pub struct PidCommand {
    pub pid: u32,
}

impl PidCommand {
    /// The command reporting process id `pid`.
    pub fn new(pid: u32) -> (r: Self)
        ensures
            r.pid == pid,
    {
        PidCommand { pid }
    }
}

} // verus!
