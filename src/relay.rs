//! The three operations of a frame transport over one peer's channels.
use vstd::prelude::*;
use crate::errors::Error;
use crate::frame::Frame;

verus! {

/// A transport that writes frames of type `T` to a peer and reads its data
/// and diagnostic channels.
pub trait Relay<T> {
    /// Writes the whole frame to the outbound channel.
    fn send(&mut self, frame: &mut T) -> Result<(), Error>;

    /// Reads the diagnostic channel to its end.
    fn receive_stderr(&mut self) -> Result<Vec<u8>, Error>;

    /// Reads one frame from the data channel.
    fn receive_stdout(&mut self) -> Result<Frame, Error>;
}

} // verus!
