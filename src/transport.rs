use vstd::prelude::*;

verus! {

/// Capacity of the buffer that one read fills.
pub const READ_CAPACITY: usize = 1024;

/// Failures of the channel to the host.
#[derive(Clone, Copy, Debug, PartialEq, Eq, Structural)]
pub enum TransportError {
    /// The endpoint could not be resolved or connected to.
    Connection,
    /// A send or a receive failed.
    Io,
    /// The channel was released.
    Disconnected,
}

/// The receiving side of a channel to the host.
pub trait ReadEvent {
    /// Performs exactly one read into `buffer`, and returns how many bytes it
    /// filled and the descriptors that rode with it.
    fn read_event(&mut self, buffer: &mut [u8]) -> Result<(usize, Vec<i32>), TransportError>;
}

/// A channel to the host that carries framed messages and descriptors.
/// Sends from several threads must be serialized by the caller.
pub trait WaylandSocket: ReadEvent {
    /// Sends one framed message, with `fds` as ancillary rights data.
    fn send(&mut self, buffer: &[u8], fds: &[i32]) -> Result<(), TransportError>;

    /// Releases the channel; later operations fail with `Disconnected`.
    fn disconnect(&mut self);
}

} // verus!
