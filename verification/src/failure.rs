//! Classification of which peer caused a relay task to abort.

use vstd::prelude::*;

verus! {

/// Which client has caused the error in the relay loop.
///
/// A failed task invocation produces exactly one of these values; the driver
/// consumes it to decide which side(s) to reconnect before resuming the task.
#[derive(Clone, Copy, Debug, PartialEq, Eq, Structural)]
pub enum FailedClient {
    /// The source client has caused the error.
    Source,
    /// The target client has caused the error.
    Target,
    /// Both clients have caused the error.
    Both,
}

/// True when the failure implicates the source peer, so the driver must
/// reconnect the source before resuming the task.
pub open spec fn implicates_source(fc: FailedClient) -> bool {
    fc == FailedClient::Source || fc == FailedClient::Both
}

/// True when the failure implicates the target peer, so the driver must
/// reconnect the target before resuming the task.
pub open spec fn implicates_target(fc: FailedClient) -> bool {
    fc == FailedClient::Target || fc == FailedClient::Both
}

/// An error that can self-report whether it indicates a dead connection.
///
/// In this design the capability is diagnostic: every reconnect error is
/// retried identically, whatever this method returns.
pub trait MaybeConnectionError {
    /// Returns true when the error is caused by the connection itself.
    fn is_connection_error(&self) -> bool;
}

} // verus!
