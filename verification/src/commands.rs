use vstd::prelude::*;

use crate::library::TrackId;
use crate::queue::LoopMode;

verus! {

/// A request a client makes about the play queue.
#[derive(Debug, Clone, Copy)]
pub enum QueueCommand {
    Enqueue { track_id: TrackId },
    Prepend { track_id: TrackId },
    Dequeue { index: usize },
    PlayNow { track_id: TrackId },
    Next,
    Prev,
    Shuffle,
    Clear,
    SetLoopMode(LoopMode),
    Fetch,
}

/// A request a client makes about the library.
#[derive(Debug, Clone, Copy)]
pub enum LibraryCommand {
    Fetch,
}

/// An event the daemon raises for itself.
#[derive(Debug, Clone)]
pub enum InternalEvent {
    TrackEnded,
}

/// The daemon's command line.
pub struct Cli {
    pub command: CliCommand,
}

/// What the daemon is asked to do.
pub enum CliCommand {
    /// Start the daemon in the background.
    Start(StartArgs),
    /// Stop the running daemon.
    Stop,
    /// Run the daemon (what a background start executes).
    Run(StartArgs),
    /// Start in the foreground.
    Foreground(StartArgs),
}

/// Options of a start.
pub struct StartArgs {
    pub listen: bool,
}

} // verus!
