//! Shutdown signals that cancel expensive generation work.
use vstd::prelude::*;

verus! {

/// A signal asking the program to stop.
#[derive(Clone, Copy, Debug, PartialEq, Eq, Structural)]
pub enum ShutdownSignal {
    CtrlC,
    Sigterm,
}

impl ShutdownSignal {
    /// The name used in logs.
    pub fn name(self) -> (s: &'static str)
        ensures
            s@ == match self {
                ShutdownSignal::CtrlC => "ctrl_c"@,
                ShutdownSignal::Sigterm => "sigterm"@,
            },
    {
        match self {
            ShutdownSignal::CtrlC => "ctrl_c",
            ShutdownSignal::Sigterm => "sigterm",
        }
    }
}

/// What to do when a shutdown signal arrives.
pub enum ShutdownAction {
    /// Cancel running work gracefully.
    Cancel,
    /// Exit at once with the given status.
    Exit(i32),
}

/// The first signal cancels running work; any further signal exits with
/// status 130 because the user insisted.
pub fn on_shutdown_signal(signals_seen_before: u32) -> (a: ShutdownAction)
    ensures
        signals_seen_before == 0 ==> a is Cancel,
        signals_seen_before > 0 ==> a == ShutdownAction::Exit(130),
{
    if signals_seen_before == 0 {
        ShutdownAction::Cancel
    } else {
        ShutdownAction::Exit(130)
    }
}

} // verus!
