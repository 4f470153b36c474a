//! Handing signals to the kernel, with a record of what was handed over.
use vstd::prelude::*;
use crate::process::StopSignal;
use nix::sys::signal::kill;
use nix::unistd::Pid;

verus! {

/// What one call of `kill(2)` was given and how the kernel answered. Only this module
/// makes one, so a record always tells the signal that was really handed to the kernel.
pub struct Delivery {
    signal: Option<StopSignal>,
    accepted: bool,
}

impl Delivery {
    /// The signal handed to the kernel: `None` for the null signal, which only asks
    /// whether the process exists and may be signalled.
    pub closed spec fn signal_sent(&self) -> Option<StopSignal> {
        self.signal
    }

    /// Whether the kernel accepted the call.
    pub closed spec fn was_accepted(&self) -> bool {
        self.accepted
    }

    /// The signal handed to the kernel.
    pub fn signal(&self) -> (r: Option<StopSignal>)
        ensures
            r == self.signal_sent(),
    {
        self.signal
    }

    /// Whether the kernel accepted the call.
    pub fn accepted(&self) -> (r: bool)
        ensures
            r == self.was_accepted(),
    {
        self.accepted
    }
}

/// Calls `nix::sys::signal::kill` on the process `pid`: with `SIGTERM` for
/// [`StopSignal::Terminate`], `SIGKILL` for [`StopSignal::Kill`], or with no signal,
/// which only asks whether the process exists and may be signalled. The record it
/// returns holds `sig` as given and whether `kill` returned `Ok`. Nothing is stated of
/// that answer: it depends on the processes of the machine at the time of the call.
#[verifier::external_body]
pub(crate) fn kill_process(pid: i32, sig: Option<StopSignal>) -> (r: Delivery)
    ensures
        r.signal_sent() == sig,
{
    let s = match sig {
        Some(StopSignal::Terminate) => Some(nix::sys::signal::Signal::SIGTERM),
        Some(StopSignal::Kill) => Some(nix::sys::signal::Signal::SIGKILL),
        None => None,
    };
    Delivery { signal: sig, accepted: kill(Pid::from_raw(pid), s).is_ok() }
}

} // verus!
