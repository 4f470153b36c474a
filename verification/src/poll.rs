//! Waiting for something to become ready by looking again at fixed intervals, a bounded
//! number of times (the TPM socket, the guest's RDP service).
use vstd::prelude::*;

verus! {

/// How many times the TPM emulator's socket is looked for, 100 ms apart.
pub const TPM_SOCKET_LOOKS: u32 = 20;

/// How many times the guest's RDP service is tried, a second apart.
pub const RDP_PROBES: u32 = 30;

/// What to do after a look.
#[derive(Debug, Clone, Copy, PartialEq, Eq, Structural)]
pub enum PollStep {
    /// The thing is ready.
    Ready,
    /// Wait, then look again.
    WaitAndRetry,
    /// Wait, then give up: the last look has been made.
    WaitAndGiveUp,
}

/// The step after the look numbered `done + 1` of at most `limit`, which found the thing
/// `ready` or not.
pub open spec fn poll_next(done: u32, limit: u32, ready: bool) -> PollStep {
    if ready {
        PollStep::Ready
    } else if done + 1 < limit {
        PollStep::WaitAndRetry
    } else {
        PollStep::WaitAndGiveUp
    }
}

pub fn poll_step(done: u32, limit: u32, ready: bool) -> (r: PollStep)
    ensures
        r == poll_next(done, limit, ready),
{
    if ready {
        PollStep::Ready
    } else if done < limit && limit - done > 1 {
        PollStep::WaitAndRetry
    } else {
        PollStep::WaitAndGiveUp
    }
}

/// A wait that starts with no looks made and retries only when told to never looks
/// more than `limit` times: a retry is possible only while fewer than `limit - 1`
/// looks are done.
pub proof fn lemma_poll_bounded(done: u32, limit: u32, ready: bool)
    requires
        poll_next(done, limit, ready) == PollStep::WaitAndRetry,
    ensures
        done + 2 <= limit,
{
}

} // verus!
