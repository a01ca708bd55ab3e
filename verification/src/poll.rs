//! The decisions of the main loop: what to do about the three sources it
//! waits on, once the wait has returned.

use vstd::prelude::*;

verus! {

/// Which of the three sources are ready after a wait.
#[derive(Clone, Copy, Debug, PartialEq, Eq, Structural)]
pub struct Readiness {
    /// The display server's socket.
    pub display: bool,
    /// The wake descriptor of the compositor bridge.
    pub bridge: bool,
    /// The self-pipe of the signal handlers.
    pub signals: bool,
}

/// One thing to do in an iteration of the main loop.
#[derive(Clone, Copy, Debug, PartialEq, Eq, Structural)]
pub enum LoopStep {
    /// Read the display server's events and dispatch them.
    ReadDisplay,
    /// Give up the prepared read: the display server sent nothing.
    CancelRead,
    /// Empty the wake descriptor, then handle every event in the channel.
    DrainBridge,
    /// Read the self-pipe and act on the signals.
    ReadSignals,
}

/// How flushing the outgoing messages ended.
#[derive(Clone, Copy, Debug, PartialEq, Eq, Structural)]
pub enum FlushOutcome {
    Flushed,
    /// The socket takes no more for now.
    WouldBlock,
    Failed,
}

/// What to do after a flush.
#[derive(Clone, Copy, Debug, PartialEq, Eq, Structural)]
pub enum FlushStep {
    /// Go on to the wait.
    Proceed,
    /// Wait until the socket can be written, then flush again.
    WaitWritable,
    /// Give up: the connection is broken.
    Abort,
}

/// How reading the display server's events ended.
#[derive(Clone, Copy, Debug, PartialEq, Eq, Structural)]
pub enum ReadOutcome {
    Read,
    /// Nothing was there to read: the wake was spurious.
    WouldBlock,
    Failed,
}

/// What to do after a read.
#[derive(Clone, Copy, Debug, PartialEq, Eq, Structural)]
pub enum ReadStep {
    /// Dispatch the events that were read.
    Dispatch,
    /// Nothing to do until the next iteration.
    Recheck,
    /// Give up: the connection is broken.
    Abort,
}

/// The steps of one iteration, in the order in which they are taken: the
/// display server first, then the bridge, then the signals.
pub open spec fn steps_for(ready: Readiness) -> Seq<LoopStep> {
    seq![if ready.display {
        LoopStep::ReadDisplay
    } else {
        LoopStep::CancelRead
    }] + if ready.bridge {
        seq![LoopStep::DrainBridge]
    } else {
        Seq::empty()
    } + if ready.signals {
        seq![LoopStep::ReadSignals]
    } else {
        Seq::empty()
    }
}

/// The steps of one iteration of the main loop: see [`steps_for`].
pub fn plan_iteration(ready: Readiness) -> (steps: Vec<LoopStep>)
    ensures
        steps@ == steps_for(ready),
{
    let mut steps: Vec<LoopStep> = Vec::new();
    if ready.display {
        steps.push(LoopStep::ReadDisplay);
    } else {
        steps.push(LoopStep::CancelRead);
    }
    if ready.bridge {
        steps.push(LoopStep::DrainBridge);
    }
    if ready.signals {
        steps.push(LoopStep::ReadSignals);
    }
    assert(steps@ =~= steps_for(ready));
    steps
}

/// A flush that would block is waited out; only a failure ends the loop.
pub fn after_flush(outcome: FlushOutcome) -> (step: FlushStep)
    ensures
        step == match outcome {
            FlushOutcome::Flushed => FlushStep::Proceed,
            FlushOutcome::WouldBlock => FlushStep::WaitWritable,
            FlushOutcome::Failed => FlushStep::Abort,
        },
{
    match outcome {
        FlushOutcome::Flushed => FlushStep::Proceed,
        FlushOutcome::WouldBlock => FlushStep::WaitWritable,
        FlushOutcome::Failed => FlushStep::Abort,
    }
}

/// A read that found nothing is no error; only a failure ends the loop.
pub fn after_read(outcome: ReadOutcome) -> (step: ReadStep)
    ensures
        step == match outcome {
            ReadOutcome::Read => ReadStep::Dispatch,
            ReadOutcome::WouldBlock => ReadStep::Recheck,
            ReadOutcome::Failed => ReadStep::Abort,
        },
{
    match outcome {
        ReadOutcome::Read => ReadStep::Dispatch,
        ReadOutcome::WouldBlock => ReadStep::Recheck,
        ReadOutcome::Failed => ReadStep::Abort,
    }
}

} // verus!
