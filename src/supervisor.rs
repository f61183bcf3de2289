//! Decisions of the supervisor that keeps the device pipeline alive.
//!
//! The pipeline has three stages: open and grab the physical device, create
//! the virtual device, run the event loop. The caller performs the current
//! stage and reports whether it succeeded; the supervisor answers with the
//! next action. A failed stage is retried after a fixed wait, without limit;
//! a failed event loop tears the pipeline down and starts over.
use vstd::prelude::*;

verus! {

/// Seconds to wait before a retry when none is configured.
pub const DEFAULT_RETRY_SECONDS: u64 = 10;

#[derive(Clone, Copy, Debug, PartialEq, Eq, Structural)]
pub enum Stage {
    OpenDevice,
    CreateVirtual,
    Running,
}

impl Stage {
    /// The name under which a failure of this stage is reported.
    pub fn label(&self) -> (r: &'static str)
        ensures
            r@ == match *self {
                Stage::OpenDevice => "Creating input device"@,
                Stage::CreateVirtual => "Creating virtual device"@,
                Stage::Running => "Event loop"@,
            },
    {
        match self {
            Stage::OpenDevice => "Creating input device",
            Stage::CreateVirtual => "Creating virtual device",
            Stage::Running => "Event loop",
        }
    }
}

#[derive(Clone, Copy, Debug, PartialEq, Eq, Structural)]
pub enum Action {
    /// Go on at once with the next stage.
    Proceed,
    /// Both devices are ready: print the configuration summary, grab the
    /// physical device and run the event loop.
    Announce,
    /// Report that `stage` failed, wait `seconds`, then attempt it again.
    Retry { stage: Stage, seconds: u64 },
    /// Report that the event loop failed, release both devices, wait
    /// `seconds`, then start over by opening the physical device.
    Restart { seconds: u64 },
}

/// The stage after `stage` ended with `ok`, and the action to take.
pub open spec fn transition(stage: Stage, seconds: u64, ok: bool) -> (Stage, Action) {
    match stage {
        Stage::OpenDevice => if ok {
            (Stage::CreateVirtual, Action::Proceed)
        } else {
            (Stage::OpenDevice, Action::Retry { stage: Stage::OpenDevice, seconds })
        },
        Stage::CreateVirtual => if ok {
            (Stage::Running, Action::Announce)
        } else {
            (Stage::CreateVirtual, Action::Retry { stage: Stage::CreateVirtual, seconds })
        },
        Stage::Running => if ok {
            (Stage::Running, Action::Proceed)
        } else {
            (Stage::OpenDevice, Action::Restart { seconds })
        },
    }
}

/// The state of the supervisor: the stage to perform next.
pub struct Supervisor {
    pub stage: Stage,
    pub retry_seconds: u64,
}

impl Supervisor {
    /// A supervisor that starts by opening the physical device.
    pub fn new(retry_seconds: u64) -> (r: Supervisor)
        ensures
            r.stage == Stage::OpenDevice,
            r.retry_seconds == retry_seconds,
    {
        Supervisor { stage: Stage::OpenDevice, retry_seconds }
    }

    /// Records how the current stage ended and returns what to do next.
    pub fn on_result(&mut self, ok: bool) -> (action: Action)
        ensures
            final(self).retry_seconds == old(self).retry_seconds,
            (final(self).stage, action) == transition(
                old(self).stage,
                old(self).retry_seconds,
                ok,
            ),
    {
        let seconds = self.retry_seconds;
        let (stage, action) = match self.stage {
            Stage::OpenDevice => if ok {
                (Stage::CreateVirtual, Action::Proceed)
            } else {
                (Stage::OpenDevice, Action::Retry { stage: Stage::OpenDevice, seconds })
            },
            Stage::CreateVirtual => if ok {
                (Stage::Running, Action::Announce)
            } else {
                (Stage::CreateVirtual, Action::Retry { stage: Stage::CreateVirtual, seconds })
            },
            Stage::Running => if ok {
                (Stage::Running, Action::Proceed)
            } else {
                (Stage::OpenDevice, Action::Restart { seconds })
            },
        };
        self.stage = stage;
        action
    }
}

} // verus!
