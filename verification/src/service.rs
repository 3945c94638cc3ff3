//! Servicing the mesh for one pass of the main loop: listening with precise
//! times, and sending when the time of a packet falls near the slice.
use vstd::prelude::*;

use crate::mesh::{
    poll_outcome, Goal, Mesh, PollStep, Polled, Slice, SLICE_BUDGET_US, TX_WAIT_HORIZON_US,
};

verus! {

/// Where the servicing stands.
#[derive(Clone, Copy, Debug, PartialEq, Eq, Structural)]
pub enum Stage {
    /// The engine is asked what it wants.
    Planning,
    /// Packets are polled for up to a time; then the engine's packet is sent,
    /// where `send` says so, and else the servicing is over.
    Polling { until: u64, send: bool },
    /// The engine's packet is being sent.
    Sending,
    Over,
}

/// What is done next while packets are polled for.
#[derive(Clone, Copy, Debug, PartialEq, Eq, Structural)]
pub enum Errand {
    Poll,
    Send,
    Return,
}

/// The servicing of one slice.
pub struct Service {
    pub slice: Slice,
    pub stage: Stage,
}

/// Where the servicing stands once the engine said when it next sends: a packet
/// whose time is near is waited for, even past the end of the slice.
pub open spec fn planned(end: u64, now: u64, transmit_at: Option<u64>) -> Stage {
    match transmit_at {
        Some(at) => if at <= now + TX_WAIT_HORIZON_US {
            Stage::Polling { until: at, send: true }
        } else {
            Stage::Polling { until: end, send: false }
        },
        None => Stage::Polling { until: end, send: false },
    }
}

/// What is done at a time, while packets are polled for up to another.
pub open spec fn errand_at(until: u64, send: bool, now: u64) -> Errand {
    if now < until {
        Errand::Poll
    } else if send {
        Errand::Send
    } else {
        Errand::Return
    }
}

impl Service {
    /// Begins a slice.
    pub fn begin(now: u64) -> (r: Self)
        requires
            now + SLICE_BUDGET_US <= u64::MAX,
        ensures
            r.slice.end == now + SLICE_BUDGET_US,
            r.slice.stale,
            r.stage == Stage::Planning,
    {
        Service { slice: Slice::begin(now), stage: Stage::Planning }
    }

    /// Takes what the engine said: when it next sends.
    pub fn plan(&mut self, now: u64, transmit_at: Option<u64>)
        requires
            old(self).stage == Stage::Planning,
            now + TX_WAIT_HORIZON_US <= u64::MAX,
        ensures
            *final(self) == (Service {
                stage: planned(old(self).slice.end, now, transmit_at),
                ..*old(self)
            }),
    {
        self.stage = match self.slice.plan(now, transmit_at) {
            Goal::TransmitAt(at) => Stage::Polling { until: at, send: true },
            Goal::ListenUntil(end) => Stage::Polling { until: end, send: false },
        };
    }

    /// Takes the time before a poll.
    pub fn clock(&mut self, now: u64) -> (r: Errand)
        requires
            old(self).stage is Polling,
        ensures
            r == errand_at(old(self).stage->until, old(self).stage->send, now),
            *final(self) == (Service {
                stage: match r {
                    Errand::Poll => old(self).stage,
                    Errand::Send => Stage::Sending,
                    Errand::Return => Stage::Over,
                },
                ..*old(self)
            }),
    {
        match self.stage {
            Stage::Polling { until, send } => {
                if now < until {
                    Errand::Poll
                } else if send {
                    self.stage = Stage::Sending;
                    Errand::Send
                } else {
                    self.stage = Stage::Over;
                    Errand::Return
                }
            },
            _ => Errand::Return,
        }
    }

    /// Takes the outcome of a poll. A packet that reaches the engine may change
    /// what it wants, so that it is asked anew.
    pub fn poll(&mut self, mesh: &mut Mesh, polled: Polled) -> (r: PollStep)
        requires
            old(self).stage is Polling,
        ensures
            r == poll_outcome(old(self).slice.stale, polled),
            *final(self) == (Service {
                slice: Slice { stale: false, ..old(self).slice },
                stage: if r == PollStep::Feed {
                    Stage::Planning
                } else {
                    old(self).stage
                },
            }),
            *final(mesh) == old(mesh).after_poll(polled),
    {
        let step: PollStep = mesh.poll(&mut self.slice, polled);
        if step == PollStep::Feed {
            self.stage = Stage::Planning;
        }
        step
    }

    /// Takes the outcome of sending; `now` is the time once the radio listens
    /// again.
    pub fn sent(&mut self, mesh: &mut Mesh, ok: bool, now: u64)
        requires
            old(self).stage == Stage::Sending,
        ensures
            *final(self) == (Service {
                stage: if now >= old(self).slice.end {
                    Stage::Over
                } else {
                    Stage::Planning
                },
                ..*old(self)
            }),
            *final(mesh) == if ok {
                old(mesh).after_sending()
            } else {
                *old(mesh)
            },
    {
        if ok {
            mesh.transmitted();
        }
        self.stage = if self.slice.over(now) {
            Stage::Over
        } else {
            Stage::Planning
        };
    }
}

/// A packet is sent only once its time has come, and is waited for no longer
/// than the horizon; and while nothing is to be sent, a slice is over exactly
/// when its end has come.
pub proof fn law_packets_are_sent_in_their_time(
    end: u64,
    now: u64,
    transmit_at: Option<u64>,
    later: u64,
)
    ensures
        ({
            let stage = planned(end, now, transmit_at);
            let errand = errand_at(stage->until, stage->send, later);
            &&& stage is Polling
            &&& errand == Errand::Send ==> transmit_at is Some && transmit_at->0 <= later
                && transmit_at->0 <= now + TX_WAIT_HORIZON_US
            &&& transmit_at is None ==> (errand == Errand::Return <==> later >= end)
            &&& transmit_at is Some && transmit_at->0 <= now + TX_WAIT_HORIZON_US ==> (errand
                == Errand::Send <==> later >= transmit_at->0)
        }),
{
}

} // verus!
