//! The Media Foundation camera's decisions: one live stream, which delivers a sample for each request while it runs.
use vstd::prelude::*;

verus! {

/// What a call is refused with.
#[derive(Clone, Copy, Debug, PartialEq, Eq, Structural)]
pub enum MfRefusal {
    Shutdown,
    InvalidRequest,
    InvalidStateTransition,
    InvalidStreamNumber,
}

/// The states that a caller can ask for.
#[derive(Clone, Copy, Debug, PartialEq, Eq, Structural)]
pub enum StreamState {
    Stopped,
    Paused,
    Running,
}

/// The source and its stream.
#[derive(Clone, Copy, Debug, PartialEq, Eq, Structural)]
pub struct Source {
    pub shut: bool,
    pub running: bool,
    /// The thread that delivers samples is there.
    pub worker: bool,
}

/// Samples are asked for only while there is a thread to deliver them.
pub open spec fn wf(s: Source) -> bool {
    s.running ==> s.worker
}

/// The source once it delivers samples.
pub open spec fn started(s: Source) -> Source {
    Source { running: true, worker: true, ..s }
}

/// The source once it delivers none.
pub open spec fn stopped(s: Source) -> Source {
    Source { running: false, worker: false, ..s }
}

/// Samples can be asked for.
pub open spec fn delivers(s: Source) -> bool {
    s.running && s.worker
}

impl Source {
    pub fn new() -> (s: Source)
        ensures
            s == (Source { shut: false, running: false, worker: false }),
            wf(s),
    {
        Source { shut: false, running: false, worker: false }
    }

    /// Whether the source still answers.
    pub fn check(&self) -> (r: Result<(), MfRefusal>)
        ensures
            r == (if self.shut {
                Err::<(), MfRefusal>(MfRefusal::Shutdown)
            } else {
                Ok(())
            }),
    {
        if self.shut {
            Err(MfRefusal::Shutdown)
        } else {
            Ok(())
        }
    }

    /// Starts. True if the thread has to be made.
    pub fn start(&mut self) -> (r: Result<bool, MfRefusal>)
        requires
            wf(*old(self)),
        ensures
            r == (if old(self).shut {
                Err::<bool, MfRefusal>(MfRefusal::Shutdown)
            } else {
                Ok(!old(self).worker)
            }),
            *final(self) == (if old(self).shut {
                *old(self)
            } else {
                started(*old(self))
            }),
            wf(*final(self)),
    {
        if self.shut {
            return Err(MfRefusal::Shutdown);
        }
        let make = !self.worker;
        self.worker = true;
        self.running = true;
        Ok(make)
    }

    /// Stops. True if there is a thread to wait for.
    pub fn stop(&mut self) -> (r: Result<bool, MfRefusal>)
        requires
            wf(*old(self)),
        ensures
            r == (if old(self).shut {
                Err::<bool, MfRefusal>(MfRefusal::Shutdown)
            } else {
                Ok(old(self).worker)
            }),
            *final(self) == (if old(self).shut {
                *old(self)
            } else {
                stopped(*old(self))
            }),
            wf(*final(self)),
    {
        if self.shut {
            return Err(MfRefusal::Shutdown);
        }
        let join = self.worker;
        self.running = false;
        self.worker = false;
        Ok(join)
    }

    /// A live source cannot be paused.
    pub fn pause(&self) -> (r: Result<(), MfRefusal>)
        ensures
            r == Err::<(), MfRefusal>(MfRefusal::InvalidStateTransition),
    {
        Err(MfRefusal::InvalidStateTransition)
    }

    /// Ends for good. True the first time, when there is something to tear down.
    pub fn shutdown(&mut self) -> (first: bool)
        requires
            wf(*old(self)),
        ensures
            first == !old(self).shut,
            *final(self) == (if first {
                Source { shut: true, ..stopped(*old(self)) }
            } else {
                *old(self)
            }),
            wf(*final(self)),
    {
        let first = !self.shut;
        if first {
            self.shut = true;
            self.running = false;
            self.worker = false;
        }
        first
    }

    /// Whether a sample can be asked for.
    pub fn request_sample(&self) -> (r: Result<(), MfRefusal>)
        ensures
            r == (if delivers(*self) {
                Ok::<(), MfRefusal>(())
            } else {
                Err(MfRefusal::InvalidRequest)
            }),
    {
        if self.running && self.worker {
            Ok(())
        } else {
            Err(MfRefusal::InvalidRequest)
        }
    }

    /// Whether there is a stream of this number: there is one, number zero.
    pub fn stream(&self, id: u32) -> (r: Result<(), MfRefusal>)
        ensures
            r == (if self.shut {
                Err::<(), MfRefusal>(MfRefusal::Shutdown)
            } else if id != 0 {
                Err(MfRefusal::InvalidStreamNumber)
            } else {
                Ok(())
            }),
    {
        if self.shut {
            Err(MfRefusal::Shutdown)
        } else if id != 0 {
            Err(MfRefusal::InvalidStreamNumber)
        } else {
            Ok(())
        }
    }

    /// The stream is set to a state: it runs or it is stopped. True if a thread has to be made, or waited for.
    pub fn set_stream_state(&mut self, to: StreamState) -> (r: Result<bool, MfRefusal>)
        requires
            wf(*old(self)),
        ensures
            wf(*final(self)),
            match to {
                StreamState::Running => r == Ok::<bool, MfRefusal>(!old(self).worker) && *final(self) == started(
                    *old(self),
                ),
                StreamState::Stopped => r == Ok::<bool, MfRefusal>(old(self).worker) && *final(self) == stopped(
                    *old(self),
                ),
                StreamState::Paused => r == Err::<bool, MfRefusal>(MfRefusal::InvalidStateTransition) && *final(self)
                    == *old(self),
            },
    {
        match to {
            StreamState::Running => {
                let make = !self.worker;
                self.worker = true;
                self.running = true;
                Ok(make)
            },
            StreamState::Stopped => {
                let join = self.worker;
                self.running = false;
                self.worker = false;
                Ok(join)
            },
            StreamState::Paused => Err(MfRefusal::InvalidStateTransition),
        }
    }
}

/// Two numbers in one, the first in the high half, as media attributes hold sizes and ratios.
pub fn packed(high: u32, low: u32) -> (r: u64)
    ensures
        r == high * 0x1_0000_0000 + low,
{
    high as u64 * 0x1_0000_0000 + low as u64
}

/// The time between two samples in nanoseconds.
pub const SAMPLE_NS: u64 = 33_333_300;

/// When a sample that is requested at `now` is delivered: not before its turn.
pub open spec fn turn_of(next: u64, now: u64) -> int {
    if next > now {
        next as int
    } else {
        now as int
    }
}

/// How long a sample that is requested at `now` has to wait, and from when on the next one can be delivered: a period
/// later.
pub fn turn(next: u64, now: u64) -> (r: (u64, u64))
    requires
        next <= u64::MAX - SAMPLE_NS,
        now <= u64::MAX - SAMPLE_NS,
    ensures
        r.0 == turn_of(next, now) - now,
        r.1 == turn_of(next, now) + SAMPLE_NS,
{
    if next > now {
        (next - now, next + SAMPLE_NS)
    } else {
        (0, now + SAMPLE_NS)
    }
}

/// Two samples are at least a period apart, however soon the second is requested.
pub proof fn law_samples_are_paced(next: u64, now: u64, later: u64)
    requires
        turn_of(next, now) + SAMPLE_NS <= u64::MAX,
    ensures
        turn_of((turn_of(next, now) + SAMPLE_NS) as u64, later) - turn_of(next, now) >= SAMPLE_NS,
{
}

} // verus!
