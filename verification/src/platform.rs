//! What the runtime of a session rests on: its timer and its queue of records.
use vstd::prelude::*;

verus! {

/// The timer of a session. Times are nanoseconds of a clock that never goes back.
#[derive(Clone, Copy, Debug)]
pub struct Timer {
    deadline: u64,
    armed: bool,
}

impl Timer {
    /// When the timer goes off, if it is set.
    pub closed spec fn spec_deadline(self) -> Option<u64> {
        if self.armed {
            Some(self.deadline)
        } else {
            None
        }
    }

    /// Whether the timer went off by this time.
    pub open spec fn went_off(self, now: u64) -> bool {
        self.spec_deadline() matches Some(deadline) && deadline <= now
    }

    /// A timer that is not set.
    pub fn new() -> (timer: Self)
        ensures
            timer.spec_deadline() is None,
    {
        Timer { deadline: 0, armed: false }
    }

    /// Sets the timer, or stops it. What the clock is to be set to is given back.
    pub fn set_deadline(&mut self, deadline: Option<u64>) -> (reset: Option<u64>)
        ensures
            final(self).spec_deadline() == deadline,
            reset == deadline,
    {
        self.armed = deadline.is_some();
        if let Some(deadline) = deadline {
            self.deadline = deadline;
        }
        deadline
    }

    /// Whether the timer went off by now; one that is not set never does.
    pub fn poll_wait(&self, now: u64) -> (done: bool)
        ensures
            done == self.went_off(now),
            done == (self.spec_deadline() matches Some(deadline) && deadline <= now),
    {
        self.armed && self.deadline <= now
    }
}

/// What a queue of records gives when it is asked.
#[derive(Debug)]
pub enum Inbound {
    /// A record.
    Ready(Vec<u8>),
    /// No record yet.
    Pending,
    /// No record any more.
    Closed,
}

impl Inbound {
    /// The record that the runtime gets. It keeps waiting on a queue that is closed: its
    /// session is ended from elsewhere.
    pub fn poll_recv(self) -> (record: Option<Vec<u8>>)
        ensures
            record == match self {
                Inbound::Ready(record) => Some(record),
                _ => None,
            },
    {
        match self {
            Inbound::Ready(record) => Some(record),
            Inbound::Pending | Inbound::Closed => None,
        }
    }
}

} // verus!
