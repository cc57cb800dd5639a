//! One definition of what Tether does when a blocking call is interrupted by a
//! signal.
//!
//! A signal delivered while a thread is blocked in a read, a write, or a wait
//! reports no failure the caller can act on: the socket is still connected, the
//! child is still running, and the call simply has to be made again.
//!
//! A retry must not unbound a bounded wait. A relative timeout restarts on
//! every call, so a loop that retries an interrupted read without limit turns a
//! bounded wait into an unbounded one when signals keep arriving. [`Budget`]
//! carries the bound the call site already had. For a relative timeout the
//! retries continue for at most one further window, measured from the first
//! interruption. A spent bound means that the wait has elapsed.
//!
//! Times are nanoseconds of one monotonic clock.

use vstd::prelude::*;

verus! {

/// The bound an interruption retry must not exceed.
#[derive(Clone, Copy, Debug, PartialEq, Eq, Structural)]
pub enum Budget {
    /// There is no bound for a retry to preserve: the call cannot block at all,
    /// or it blocks with no deadline by design.
    Immediate,
    /// The call blocks under a relative timeout, which every retry restarts.
    /// Retries are allowed for one further window measured from the first
    /// interruption, rather than one fresh window per signal.
    Within(u64),
    /// The call sits inside a loop the caller has already bounded with an
    /// absolute deadline. Retries stop at that same deadline.
    Until(u64),
}

/// What follows an interruption.
#[derive(Clone, Copy, Debug, PartialEq, Eq, Structural)]
pub enum RetryStep {
    /// The call is made again.
    Again,
    /// The wait that the caller asked for has elapsed.
    TimedOut,
}

/// A call that may be interrupted, and how long it may still be made again.
#[derive(Clone, Copy, Debug, PartialEq, Eq, Structural)]
pub struct Retry {
    pub budget: Budget,
    /// The end of the one further window, once a signal has arrived.
    pub window_deadline: Option<u64>,
}

impl Retry {
    /// The time from which the call is not made again, if there is one, where a
    /// signal arrives now.
    pub open spec fn deadline(self, now: u64) -> Option<int> {
        match self.budget {
            Budget::Immediate => None,
            Budget::Within(window) => match self.window_deadline {
                Some(deadline) => Some(deadline as int),
                None => Some(now + window),
            },
            Budget::Until(deadline) => Some(deadline as int),
        }
    }

    /// The end of a window that would begin now can be told.
    pub open spec fn countable(self, now: u64) -> bool {
        match self.budget {
            Budget::Within(window) => self.window_deadline is Some || now + window <= u64::MAX,
            _ => true,
        }
    }

    /// The call behind an interruption.
    pub open spec fn interrupted_at(self, now: u64) -> Retry {
        match self.budget {
            Budget::Within(window) => Retry {
                window_deadline: Some(self.deadline(now)->0 as u64),
                ..self
            },
            _ => self,
        }
    }

    /// A call that has not been interrupted.
    pub fn new(budget: Budget) -> (retry: Self)
        ensures
            retry == (Retry { budget, window_deadline: None }),
    {
        Retry { budget, window_deadline: None }
    }

    /// Takes an interruption. The clock is read only once a signal has actually
    /// arrived, so an uninterrupted call pays nothing for the bound.
    pub fn retry_interrupted(&mut self, now: u64) -> (step: RetryStep)
        requires
            old(self).countable(now),
        ensures
            *final(self) == old(self).interrupted_at(now),
            step == match old(self).deadline(now) {
                None => RetryStep::Again,
                Some(deadline) => if now >= deadline {
                    RetryStep::TimedOut
                } else {
                    RetryStep::Again
                },
            },
    {
        let deadline: u64 = match self.budget {
            Budget::Immediate => {
                return RetryStep::Again;
            },
            Budget::Within(window) => match self.window_deadline {
                Some(deadline) => deadline,
                None => {
                    let deadline: u64 = now + window;
                    self.window_deadline = Some(deadline);
                    deadline
                },
            },
            Budget::Until(deadline) => deadline,
        };
        if now >= deadline {
            RetryStep::TimedOut
        } else {
            RetryStep::Again
        }
    }
}

/// What follows a buffer that was filled.
#[derive(Clone, Copy, Debug, PartialEq, Eq, Structural)]
pub enum FillStep {
    /// There is no more input. Filling again would issue a second read that
    /// could be interrupted outside the retry.
    EndOfInput,
    /// The buffered bytes are handed out.
    Buffered,
}

/// What follows a buffer that holds `available` bytes.
pub fn fill_buf(available: usize) -> (step: FillStep)
    ensures
        step == if available == 0 {
            FillStep::EndOfInput
        } else {
            FillStep::Buffered
        },
{
    if available == 0 {
        FillStep::EndOfInput
    } else {
        FillStep::Buffered
    }
}

/// A window is granted once, from the first interruption: however many signals
/// follow, the call is made again only before that window ends.
pub proof fn windows_do_not_restart(window: u64, first: u64, later: u64)
    requires
        first + window <= u64::MAX,
    ensures
        ({
            let retry = Retry { budget: Budget::Within(window), window_deadline: None };
            let once = retry.interrupted_at(first);
            &&& once.deadline(later) == Some(first + window)
            &&& once.interrupted_at(later) == once
        }),
{
}

} // verus!
