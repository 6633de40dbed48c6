//! The per-invite retry state machine.
//!
//! One `RetryTask` exists per accepted invitation notification. Its owner
//! drives it: it performs a join attempt whenever the task is in
//! [`Phase::Attempting`], reports the outcome through
//! [`RetryTask::record_attempt`], sleeps for the returned delay, and reports
//! the elapsed timer through [`RetryTask::backoff_elapsed`], which doubles the
//! delay and decides between another attempt and abandonment.

use vstd::prelude::*;
use vstd::arithmetic::power2::pow2;
use vstd::arithmetic::power2::lemma2_to64;
use vstd::arithmetic::power2::lemma_pow2_strictly_increases;
use vstd::arithmetic::power2::lemma_pow2_unfold;
use crate::event::RoomHandle;

verus! {

/// Delay, in seconds, slept after the first failed join attempt.
pub const INITIAL_DELAY_SECONDS: u64 = 2;

/// Once the doubled delay exceeds this many seconds, the invite is abandoned.
pub const GIVE_UP_THRESHOLD_SECONDS: u64 = 3600;

/// Where a retry task stands. `Joined` and `GivenUp` are terminal: no
/// transition leaves them.
#[derive(Clone, Copy, Debug, PartialEq, Eq, Structural)]
pub enum Phase {
    /// A join attempt is due; its outcome goes to [`RetryTask::record_attempt`].
    Attempting,
    /// The task is sleeping; the elapsed timer goes to [`RetryTask::backoff_elapsed`].
    Backoff,
    /// A join attempt succeeded; the task is finished.
    Joined,
    /// The doubled delay crossed the threshold; the invite is abandoned.
    GivenUp,
}

/// What the owner of a retry task must do next.
#[derive(Clone, Copy, Debug, PartialEq, Eq, Structural)]
pub enum Directive {
    /// Emit the task's one success signal; the task is finished.
    ReportSuccess,
    /// Emit a failure signal and suspend the task alone for `seconds` seconds.
    SleepFor { seconds: u64 },
    /// The doubled delay is still within the threshold: attempt the join again.
    Retry,
    /// Emit the give-up signal; the invite is abandoned and the task is finished.
    ReportGiveUp,
}

/// The state a retry task owns. Nothing else reads or writes it: two tasks
/// never share state, so their runs cannot influence each other.
pub struct RetryTask {
    /// The room the invitation is for.
    pub room: RoomHandle,
    /// The delay the next failed attempt would sleep for, in seconds.
    pub delay_seconds: u64,
    /// How many join attempts have failed so far.
    pub attempt_count: u64,
    /// Where the task stands.
    pub phase: Phase,
}

impl RetryTask {
    /// The state a task is spawned in: a join attempt is due at once, and the
    /// first backoff, if any, lasts two seconds.
    pub open spec fn initial(room: RoomHandle) -> RetryTask {
        RetryTask {
            room,
            delay_seconds: INITIAL_DELAY_SECONDS,
            attempt_count: 0,
            phase: Phase::Attempting,
        }
    }

    /// The task's invariant. The delay is always the power of two that the
    /// doubling schedule dictates for the number of failures seen so far, and
    /// a live task's delay has not crossed the give-up threshold.
    pub open spec fn wf(self) -> bool {
        match self.phase {
            Phase::Attempting => {
                &&& self.delay_seconds == pow2((self.attempt_count + 1) as nat)
                &&& self.delay_seconds <= GIVE_UP_THRESHOLD_SECONDS
            },
            Phase::Backoff => {
                &&& self.attempt_count >= 1
                &&& self.delay_seconds == pow2(self.attempt_count as nat)
                &&& self.delay_seconds <= GIVE_UP_THRESHOLD_SECONDS
            },
            Phase::Joined => true,
            Phase::GivenUp => self.delay_seconds > GIVE_UP_THRESHOLD_SECONDS,
        }
    }

    /// Spawn a retry task for `room`.
    pub fn new(room: RoomHandle) -> (t: RetryTask)
        ensures
            t == RetryTask::initial(room),
            t.wf(),
    {
        proof {
            lemma2_to64();
        }
        RetryTask {
            room,
            delay_seconds: INITIAL_DELAY_SECONDS,
            attempt_count: 0,
            phase: Phase::Attempting,
        }
    }

    /// Digest the outcome of one join attempt. Success reaches the terminal
    /// `Joined` phase and asks for exactly one success signal. Failure counts
    /// the attempt and enters `Backoff`: the owner must sleep for the current,
    /// not yet doubled, delay.
    pub fn record_attempt(&mut self, success: bool) -> (d: Directive)
        requires
            old(self).phase is Attempting,
            old(self).wf(),
        ensures
            final(self).wf(),
            final(self).room == old(self).room,
            final(self).delay_seconds == old(self).delay_seconds,
            success ==> {
                &&& final(self).phase is Joined
                &&& final(self).attempt_count == old(self).attempt_count
                &&& d is ReportSuccess
            },
            !success ==> {
                &&& final(self).phase is Backoff
                &&& final(self).attempt_count == old(self).attempt_count + 1
                &&& d == (Directive::SleepFor { seconds: old(self).delay_seconds })
            },
    {
        if success {
            self.phase = Phase::Joined;
            Directive::ReportSuccess
        } else {
            proof {
                lemma_attempt_count_bounded(*self);
            }
            self.attempt_count = self.attempt_count + 1;
            self.phase = Phase::Backoff;
            Directive::SleepFor { seconds: self.delay_seconds }
        }
    }

    /// The backoff timer has elapsed: double the delay, then decide. A doubled
    /// delay beyond the threshold abandons the invite without sleeping for
    /// that doubled delay and without a further join attempt; otherwise the
    /// task returns to `Attempting` and another join attempt is due.
    pub fn backoff_elapsed(&mut self) -> (d: Directive)
        requires
            old(self).phase is Backoff,
            old(self).wf(),
        ensures
            final(self).wf(),
            final(self).room == old(self).room,
            final(self).attempt_count == old(self).attempt_count,
            final(self).delay_seconds == 2 * old(self).delay_seconds,
            2 * old(self).delay_seconds > GIVE_UP_THRESHOLD_SECONDS ==> {
                &&& final(self).phase is GivenUp
                &&& d is ReportGiveUp
            },
            2 * old(self).delay_seconds <= GIVE_UP_THRESHOLD_SECONDS ==> {
                &&& final(self).phase is Attempting
                &&& d is Retry
            },
    {
        proof {
            lemma_pow2_unfold((self.attempt_count + 1) as nat);
        }
        self.delay_seconds = self.delay_seconds * 2;
        if self.delay_seconds > GIVE_UP_THRESHOLD_SECONDS {
            self.phase = Phase::GivenUp;
            Directive::ReportGiveUp
        } else {
            self.phase = Phase::Attempting;
            Directive::Retry
        }
    }
}

/// A live task has failed at most eleven times: the twelfth doubling yields
/// 4096 seconds, which is already past the threshold.
proof fn lemma_attempt_count_bounded(t: RetryTask)
    requires
        t.wf(),
        t.phase is Attempting || t.phase is Backoff,
    ensures
        t.attempt_count <= 11,
{
    lemma2_to64();
    if t.attempt_count > 11 {
        let e = if t.phase is Attempting {
            (t.attempt_count + 1) as nat
        } else {
            t.attempt_count as nat
        };
        if e > 12 {
            lemma_pow2_strictly_increases(12, e);
        }
        assert(pow2(e) >= 4096);
        assert(false);
    }
}

} // verus!
