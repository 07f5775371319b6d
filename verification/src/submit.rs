//! Submitting a signed transaction and waiting for its confirmation. Sending
//! and waiting are the caller's part; what to do next is decided here. The
//! only retry is to send the same bytes again.

use crate::error::Error;
use vstd::prelude::*;

verus! {

/// How a submission ended.
#[derive(Debug, Clone, PartialEq, Eq)]
pub enum Outcome {
    /// The network confirmed the transaction.
    Confirmed,
    /// No confirmation was seen in time. The transaction may still land: ask
    /// again later.
    TimedOutUnconfirmed,
    /// The network refused the transaction, for the reason it gave.
    Rejected(String),
}

impl Outcome {
    /// The outcome as success or failure: only a confirmation is success. An
    /// unconfirmed transaction is not known to have failed.
    pub fn into_result(self) -> (r: Result<(), Error>)
        ensures
            r == match self {
                Outcome::Confirmed => Ok::<(), Error>(()),
                Outcome::TimedOutUnconfirmed => Err::<(), Error>(Error::TimedOutUnconfirmed),
                Outcome::Rejected(reason) => Err::<(), Error>(Error::Rejected(reason)),
            },
    {
        match self {
            Outcome::Confirmed => Ok(()),
            Outcome::TimedOutUnconfirmed => Err(Error::TimedOutUnconfirmed),
            Outcome::Rejected(reason) => Err(Error::Rejected(reason)),
        }
    }
}

/// How long to wait, in milliseconds: the first wait, the longest single wait,
/// and the time after which to give up.
#[derive(Debug, Clone, Copy, PartialEq, Eq)]
pub struct Policy {
    pub first_wait: u64,
    pub longest_wait: u64,
    pub timeout: u64,
}

/// Where a submission stands.
#[derive(Debug, Clone, Copy, PartialEq, Eq)]
pub enum Phase {
    Ready,
    Waiting,
    Finished,
}

/// What the caller saw since the last action.
#[derive(Debug, Clone, PartialEq, Eq)]
pub enum Event {
    /// Nothing yet: the caller is about to begin.
    Begin,
    /// The transaction is confirmed.
    Confirmed,
    /// The network refused the transaction.
    Refused(String),
    /// The network does not know the transaction, or did not answer.
    Unknown,
}

/// What the caller is to do.
#[derive(Debug, Clone, PartialEq, Eq)]
pub enum Action {
    /// Wait `after` milliseconds, send the transaction's bytes, ask for its
    /// status, and report what was seen.
    Send { after: u64 },
    /// Stop: this is the outcome.
    Finish(Outcome),
    /// The submission has ended before; nothing is left to do.
    Stop,
}

/// The state of one submission.
#[derive(Debug, Clone, Copy, PartialEq, Eq)]
pub struct Submission {
    pub phase: Phase,
    /// The milliseconds waited so far.
    pub waited: u64,
    /// The next wait.
    pub wait: u64,
    /// The longest single wait.
    pub longest_wait: u64,
    /// The time after which to give up.
    pub timeout: u64,
}

/// Twice `wait`, but no more than `longest`.
pub open spec fn longer_wait(wait: u64, longest: u64) -> u64 {
    if 2 * wait >= longest {
        longest
    } else {
        (2 * wait) as u64
    }
}

impl Submission {
    /// Whether the waits are within their bounds: each at least one
    /// millisecond and at most the longest, and never beyond the timeout in
    /// sum.
    pub open spec fn well_formed(self) -> bool {
        1 <= self.wait <= self.longest_wait && self.waited <= self.timeout
    }

    /// A submission that has not begun. A first wait of nothing counts as one
    /// millisecond, and the longest wait is at least the first.
    pub fn new(policy: Policy) -> (r: Submission)
        ensures
            r.phase == Phase::Ready,
            r.waited == 0,
            r.wait == if policy.first_wait == 0 {
                1
            } else {
                policy.first_wait
            },
            r.longest_wait == if policy.longest_wait < r.wait {
                r.wait
            } else {
                policy.longest_wait
            },
            r.timeout == policy.timeout,
            r.well_formed(),
    {
        let wait = if policy.first_wait == 0 {
            1
        } else {
            policy.first_wait
        };
        let longest_wait = if policy.longest_wait < wait {
            wait
        } else {
            policy.longest_wait
        };
        Submission { phase: Phase::Ready, waited: 0, wait, longest_wait, timeout: policy.timeout }
    }

    /// The state after `event`, and what to do then. A submission begins by
    /// sending. While it waits, a confirmation or a refusal ends it; an
    /// unknown status sends the same bytes again after the next wait, which
    /// doubles up to the longest, unless that wait would pass the timeout:
    /// then it ends unconfirmed. An ended submission stays ended.
    pub open spec fn next(self, event: Event) -> (Submission, Action) {
        match self.phase {
            Phase::Finished => (self, Action::Stop),
            Phase::Ready => (Submission { phase: Phase::Waiting, ..self }, Action::Send { after: 0 }),
            Phase::Waiting => match event {
                Event::Confirmed => (
                    Submission { phase: Phase::Finished, ..self },
                    Action::Finish(Outcome::Confirmed),
                ),
                Event::Refused(reason) => (
                    Submission { phase: Phase::Finished, ..self },
                    Action::Finish(Outcome::Rejected(reason)),
                ),
                _ => if self.waited + self.wait > self.timeout {
                    (
                        Submission { phase: Phase::Finished, ..self },
                        Action::Finish(Outcome::TimedOutUnconfirmed),
                    )
                } else {
                    (
                        Submission {
                            waited: (self.waited + self.wait) as u64,
                            wait: longer_wait(self.wait, self.longest_wait),
                            ..self
                        },
                        Action::Send { after: self.wait },
                    )
                },
            },
        }
    }

    /// Takes `event` in and says what to do.
    pub fn step(&mut self, event: Event) -> (r: Action)
        ensures
            (*final(self), r) == old(self).next(event),
    {
        match self.phase {
            Phase::Finished => Action::Stop,
            Phase::Ready => {
                self.phase = Phase::Waiting;
                Action::Send { after: 0 }
            },
            Phase::Waiting => match event {
                Event::Confirmed => {
                    self.phase = Phase::Finished;
                    Action::Finish(Outcome::Confirmed)
                },
                Event::Refused(reason) => {
                    self.phase = Phase::Finished;
                    Action::Finish(Outcome::Rejected(reason))
                },
                _ => {
                    if self.wait > self.timeout || self.waited > self.timeout - self.wait {
                        self.phase = Phase::Finished;
                        Action::Finish(Outcome::TimedOutUnconfirmed)
                    } else {
                        let after = self.wait;
                        self.waited = self.waited + after;
                        self.wait = if after >= self.longest_wait || after >= self.longest_wait - after {
                            self.longest_wait
                        } else {
                            2 * after
                        };
                        Action::Send { after }
                    }
                },
            },
        }
    }
}

/// Waits stay within their bounds.
pub proof fn lemma_submission_stays_bounded(submission: Submission, event: Event)
    requires
        submission.well_formed(),
    ensures
        submission.next(event).0.well_formed(),
        submission.next(event).1 matches Action::Send { after } ==> after <= submission.longest_wait,
        submission.next(event).0.longest_wait == submission.longest_wait,
        submission.next(event).0.timeout == submission.timeout,
{
}

/// While a submission waits, each action either ends it or uses up at least
/// one millisecond of what is left until the timeout: it cannot go on forever.
pub proof fn lemma_submission_ends(submission: Submission, event: Event)
    requires
        submission.well_formed(),
        submission.phase == Phase::Waiting,
    ensures
        submission.next(event).0.phase == Phase::Finished || (submission.next(event).0.phase
            == Phase::Waiting && submission.timeout - submission.next(event).0.waited
            < submission.timeout - submission.waited),
{
}

/// What the network said is passed on as it came: a refusal ends the
/// submission with its reason, a confirmation with `Confirmed`.
pub proof fn lemma_network_verdict_is_final(submission: Submission, reason: String)
    requires
        submission.phase == Phase::Waiting,
    ensures
        submission.next(Event::Refused(reason)).1 == Action::Finish(Outcome::Rejected(reason)),
        submission.next(Event::Confirmed).1 == Action::Finish(Outcome::Confirmed),
        submission.next(Event::Refused(reason)).0.phase == Phase::Finished,
        submission.next(Event::Confirmed).0.phase == Phase::Finished,
{
}

} // verus!
