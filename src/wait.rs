use vstd::prelude::*;

use crate::notification::{done_payload, is_done};
use crate::span::Span;

verus! {

/// Why a wait ended without the notification.
#[derive(Clone, Copy, Debug, PartialEq, Eq, Structural)]
pub enum WaitError {
    /// The timeout elapsed before a valid notification arrived.
    TimedOut,
    /// A connection delivered something other than the notification.
    WrongNotification,
    /// Accepting or reading a connection failed other than by finding
    /// nothing pending.
    Io,
}

/// What one attempt to accept a connection found.
#[derive(Debug)]
pub enum Poll {
    /// No connection was pending.
    Idle,
    /// A connection was accepted and read to its end; `elapsed` is the time
    /// since the wait started, measured once the reading was done.
    Received { payload: Vec<u8>, elapsed: Span },
    /// Accepting or reading failed other than by finding nothing pending.
    Failed,
}

/// What the waiting side must do next.
#[derive(Clone, Copy, Debug, PartialEq, Eq, Structural)]
pub enum Action {
    /// Try to accept one pending connection, without blocking.
    Accept,
    /// Sleep for the span given, then read the clock again.
    Sleep(Span),
    /// The notification arrived: the wait is over after the span given.
    Done(Span),
    /// The wait is over without the notification, for the reason given.
    Fail(WaitError),
}

/// Where a wait stands.
#[derive(Clone, Copy, Debug, PartialEq, Eq, Structural)]
pub enum Phase {
    /// The time since the start is to be read and held against the timeout.
    ReadClock,
    /// One attempt to accept a connection is to be made.
    Accepting,
    /// The wait has ended; nothing more is done.
    Finished,
}

/// The pause between two attempts to accept, one millisecond, so that the
/// loop does not spin.
pub open spec fn poll_interval() -> Span {
    Span { secs: 0, nanos: 1_000_000 }
}

/// What follows a reading of the clock: keep polling while strictly less
/// than `timeout` has elapsed, else time out.
pub open spec fn clock_action(timeout: Span, elapsed: Span) -> Action {
    if elapsed.total_nanos() < timeout.total_nanos() {
        Action::Accept
    } else {
        Action::Fail((WaitError::TimedOut))
    }
}

/// What follows an attempt to accept: nothing pending means a short sleep;
/// a connection ends the wait at once, with success only if it carried
/// exactly the notification; a failure ends it too.
pub open spec fn poll_action(poll: Poll) -> Action {
    match poll {
        Poll::Idle => Action::Sleep(poll_interval()),
        Poll::Received { payload, elapsed } => {
            if payload@ == done_payload() {
                Action::Done((elapsed))
            } else {
                Action::Fail((WaitError::WrongNotification))
            }
        },
        Poll::Failed => Action::Fail((WaitError::Io)),
    }
}

/// The phase that an action leads to.
pub open spec fn phase_after(action: Action) -> Phase {
    match action {
        Action::Accept => Phase::Accepting,
        Action::Sleep(_) => Phase::ReadClock,
        Action::Done(_) => Phase::Finished,
        Action::Fail(_) => Phase::Finished,
    }
}

/// One pass of the wait loop: the clock reading taken at its top, and what
/// the attempt to accept found if one was made.
pub struct Round {
    pub clock: Span,
    pub poll: Poll,
}

/// How a wait with `timeout` ends when its passes observe `rounds` in turn,
/// or `None` while those passes leave it undecided.
pub open spec fn outcome(timeout: Span, rounds: Seq<Round>) -> Option<Result<Span, WaitError>>
    decreases rounds.len(),
{
    if rounds.len() == 0 {
        None
    } else {
        match clock_action(timeout, rounds[0].clock) {
            Action::Fail(e) => Some(Err(e)),
            _ => match poll_action(rounds[0].poll) {
                Action::Done(waited) => Some(Ok(waited)),
                Action::Fail(e) => Some(Err(e)),
                _ => outcome(timeout, rounds.drop_first()),
            },
        }
    }
}

/// The waiting side's state: its timeout and where it stands.
pub struct Waiter {
    timeout: Span,
    phase: Phase,
}

impl Waiter {
    /// The timeout the wait was started with.
    pub closed spec fn timeout_spec(&self) -> Span {
        self.timeout
    }

    /// Where the wait stands.
    pub closed spec fn phase_spec(&self) -> Phase {
        self.phase
    }

    /// A wait that has just started and first reads the clock.
    pub fn new(timeout: Span) -> (r: Waiter)
        requires
            timeout.wf(),
        ensures
            r.timeout_spec() == timeout,
            r.phase_spec() == Phase::ReadClock,
    {
        Waiter { timeout, phase: Phase::ReadClock }
    }

    /// The timeout the wait was started with.
    pub fn timeout(&self) -> (r: Span)
        ensures
            r == self.timeout_spec(),
    {
        self.timeout
    }

    /// Where the wait stands.
    pub fn phase(&self) -> (r: Phase)
        ensures
            r == self.phase_spec(),
    {
        self.phase
    }

    /// Takes the time elapsed since the start and says whether to attempt an
    /// accept or to give up.
    pub fn on_clock(&mut self, elapsed: Span) -> (a: Action)
        requires
            old(self).phase_spec() == Phase::ReadClock,
            old(self).timeout_spec().wf(),
            elapsed.wf(),
        ensures
            a == clock_action(old(self).timeout_spec(), elapsed),
            final(self).phase_spec() == phase_after(a),
            final(self).timeout_spec() == old(self).timeout_spec(),
    {
        if elapsed.is_shorter_than(&self.timeout) {
            self.phase = Phase::Accepting;
            Action::Accept
        } else {
            self.phase = Phase::Finished;
            Action::Fail((WaitError::TimedOut))
        }
    }

    /// Takes what an attempt to accept found and says whether to sleep
    /// before the next pass or how the wait ended.
    pub fn on_poll(&mut self, poll: Poll) -> (a: Action)
        requires
            old(self).phase_spec() == Phase::Accepting,
        ensures
            a == poll_action(poll),
            final(self).phase_spec() == phase_after(a),
            final(self).timeout_spec() == old(self).timeout_spec(),
    {
        let a = match poll {
            Poll::Idle => Action::Sleep(Span::from_millis(1)),
            Poll::Received { payload, elapsed } => {
                if is_done(payload.as_slice()) {
                    Action::Done((elapsed))
                } else {
                    Action::Fail((WaitError::WrongNotification))
                }
            },
            Poll::Failed => Action::Fail((WaitError::Io)),
        };
        self.phase = match a {
            Action::Accept => Phase::Accepting,
            Action::Sleep(_) => Phase::ReadClock,
            Action::Done(_) => Phase::Finished,
        Action::Fail(_) => Phase::Finished,
        };
        a
    }
}

/// Runs a wait with `timeout` over passes that observe `rounds` in turn, and
/// gives how it ended, or `None` if the passes ran out first.
pub fn replay(timeout: Span, rounds: Vec<Round>) -> (r: Option<Result<Span, WaitError>>)
    requires
        timeout.wf(),
        forall|i: int| 0 <= i < rounds@.len() ==> (#[trigger] rounds@[i]).clock.wf(),
    ensures
        r == outcome(timeout, rounds@),
{
    let mut waiter = Waiter::new(timeout);
    let mut rest = rounds;
    while rest.len() > 0
        invariant
            timeout.wf(),
            waiter.timeout_spec() == timeout,
            waiter.phase_spec() == Phase::ReadClock,
            forall|i: int| 0 <= i < rest@.len() ==> (#[trigger] rest@[i]).clock.wf(),
            outcome(timeout, rest@) == outcome(timeout, rounds@),
        decreases rest.len(),
    {
        let ghost before = rest@;
        let round = rest.remove(0);
        assert(rest@ =~= before.drop_first());
        assert(round.clock.wf());
        match waiter.on_clock(round.clock) {
            Action::Fail(e) => {
                return Some(Err(e));
            },
            _ => {},
        }
        match waiter.on_poll(round.poll) {
            Action::Done(waited) => {
                return Some(Ok(waited));
            },
            Action::Fail(e) => {
                return Some(Err(e));
            },
            _ => {},
        }
        assert forall|i: int| 0 <= i < rest@.len() implies (#[trigger] rest@[i]).clock.wf() by {
            assert(rest@[i] == before[i + 1]);
        }
    }
    None
}

/// Whether the pass's clock reading is still short of `timeout`.
pub open spec fn in_time(timeout: Span, round: Round) -> bool {
    round.clock.total_nanos() < timeout.total_nanos()
}

/// Whether the pass came in time and found no connection pending.
pub open spec fn idle_in_time(timeout: Span, round: Round) -> bool {
    in_time(timeout, round) && round.poll is Idle
}

/// Passes that come in time and find nothing pending leave the outcome to
/// the passes after them.
pub proof fn lemma_idle_passes(timeout: Span, rounds: Seq<Round>, k: int)
    requires
        0 <= k <= rounds.len(),
        forall|j: int| 0 <= j < k ==> idle_in_time(timeout, #[trigger] rounds[j]),
    ensures
        outcome(timeout, rounds) == outcome(timeout, rounds.subrange(k, rounds.len() as int)),
    decreases k,
{
    if k == 0 {
        assert(rounds.subrange(0, rounds.len() as int) =~= rounds);
    } else {
        assert(idle_in_time(timeout, rounds[0]));
        let rest = rounds.drop_first();
        assert forall|j: int| 0 <= j < k - 1 implies idle_in_time(timeout, #[trigger] rest[j]) by {
            assert(rest[j] == rounds[j + 1]);
            assert(idle_in_time(timeout, rounds[j + 1]));
        }
        lemma_idle_passes(timeout, rest, k - 1);
        assert(rest.subrange(k - 1, rest.len() as int) =~= rounds.subrange(k, rounds.len() as int));
    }
}

/// A connection that carries the notification, accepted in time after any
/// number of empty passes, ends the wait with success, and the time waited
/// is the clock reading taken once its payload was read.
pub proof fn lemma_notification_ends_wait(timeout: Span, rounds: Seq<Round>, k: int)
    requires
        0 <= k < rounds.len(),
        forall|j: int| 0 <= j < k ==> idle_in_time(timeout, #[trigger] rounds[j]),
        in_time(timeout, rounds[k]),
        rounds[k].poll is Received,
        rounds[k].poll->payload@ == done_payload(),
    ensures
        outcome(timeout, rounds) == Some(Ok::<Span, WaitError>(rounds[k].poll->elapsed)),
{
    lemma_idle_passes(timeout, rounds, k);
    assert(rounds.subrange(k, rounds.len() as int)[0] == rounds[k]);
}

/// A connection that was already pending when the wait started is found by
/// its first pass, if that pass comes in time: the wait succeeds with the
/// time measured then, whatever follows and however long the connection was
/// pending before.
pub proof fn lemma_pending_notification_found_at_once(timeout: Span, rounds: Seq<Round>)
    requires
        rounds.len() > 0,
        in_time(timeout, rounds[0]),
        rounds[0].poll is Received,
        rounds[0].poll->payload@ == done_payload(),
    ensures
        outcome(timeout, rounds) == Some(Ok::<Span, WaitError>(rounds[0].poll->elapsed)),
{
    lemma_notification_ends_wait(timeout, rounds, 0);
}

/// When no connection ever comes, the wait times out at the first pass
/// whose clock reading has reached the timeout.
pub proof fn lemma_no_connection_times_out(timeout: Span, rounds: Seq<Round>, k: int)
    requires
        0 <= k < rounds.len(),
        forall|j: int| 0 <= j < k ==> idle_in_time(timeout, #[trigger] rounds[j]),
        !in_time(timeout, rounds[k]),
    ensures
        outcome(timeout, rounds) == Some(Err::<Span, WaitError>(WaitError::TimedOut)),
{
    lemma_idle_passes(timeout, rounds, k);
    assert(rounds.subrange(k, rounds.len() as int)[0] == rounds[k]);
}

/// A wait times out only at a clock reading that has reached the timeout,
/// and only after every earlier pass came in time and found nothing.
pub proof fn lemma_timeout_only_at_deadline(timeout: Span, rounds: Seq<Round>)
    requires
        outcome(timeout, rounds) == Some(Err::<Span, WaitError>(WaitError::TimedOut)),
    ensures
        exists|k: int|
            0 <= k < rounds.len() && !in_time(timeout, #[trigger] rounds[k]) && forall|j: int|
                0 <= j < k ==> idle_in_time(timeout, #[trigger] rounds[j]),
    decreases rounds.len(),
{
    if in_time(timeout, rounds[0]) {
        let rest = rounds.drop_first();
        lemma_timeout_only_at_deadline(timeout, rest);
        let k = choose|k: int|
            0 <= k < rest.len() && !in_time(timeout, #[trigger] rest[k]) && forall|j: int|
                0 <= j < k ==> idle_in_time(timeout, #[trigger] rest[j]);
        assert(rest[k] == rounds[k + 1]);
        assert forall|j: int| 0 <= j < k + 1 implies idle_in_time(timeout, #[trigger] rounds[j]) by {
            if j > 0 {
                assert(rest[j - 1] == rounds[j]);
            }
        }
    } else {
        assert(!in_time(timeout, rounds[0]));
    }
}

/// A connection accepted in time that carries anything but the notification
/// ends the wait with a protocol error at once, however much of the timeout
/// is left and whatever later passes would see.
pub proof fn lemma_wrong_payload_fails(timeout: Span, rounds: Seq<Round>, k: int)
    requires
        0 <= k < rounds.len(),
        forall|j: int| 0 <= j < k ==> idle_in_time(timeout, #[trigger] rounds[j]),
        in_time(timeout, rounds[k]),
        rounds[k].poll is Received,
        rounds[k].poll->payload@ != done_payload(),
    ensures
        outcome(timeout, rounds) == Some(Err::<Span, WaitError>(WaitError::WrongNotification)),
{
    lemma_idle_passes(timeout, rounds, k);
    assert(rounds.subrange(k, rounds.len() as int)[0] == rounds[k]);
}

} // verus!
