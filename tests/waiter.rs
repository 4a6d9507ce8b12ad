use test_patience::{replay, Action, Phase, Poll, Round, Span, WaitError, Waiter};

fn idle(clock: Span) -> Round {
    Round { clock, poll: Poll::Idle }
}

fn received(clock: Span, payload: &[u8], elapsed: Span) -> Round {
    Round { clock, poll: Poll::Received { payload: payload.to_vec(), elapsed } }
}

/// Empty passes one millisecond apart, from `from` up to but not including `to`.
fn idle_passes(from_millis: u64, to_millis: u64) -> Vec<Round> {
    let mut rounds = Vec::new();
    let mut ms = from_millis;
    while ms < to_millis {
        rounds.push(idle(Span::from_millis(ms)));
        ms += 1;
    }
    rounds
}

#[test]
fn clock_below_timeout_leads_to_accept() {
    let mut w = Waiter::new(Span::from_secs(5));
    assert_eq!(w.phase(), Phase::ReadClock);
    assert_eq!(w.on_clock(Span::new(4, 999_999_999)), Action::Accept);
    assert_eq!(w.phase(), Phase::Accepting);
    assert_eq!(w.timeout(), Span::from_secs(5));
}

#[test]
fn clock_at_timeout_times_out() {
    let mut w = Waiter::new(Span::from_secs(1));
    assert_eq!(w.on_clock(Span::from_secs(1)), Action::Fail(WaitError::TimedOut));
    assert_eq!(w.phase(), Phase::Finished);
}

#[test]
fn zero_timeout_ends_at_first_reading() {
    let mut w = Waiter::new(Span::zero());
    assert_eq!(w.on_clock(Span::zero()), Action::Fail(WaitError::TimedOut));
    assert_eq!(replay(Span::zero(), vec![received(Span::zero(), b"done", Span::zero())]),
        Some(Err(WaitError::TimedOut)));
}

#[test]
fn idle_poll_sleeps_one_millisecond() {
    let mut w = Waiter::new(Span::from_secs(5));
    w.on_clock(Span::zero());
    assert_eq!(w.on_poll(Poll::Idle), Action::Sleep(Span::new(0, 1_000_000)));
    assert_eq!(w.phase(), Phase::ReadClock);
}

#[test]
fn done_poll_reports_elapsed() {
    let mut w = Waiter::new(Span::from_secs(5));
    w.on_clock(Span::zero());
    let elapsed = Span::new(0, 300_000);
    let a = w.on_poll(Poll::Received { payload: b"done".to_vec(), elapsed });
    assert_eq!(a, Action::Done(elapsed));
    assert_eq!(w.phase(), Phase::Finished);
}

#[test]
fn wrong_poll_is_protocol_error() {
    let mut w = Waiter::new(Span::from_secs(5));
    w.on_clock(Span::zero());
    let a = w.on_poll(Poll::Received { payload: b"oops".to_vec(), elapsed: Span::zero() });
    assert_eq!(a, Action::Fail(WaitError::WrongNotification));
}

#[test]
fn failed_poll_is_io_error() {
    let mut w = Waiter::new(Span::from_secs(5));
    w.on_clock(Span::zero());
    assert_eq!(w.on_poll(Poll::Failed), Action::Fail(WaitError::Io));
    assert_eq!(w.phase(), Phase::Finished);
}

#[test]
fn replay_notifier_fires_immediately() {
    let rounds = vec![received(Span::zero(), b"done", Span::new(0, 200_000))];
    assert_eq!(replay(Span::from_secs(5), rounds), Some(Ok(Span::new(0, 200_000))));
}

#[test]
fn replay_notifier_fires_after_one_second() {
    let mut rounds = idle_passes(0, 1000);
    rounds.push(received(Span::from_millis(1000), b"done", Span::new(1, 400_000)));
    rounds.push(idle(Span::from_millis(1001)));
    assert_eq!(replay(Span::from_secs(5), rounds), Some(Ok(Span::new(1, 400_000))));
}

#[test]
fn replay_buffered_notification_found_on_first_pass() {
    let rounds = vec![
        received(Span::new(0, 50_000), b"done", Span::new(0, 90_000)),
        idle(Span::from_millis(1)),
    ];
    assert_eq!(replay(Span::from_secs(5), rounds), Some(Ok(Span::new(0, 90_000))));
}

#[test]
fn replay_late_notifier_times_out() {
    let mut rounds = idle_passes(0, 1001);
    rounds.push(received(Span::from_millis(1001), b"done", Span::from_millis(1001)));
    assert_eq!(replay(Span::from_secs(1), rounds), Some(Err(WaitError::TimedOut)));
}

#[test]
fn replay_wrong_payload_fails_before_timeout() {
    let mut rounds = idle_passes(0, 10);
    rounds.push(received(Span::from_millis(10), b"oops", Span::from_millis(10)));
    rounds.push(received(Span::from_millis(11), b"done", Span::from_millis(11)));
    assert_eq!(replay(Span::from_secs(5), rounds), Some(Err(WaitError::WrongNotification)));
}

#[test]
fn replay_io_failure_ends_wait() {
    let rounds = vec![idle(Span::zero()), Round { clock: Span::from_millis(1), poll: Poll::Failed }];
    assert_eq!(replay(Span::from_secs(5), rounds), Some(Err(WaitError::Io)));
}

#[test]
fn replay_undecided_when_passes_run_out() {
    assert_eq!(replay(Span::from_secs(5), Vec::new()), None);
    assert_eq!(replay(Span::from_secs(5), idle_passes(0, 20)), None);
}
