//! The cancellable polling state machine.
//!
//! A poll runs a check against the service repeatedly until the check
//! settles or an overall deadline elapses. The loop itself — issuing the
//! probe, sleeping between attempts, racing the deadline — is I/O and
//! belongs to the caller; the decisions are here. The caller keeps a
//! [`PollState`], feeds every observation to [`poll_step`] as a
//! [`PollEvent`], and stops as soon as the state is `Done`.
//!
//! The laws at the end of this module pin the protocol down: the poll's
//! outcome is exactly the outcome of the first terminal event, later
//! events (a late settlement, a stop signal after settlement, a second
//! deadline) never change it, and a trace without a terminal event has no
//! outcome yet.

use vstd::prelude::*;

use crate::errors::BintrayError;

verus! {

/// What a single probe concluded: `Retry` when no terminal signal was
/// seen yet, `Settled` with the poll's final outcome — success value or
/// fatal error — otherwise. A probe settles exactly once or requests
/// another attempt; there is no third case.
#[derive(Debug)]
pub enum CheckOutcome<T> {
    Retry,
    Settled(Result<T, BintrayError>),
}

/// One observation made by the loop driving a poll.
#[derive(Debug)]
pub enum PollEvent<T> {
    /// A probe completed and its check function concluded this.
    Probe(CheckOutcome<T>),
    /// A probe failed at the transport level (connection or protocol
    /// error); fatal, not retried.
    TransportFailure { message: Vec<u8> },
    /// The overall deadline elapsed before any settlement.
    Deadline,
}

/// The caller-visible state of one poll.
#[derive(Debug)]
pub enum PollState<T> {
    /// No terminal outcome yet; keep probing.
    Running,
    /// The one terminal outcome of this poll.
    Done(Result<T, BintrayError>),
}

/// A status a probe counts as success: the 2xx range.
pub open spec fn spec_success_status(status: u16) -> bool {
    200 <= status < 300
}

/// A status a probe absorbs as "not yet available": the service answers
/// not-found for content a mirror has not picked up, and unauthenticated
/// for content whose interim anonymous visibility varies across mirrors.
/// Both mean "try again", not "fail".
pub open spec fn spec_not_yet_status(status: u16) -> bool {
    status == 401 || status == 404
}

/// Whether `status` counts as success for a probe.
pub fn is_success_status(status: u16) -> (r: bool)
    ensures
        r == spec_success_status(status),
{
    200 <= status && status < 300
}

/// Whether `status` counts as "not yet available" for a probe.
pub fn is_not_yet_status(status: u16) -> (r: bool)
    ensures
        r == spec_not_yet_status(status),
{
    status == 401 || status == 404
}

/// An event is terminal when it decides the poll: a settled probe, a
/// transport failure, or the deadline. A retrying probe is not.
pub open spec fn is_terminal_event<T>(e: PollEvent<T>) -> bool {
    !(e matches PollEvent::Probe(CheckOutcome::Retry))
}

/// The outcome a terminal event decides the poll with.
pub open spec fn event_outcome<T>(e: PollEvent<T>) -> Result<T, BintrayError>
    recommends
        is_terminal_event(e),
{
    match e {
        PollEvent::Probe(CheckOutcome::Settled(r)) => r,
        PollEvent::TransportFailure { message } => Err(
            BintrayError::ContentNotAvailable { transport_error: Some(message) },
        ),
        _ => Err(BintrayError::ContentNotAvailable { transport_error: None }),
    }
}

/// How one event advances a poll: the first terminal event decides the
/// outcome, and a decided poll absorbs every later event unchanged.
pub open spec fn spec_poll_step<T>(state: PollState<T>, event: PollEvent<T>) -> PollState<T> {
    match state {
        PollState::Done(_) => state,
        PollState::Running => {
            if is_terminal_event(event) {
                PollState::Done(event_outcome(event))
            } else {
                PollState::Running
            }
        },
    }
}

/// The state of a poll after a whole trace of events, starting from
/// `Running`.
pub open spec fn poll_run<T>(events: Seq<PollEvent<T>>) -> PollState<T>
    decreases events.len(),
{
    if events.len() == 0 {
        PollState::Running
    } else {
        spec_poll_step(poll_run(events.drop_last()), events.last())
    }
}

/// Advances a poll by one observation.
pub fn poll_step<T>(state: PollState<T>, event: PollEvent<T>) -> (next: PollState<T>)
    ensures
        next == spec_poll_step(state, event),
{
    match state {
        PollState::Done(r) => PollState::Done(r),
        PollState::Running => {
            match event {
                PollEvent::Probe(CheckOutcome::Retry) => PollState::Running,
                PollEvent::Probe(CheckOutcome::Settled(r)) => PollState::Done(r),
                PollEvent::TransportFailure { message } => {
                    PollState::Done(
                        Err(BintrayError::ContentNotAvailable { transport_error: Some(message) }),
                    )
                },
                PollEvent::Deadline => {
                    PollState::Done(
                        Err(BintrayError::ContentNotAvailable { transport_error: None }),
                    )
                },
            }
        },
    }
}

/// Law: a trace without a terminal event leaves the poll running — a
/// sequence of retries alone never produces an outcome.
pub proof fn lemma_poll_no_terminal_still_running<T>(events: Seq<PollEvent<T>>)
    requires
        forall|j: int| 0 <= j < events.len() ==> !is_terminal_event(events[j]),
    ensures
        poll_run(events) is Running,
    decreases events.len(),
{
    if events.len() > 0 {
        lemma_poll_no_terminal_still_running(events.drop_last());
    }
}

/// Law: once a poll is decided, it stays decided with the same outcome.
/// Whatever arrives after settlement — a late probe, a stop signal, the
/// deadline — is a no-op, so the caller never observes a second terminal
/// outcome.
pub proof fn lemma_poll_settles_once<T>(events: Seq<PollEvent<T>>, i: int)
    requires
        0 <= i <= events.len(),
        poll_run(events.take(i)) is Done,
    ensures
        poll_run(events) == poll_run(events.take(i)),
    decreases events.len() - i,
{
    if i < events.len() {
        assert(events.take(i + 1).drop_last() =~= events.take(i));
        assert(events.take(i + 1).last() == events[i]);
        lemma_poll_settles_once(events, i + 1);
    } else {
        assert(events.take(i) =~= events);
    }
}

/// Law: the first terminal event decides the poll. For any trace whose
/// first terminal event stands at position `i`, the poll's outcome is
/// exactly that event's outcome: one terminal `Settled` or `Timeout` is
/// observed — never both, never neither.
pub proof fn lemma_poll_first_terminal_decides<T>(events: Seq<PollEvent<T>>, i: int)
    requires
        0 <= i < events.len(),
        is_terminal_event(events[i]),
        forall|j: int| 0 <= j < i ==> !is_terminal_event(events[j]),
    ensures
        poll_run(events) == PollState::<T>::Done(event_outcome(events[i])),
{
    let upto = events.take(i);
    assert(forall|j: int| 0 <= j < upto.len() ==> !is_terminal_event(upto[j]));
    lemma_poll_no_terminal_still_running(upto);
    assert(events.take(i + 1).drop_last() =~= events.take(i));
    assert(events.take(i + 1).last() == events[i]);
    assert(poll_run(events.take(i + 1)) == PollState::<T>::Done(event_outcome(events[i])));
    lemma_poll_settles_once(events, i + 1);
}

} // verus!
