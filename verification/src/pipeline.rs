//! The decisions of the intercepting stage for one request.
//!
//! The stage sends the request on, and where the answer shows that the
//! origin has blocked it, has the challenge solved and sends the request once
//! more. Sending, solving and alerting are the transport's work; what to do
//! next is decided here, by [`step`], from the stage that the request is in
//! and from what has just happened.

use crate::error::FlaresolverrError;
use vstd::prelude::*;

verus! {

/// The status with which a bot-protected origin answers a blocked request.
pub const BLOCKED_STATUS: u16 = 403;

/// Where the handling of one request stands.
#[derive(Clone, Copy, Debug, PartialEq, Eq, Structural)]
pub enum Stage {
    /// The request was sent on and has no answer yet.
    Sent,
    /// The first answer was a block; the challenge is being solved.
    Solving,
    /// The solve was taken in and the request was sent a second time.
    Retried,
    /// An answer goes back to the caller.
    Done,
    /// An error goes back to the caller.
    Failed,
}

/// What has just happened to the request.
#[derive(Clone, Copy, Debug, PartialEq, Eq, Structural)]
pub enum Event {
    /// An answer came, with this status.
    Response { status: u16 },
    /// The solve ended well and was taken into the session state.
    /// `retryable` says whether the request can be sent a second time.
    Solved { retryable: bool },
    /// The solve, or taking it in, failed.
    SolveFailed { error: FlaresolverrError },
}

/// What the transport does next.
#[derive(Clone, Copy, Debug, PartialEq, Eq, Structural)]
pub enum Action {
    /// Hand the answer that has just come to the caller.
    Return,
    /// Alert the operator, without waiting for the outcome, and have the
    /// challenge of the request's URL solved.
    AlertAndSolve,
    /// Lay the session headers over a copy of the request and send it.
    Redispatch,
    /// Hand this error to the caller; the blocked answer is dropped.
    Fail { error: FlaresolverrError },
}

/// Whether `event` can happen to a request in `stage`.
pub open spec fn expected(stage: Stage, event: Event) -> bool {
    match stage {
        Stage::Sent => event is Response,
        Stage::Solving => event is Solved || event is SolveFailed,
        Stage::Retried => event is Response,
        Stage::Done => false,
        Stage::Failed => false,
    }
}

/// The stage that a request in `stage` is in after `event`, and what the
/// transport does next.
pub open spec fn transition(stage: Stage, event: Event) -> (Stage, Action) {
    match (stage, event) {
        (Stage::Sent, Event::Response { status }) => if status == BLOCKED_STATUS {
            (Stage::Solving, Action::AlertAndSolve)
        } else {
            (Stage::Done, Action::Return)
        },
        (Stage::Solving, Event::Solved { retryable }) => if retryable {
            (Stage::Retried, Action::Redispatch)
        } else {
            (Stage::Failed, Action::Fail { error: FlaresolverrError::RequestNotRetryable })
        },
        (Stage::Solving, Event::SolveFailed { error }) => (Stage::Failed, Action::Fail { error }),
        (Stage::Retried, Event::Response { status }) => (Stage::Done, Action::Return),
        _ => (stage, Action::Return),
    }
}

/// Whether `event` can happen to a request in `stage`.
pub fn expects(stage: Stage, event: Event) -> (res: bool)
    ensures
        res == expected(stage, event),
{
    match stage {
        Stage::Sent => match event {
            Event::Response { .. } => true,
            _ => false,
        },
        Stage::Solving => match event {
            Event::Response { .. } => false,
            _ => true,
        },
        Stage::Retried => match event {
            Event::Response { .. } => true,
            _ => false,
        },
        Stage::Done => false,
        Stage::Failed => false,
    }
}

/// Decides what follows `event` for a request in `stage`.
pub fn step(stage: Stage, event: Event) -> (res: (Stage, Action))
    requires
        expected(stage, event),
    ensures
        res == transition(stage, event),
{
    match stage {
        Stage::Sent => match event {
            Event::Response { status } => if status == BLOCKED_STATUS {
                (Stage::Solving, Action::AlertAndSolve)
            } else {
                (Stage::Done, Action::Return)
            },
            _ => (stage, Action::Return),
        },
        Stage::Solving => match event {
            Event::Solved { retryable } => if retryable {
                (Stage::Retried, Action::Redispatch)
            } else {
                (Stage::Failed, Action::Fail { error: FlaresolverrError::RequestNotRetryable })
            },
            Event::SolveFailed { error } => (Stage::Failed, Action::Fail { error }),
            _ => (stage, Action::Return),
        },
        Stage::Retried => (Stage::Done, Action::Return),
        _ => (stage, Action::Return),
    }
}

/// Decides what follows `event` for a request in `stage`; `None` where the
/// event cannot happen in that stage.
pub fn try_step(stage: Stage, event: Event) -> (res: Option<(Stage, Action)>)
    ensures
        res == if expected(stage, event) {
            Some(transition(stage, event))
        } else {
            None
        },
{
    if expects(stage, event) {
        Some(step(stage, event))
    } else {
        None
    }
}

/// What the transport does, one action for each event, while the events are
/// those that can happen; the first event that cannot happen ends the list.
pub open spec fn actions(stage: Stage, events: Seq<Event>) -> Seq<Action>
    decreases events.len(),
{
    if events.len() == 0 || !expected(stage, events[0]) {
        Seq::empty()
    } else {
        seq![transition(stage, events[0]).1] + actions(
            transition(stage, events[0]).0,
            events.drop_first(),
        )
    }
}

/// How often `action` stands in `list`.
pub open spec fn count(list: Seq<Action>, action: Action) -> nat
    decreases list.len(),
{
    if list.len() == 0 {
        0
    } else {
        count(list.drop_first(), action) + if list[0] == action {
            1nat
        } else {
            0nat
        }
    }
}

/// The most solves that can still follow for a request in `stage`.
pub open spec fn solves_left(stage: Stage) -> nat {
    match stage {
        Stage::Sent => 1,
        _ => 0,
    }
}

/// The most second sendings that can still follow for a request in `stage`.
pub open spec fn retries_left(stage: Stage) -> nat {
    match stage {
        Stage::Sent => 1,
        Stage::Solving => 1,
        _ => 0,
    }
}

proof fn lemma_count_first(head: Action, rest: Seq<Action>, action: Action)
    ensures
        count(seq![head] + rest, action) == count(rest, action) + if head == action {
            1nat
        } else {
            0nat
        },
{
    assert((seq![head] + rest).drop_first() =~= rest);
}

/// Whatever happens to a request, its challenge is solved at most once and
/// it is sent a second time at most once.
pub proof fn law_one_solve_one_retry(stage: Stage, events: Seq<Event>)
    ensures
        count(actions(stage, events), Action::AlertAndSolve) <= solves_left(stage),
        count(actions(stage, events), Action::Redispatch) <= retries_left(stage),
        actions(stage, events).len() <= 3,
    decreases events.len(),
{
    if events.len() > 0 && expected(stage, events[0]) {
        let next = transition(stage, events[0]);
        law_one_solve_one_retry(next.0, events.drop_first());
        let rest = actions(next.0, events.drop_first());
        lemma_count_first(next.1, rest, Action::AlertAndSolve);
        lemma_count_first(next.1, rest, Action::Redispatch);
        lemma_stage_depth(next.0, events.drop_first());
    }
}

/// How many events can still happen to a request in `stage`.
pub open spec fn events_left(stage: Stage) -> nat {
    match stage {
        Stage::Sent => 3,
        Stage::Solving => 2,
        Stage::Retried => 1,
        Stage::Done => 0,
        Stage::Failed => 0,
    }
}

proof fn lemma_stage_depth(stage: Stage, events: Seq<Event>)
    ensures
        actions(stage, events).len() <= events_left(stage),
    decreases events.len(),
{
    if events.len() > 0 && expected(stage, events[0]) {
        lemma_stage_depth(transition(stage, events[0]).0, events.drop_first());
    }
}

/// A request whose first answer is a block, whose solve ends well and which
/// can be sent again is sent a second time exactly once, and the second
/// answer goes to the caller whatever its status.
pub proof fn law_blocked_request_is_retried_once(second: u16)
    ensures
        actions(
            Stage::Sent,
            seq![
                Event::Response { status: BLOCKED_STATUS },
                Event::Solved { retryable: true },
                Event::Response { status: second },
            ],
        ) == seq![Action::AlertAndSolve, Action::Redispatch, Action::Return],
{
    let events = seq![
        Event::Response { status: BLOCKED_STATUS },
        Event::Solved { retryable: true },
        Event::Response { status: second },
    ];
    let after_one = events.drop_first();
    let after_two = after_one.drop_first();
    let after_three = after_two.drop_first();
    assert(after_three.len() == 0);
    assert(actions(Stage::Done, after_three) =~= Seq::empty());
    assert(actions(Stage::Retried, after_two) =~= seq![Action::Return]);
    assert(actions(Stage::Solving, after_one) =~= seq![Action::Redispatch, Action::Return]);
    assert(actions(Stage::Sent, events) =~= seq![
        Action::AlertAndSolve,
        Action::Redispatch,
        Action::Return,
    ]);
}

/// A solve that fails ends the request with the solve's error: the blocked
/// answer does not go to the caller, and nothing more is sent.
pub proof fn law_failed_solve_is_terminal(error: FlaresolverrError, later: Seq<Event>)
    ensures
        actions(
            Stage::Sent,
            seq![Event::Response { status: BLOCKED_STATUS }, Event::SolveFailed { error }] + later,
        ) == seq![Action::AlertAndSolve, Action::Fail { error }],
{
    let events = seq![Event::Response { status: BLOCKED_STATUS }, Event::SolveFailed { error }]
        + later;
    let after_one = events.drop_first();
    let after_two = after_one.drop_first();
    assert(actions(Stage::Failed, after_two) =~= Seq::empty());
    assert(actions(Stage::Solving, after_one) =~= seq![Action::Fail { error }]);
    assert(actions(Stage::Sent, events) =~= seq![Action::AlertAndSolve, Action::Fail { error }]);
}

} // verus!
