use forum_stream::error::FlaresolverrError;
use forum_stream::pipeline::{expects, step, try_step, Action, Event, Stage, BLOCKED_STATUS};

#[test]
fn only_403_is_a_block() {
    assert_eq!(BLOCKED_STATUS, 403);
    for status in 0u16..1000 {
        let (stage, action) = step(Stage::Sent, Event::Response { status });
        assert_eq!(stage == Stage::Solving, status == 403);
        assert_eq!(action == Action::AlertAndSolve, status == 403);
    }
}

#[test]
fn unblocked_first_answer_is_returned() {
    for status in [200u16, 301, 402, 404, 500] {
        assert_eq!(step(Stage::Sent, Event::Response { status }), (Stage::Done, Action::Return));
    }
}

#[test]
fn blocked_first_answer_starts_a_solve() {
    assert_eq!(
        step(Stage::Sent, Event::Response { status: 403 }),
        (Stage::Solving, Action::AlertAndSolve)
    );
}

#[test]
fn good_solve_sends_the_request_again() {
    assert_eq!(
        step(Stage::Solving, Event::Solved { retryable: true }),
        (Stage::Retried, Action::Redispatch)
    );
}

#[test]
fn request_that_cannot_be_sent_again_fails() {
    assert_eq!(
        step(Stage::Solving, Event::Solved { retryable: false }),
        (Stage::Failed, Action::Fail { error: FlaresolverrError::RequestNotRetryable })
    );
}

#[test]
fn failed_solve_ends_with_its_error() {
    for error in [
        FlaresolverrError::ConnectionProblem,
        FlaresolverrError::MissingSolution,
        FlaresolverrError::MissingCookie,
        FlaresolverrError::CookiesNotAnArray,
        FlaresolverrError::MissingUserAgent,
        FlaresolverrError::CookieFormatError,
        FlaresolverrError::UrlParseError,
    ] {
        assert_eq!(
            step(Stage::Solving, Event::SolveFailed { error }),
            (Stage::Failed, Action::Fail { error })
        );
    }
}

#[test]
fn second_answer_is_returned_whatever_its_status() {
    for status in [200u16, 403, 500] {
        assert_eq!(step(Stage::Retried, Event::Response { status }), (Stage::Done, Action::Return));
    }
}

#[test]
fn blocked_request_is_sent_again_exactly_once() {
    let events = [
        Event::Response { status: 403 },
        Event::Solved { retryable: true },
        Event::Response { status: 403 },
    ];
    let mut stage = Stage::Sent;
    let mut actions = Vec::new();
    for event in events {
        let (next, action) = try_step(stage, event).unwrap();
        stage = next;
        actions.push(action);
    }
    assert_eq!(stage, Stage::Done);
    assert_eq!(actions, vec![Action::AlertAndSolve, Action::Redispatch, Action::Return]);
    assert_eq!(actions.iter().filter(|a| **a == Action::Redispatch).count(), 1);
    assert_eq!(try_step(stage, Event::Response { status: 403 }), None);
}

#[test]
fn nothing_follows_the_end_of_a_request() {
    for stage in [Stage::Done, Stage::Failed] {
        for event in [
            Event::Response { status: 200 },
            Event::Solved { retryable: true },
            Event::SolveFailed { error: FlaresolverrError::ConnectionProblem },
        ] {
            assert!(!expects(stage, event));
            assert_eq!(try_step(stage, event), None);
        }
    }
}

#[test]
fn events_out_of_turn_are_not_expected() {
    assert!(!expects(Stage::Sent, Event::Solved { retryable: true }));
    assert!(!expects(Stage::Sent, Event::SolveFailed { error: FlaresolverrError::MissingCookie }));
    assert!(!expects(Stage::Solving, Event::Response { status: 200 }));
    assert!(!expects(Stage::Retried, Event::Solved { retryable: false }));
    assert!(expects(Stage::Sent, Event::Response { status: 200 }));
    assert!(expects(Stage::Solving, Event::Solved { retryable: false }));
    assert!(expects(Stage::Solving, Event::SolveFailed { error: FlaresolverrError::MissingCookie }));
    assert!(expects(Stage::Retried, Event::Response { status: 403 }));
}

#[test]
fn error_names_are_the_kinds() {
    assert_eq!(FlaresolverrError::ConnectionProblem.name(), "ConnectionProblem");
    assert_eq!(FlaresolverrError::MissingSolution.name(), "MissingSolution");
    assert_eq!(FlaresolverrError::MissingCookie.name(), "MissingCookie");
    assert_eq!(FlaresolverrError::CookiesNotAnArray.name(), "CookiesNotAnArray");
    assert_eq!(FlaresolverrError::MissingUserAgent.name(), "MissingUserAgent");
    assert_eq!(FlaresolverrError::CookieFormatError.name(), "CookieFormatError");
    assert_eq!(FlaresolverrError::UrlParseError.name(), "UrlParseError");
    assert_eq!(FlaresolverrError::RequestNotRetryable.name(), "RequestNotRetryable");
}
