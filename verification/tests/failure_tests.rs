use live_preview::failure::{propagation, response_status, Failure, Propagation, Trigger};

#[test]
fn success_is_answered_with_200() {
    assert_eq!(response_status(&Ok(2)), 200);
}

#[test]
fn encoding_failure_is_a_client_error() {
    assert_eq!(response_status(&Err(Failure::Encoding)), 400);
    assert_eq!(propagation(Failure::Encoding, Trigger::Request), Propagation::ClientError);
}

#[test]
fn persist_and_render_failures_are_internal_errors() {
    assert_eq!(response_status(&Err(Failure::Persist)), 500);
    assert_eq!(response_status(&Err(Failure::Render)), 500);
    assert_eq!(response_status(&Err(Failure::SourceRead)), 500);
    assert_eq!(propagation(Failure::Persist, Trigger::Request), Propagation::InternalError);
    assert_eq!(propagation(Failure::Render, Trigger::Request), Propagation::InternalError);
    assert_eq!(propagation(Failure::SourceRead, Trigger::Request), Propagation::InternalError);
}

#[test]
fn startup_failures_are_fatal() {
    assert_eq!(propagation(Failure::SourceRead, Trigger::Startup), Propagation::Fatal);
    assert_eq!(propagation(Failure::Encoding, Trigger::Startup), Propagation::Fatal);
    assert_eq!(propagation(Failure::WatcherSetup, Trigger::Startup), Propagation::Fatal);
}

#[test]
fn watcher_failures_are_only_logged() {
    assert_eq!(propagation(Failure::SourceRead, Trigger::Watcher), Propagation::LogOnly);
    assert_eq!(propagation(Failure::Encoding, Trigger::Watcher), Propagation::LogOnly);
    assert_eq!(propagation(Failure::Render, Trigger::Watcher), Propagation::LogOnly);
    assert_eq!(propagation(Failure::Persist, Trigger::Watcher), Propagation::LogOnly);
}

#[test]
fn transport_failure_removes_the_session_only() {
    for trigger in [Trigger::Startup, Trigger::Watcher, Trigger::Request, Trigger::Session] {
        assert_eq!(propagation(Failure::Transport, trigger), Propagation::RemoveSession);
    }
}

#[test]
fn only_transport_failures_remove_sessions() {
    let failures = [
        Failure::SourceRead,
        Failure::Encoding,
        Failure::Render,
        Failure::Persist,
        Failure::WatcherSetup,
    ];
    for failure in failures {
        for trigger in [Trigger::Startup, Trigger::Watcher, Trigger::Request, Trigger::Session] {
            assert_ne!(propagation(failure, trigger), Propagation::RemoveSession);
        }
    }
}
