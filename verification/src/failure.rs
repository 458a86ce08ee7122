//! What can go wrong, and who hears about it.

use vstd::prelude::*;

verus! {

/// The kinds of failure the pipeline distinguishes.
#[derive(Clone, Copy, Debug, PartialEq, Eq, Structural)]
pub enum Failure {
    /// The source file could not be read.
    SourceRead,
    /// Submitted or read bytes are not valid text.
    Encoding,
    /// The renderer signalled a failure.
    Render,
    /// The artifact could not be written or moved into place.
    Persist,
    /// Filesystem monitoring could not be established.
    WatcherSetup,
    /// A viewer's transport is closed or broken.
    Transport,
}

/// What set the failing operation off.
#[derive(Clone, Copy, Debug, PartialEq, Eq, Structural)]
pub enum Trigger {
    /// Process startup: there is no document yet.
    Startup,
    /// The filesystem watcher: nobody is waiting for an answer.
    Watcher,
    /// A request whose caller is waiting for the response.
    Request,
    /// Delivery to one viewer session.
    Session,
}

/// What is done about a failure.
#[derive(Clone, Copy, Debug, PartialEq, Eq, Structural)]
pub enum Propagation {
    /// The process cannot go on.
    Fatal,
    /// Returned to the caller: the request was at fault.
    ClientError,
    /// Returned to the caller: the service was at fault.
    InternalError,
    /// Logged; the last good generation is served on.
    LogOnly,
    /// The affected session is removed; nothing else changes.
    RemoveSession,
}

/// The propagation policy as a table.
///
/// A transport failure never reaches beyond its session. A watcher that
/// cannot be set up is fatal. At startup an unreadable or undecodable source
/// is fatal. A failure inside a request goes back to its caller, as a client
/// error where the request's bytes were at fault. Everything else has no
/// caller and is only logged.
pub open spec fn propagation_of(failure: Failure, trigger: Trigger) -> Propagation {
    match failure {
        Failure::Transport => Propagation::RemoveSession,
        Failure::WatcherSetup => Propagation::Fatal,
        Failure::SourceRead => match trigger {
            Trigger::Startup => Propagation::Fatal,
            Trigger::Request => Propagation::InternalError,
            _ => Propagation::LogOnly,
        },
        Failure::Encoding => match trigger {
            Trigger::Startup => Propagation::Fatal,
            Trigger::Request => Propagation::ClientError,
            _ => Propagation::LogOnly,
        },
        Failure::Render | Failure::Persist => match trigger {
            Trigger::Request => Propagation::InternalError,
            _ => Propagation::LogOnly,
        },
    }
}

/// The status line of the response to a request that ended in `result`.
pub open spec fn status_of(result: Result<u64, Failure>) -> u16 {
    match result {
        Ok(_) => 200,
        Err(failure) => match propagation_of(failure, Trigger::Request) {
            Propagation::ClientError => 400,
            _ => 500,
        },
    }
}

/// Decides what is done about `failure`, given what set the operation off.
pub fn propagation(failure: Failure, trigger: Trigger) -> (p: Propagation)
    ensures
        p == propagation_of(failure, trigger),
{
    match failure {
        Failure::Transport => Propagation::RemoveSession,
        Failure::WatcherSetup => Propagation::Fatal,
        Failure::SourceRead => match trigger {
            Trigger::Startup => Propagation::Fatal,
            Trigger::Request => Propagation::InternalError,
            _ => Propagation::LogOnly,
        },
        Failure::Encoding => match trigger {
            Trigger::Startup => Propagation::Fatal,
            Trigger::Request => Propagation::ClientError,
            _ => Propagation::LogOnly,
        },
        Failure::Render | Failure::Persist => match trigger {
            Trigger::Request => Propagation::InternalError,
            _ => Propagation::LogOnly,
        },
    }
}

/// The HTTP status with which a request that ended in `result` is answered.
pub fn response_status(result: &Result<u64, Failure>) -> (status: u16)
    ensures
        status == status_of(*result),
{
    match result {
        Ok(_) => 200,
        Err(failure) => match propagation(*failure, Trigger::Request) {
            Propagation::ClientError => 400,
            _ => 500,
        },
    }
}

/// Only the session whose transport failed is touched by a transport failure,
/// whatever set the delivery off; and nothing but a transport failure ever
/// removes a session.
pub proof fn lemma_transport_failures_stay_local(failure: Failure, trigger: Trigger)
    ensures
        propagation_of(failure, trigger) == Propagation::RemoveSession <==> failure
            == Failure::Transport,
{
}

/// A failure on the watcher's path is never fatal and never answered: it is
/// logged, unless the watcher itself could not be set up.
pub proof fn lemma_watcher_failures_are_logged(failure: Failure)
    requires
        failure != Failure::WatcherSetup,
        failure != Failure::Transport,
    ensures
        propagation_of(failure, Trigger::Watcher) == Propagation::LogOnly,
{
}

} // verus!
