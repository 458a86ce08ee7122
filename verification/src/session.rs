//! The viewer session protocol: what one connected viewer knows, and how it
//! learns of new generations.
//!
//! A session is `Connected` while it has acknowledged the latest generation,
//! `AwaitingDelivery` while a newer one is pending, and `Disconnected` once
//! the broadcaster has removed it. A push session is sent each generation as
//! it is announced and acknowledges it; a poll session asks, and acknowledges
//! by asking.

use vstd::prelude::*;

verus! {

/// How a viewer learns of a new generation.
#[derive(Clone, Copy, Debug, PartialEq, Eq, Structural)]
pub enum Transport {
    /// A persistent channel: the server sends as soon as a generation lands.
    Push,
    /// The viewer asks again at a fixed interval.
    Poll,
}

/// Where a session stands in the protocol.
#[derive(Clone, Copy, Debug, PartialEq, Eq, Structural)]
pub enum SessionState {
    /// The session has acknowledged the latest generation.
    Connected,
    /// A generation newer than the acknowledged one is pending.
    AwaitingDelivery,
    /// The session is gone. Nothing leads out of this state.
    Disconnected,
}

/// The answer to a poll.
#[derive(Clone, Copy, Debug, PartialEq, Eq, Structural)]
pub enum PollReply {
    /// Nothing newer than what the viewer has acknowledged.
    Unchanged,
    /// The generation to fetch now.
    Changed(u64),
    /// No such session: it was never subscribed, or was removed.
    UnknownSession,
}

/// The status line of the answer to a poll: the viewer fetches on 200, keeps
/// what it has on 304, and has to subscribe anew on 410.
pub open spec fn poll_status_of(reply: PollReply) -> u16 {
    match reply {
        PollReply::Changed(_) => 200,
        PollReply::Unchanged => 304,
        PollReply::UnknownSession => 410,
    }
}

/// The HTTP status with which a poll that got `reply` is answered.
pub fn poll_status(reply: PollReply) -> (status: u16)
    ensures
        status == poll_status_of(reply),
{
    match reply {
        PollReply::Changed(_) => 200,
        PollReply::Unchanged => 304,
        PollReply::UnknownSession => 410,
    }
}

/// One viewer, as the broadcaster knows it. Times are in milliseconds.
#[derive(Clone, Copy, Debug, PartialEq, Eq, Structural)]
pub struct ViewerSession {
    pub id: u64,
    /// The newest generation that was delivered to this viewer.
    pub last_acknowledged: u64,
    pub transport: Transport,
    /// When silence began to count: the time of the last poll or
    /// acknowledgement or, for a push session that was up to date when a
    /// generation was announced, the time of that announcement.
    pub last_seen: u64,
}

impl ViewerSession {
    /// A generation newer than the acknowledged one is pending.
    pub open spec fn awaiting(self, latest: u64) -> bool {
        latest > self.last_acknowledged
    }

    /// The state of a live session, given the latest generation.
    pub open spec fn state(self, latest: u64) -> SessionState {
        if self.awaiting(latest) {
            SessionState::AwaitingDelivery
        } else {
            SessionState::Connected
        }
    }

    /// The session has been silent for the whole timeout while something was
    /// expected of it: a poll session is always expected to ask again, a push
    /// session to acknowledge what it was sent.
    pub open spec fn expired(self, latest: u64, now: u64, timeout: u64) -> bool {
        &&& now >= self.last_seen
        &&& now - self.last_seen >= timeout
        &&& (self.transport == Transport::Poll || self.awaiting(latest))
    }

    /// The session after `generation` was announced at `now`, when the latest
    /// generation before was `latest`. A push session that was up to date
    /// starts waiting at `now`; nothing else changes.
    pub open spec fn announced(self, latest: u64, generation: u64, now: u64) -> ViewerSession {
        if generation > latest && self.transport == Transport::Push && !self.awaiting(latest) {
            ViewerSession { last_seen: now, ..self }
        } else {
            self
        }
    }

    /// The session after it polled at `now`: it has been told of `latest`.
    pub open spec fn polled(self, latest: u64, now: u64) -> ViewerSession {
        ViewerSession {
            last_acknowledged: if latest > self.last_acknowledged {
                latest
            } else {
                self.last_acknowledged
            },
            last_seen: now,
            ..self
        }
    }

    /// The session after it acknowledged `generation` at `now`. What it
    /// acknowledges counts up to the latest generation and never takes the
    /// session back.
    pub open spec fn acknowledged(self, latest: u64, generation: u64, now: u64) -> ViewerSession {
        let reached = if generation > latest {
            latest
        } else {
            generation
        };
        ViewerSession {
            last_acknowledged: if reached > self.last_acknowledged {
                reached
            } else {
                self.last_acknowledged
            },
            last_seen: now,
            ..self
        }
    }

    /// Whether a generation newer than the acknowledged one is pending.
    pub fn is_awaiting(&self, latest: u64) -> (b: bool)
        ensures
            b == self.awaiting(latest),
    {
        latest > self.last_acknowledged
    }

    /// Whether the session's timeout has run out at `now`.
    pub fn is_expired(&self, latest: u64, now: u64, timeout: u64) -> (b: bool)
        ensures
            b == self.expired(latest, now, timeout),
    {
        let expected = match self.transport {
            Transport::Poll => true,
            Transport::Push => latest > self.last_acknowledged,
        };
        now >= self.last_seen && now - self.last_seen >= timeout && expected
    }

    /// The session after an announcement.
    pub fn announce(&self, latest: u64, generation: u64, now: u64) -> (s: ViewerSession)
        ensures
            s == self.announced(latest, generation, now),
    {
        let starts_waiting = match self.transport {
            Transport::Push => generation > latest && !(latest > self.last_acknowledged),
            Transport::Poll => false,
        };
        if starts_waiting {
            ViewerSession {
                id: self.id,
                last_acknowledged: self.last_acknowledged,
                transport: self.transport,
                last_seen: now,
            }
        } else {
            *self
        }
    }

    /// The session after a poll.
    pub fn poll(&self, latest: u64, now: u64) -> (s: ViewerSession)
        ensures
            s == self.polled(latest, now),
    {
        ViewerSession {
            id: self.id,
            last_acknowledged: if latest > self.last_acknowledged {
                latest
            } else {
                self.last_acknowledged
            },
            transport: self.transport,
            last_seen: now,
        }
    }

    /// The session after an acknowledgement.
    pub fn acknowledge(&self, latest: u64, generation: u64, now: u64) -> (s: ViewerSession)
        ensures
            s == self.acknowledged(latest, generation, now),
    {
        let reached = if generation > latest {
            latest
        } else {
            generation
        };
        ViewerSession {
            id: self.id,
            last_acknowledged: if reached > self.last_acknowledged {
                reached
            } else {
                self.last_acknowledged
            },
            transport: self.transport,
            last_seen: now,
        }
    }
}

/// A session never regresses: no step takes its acknowledged generation
/// back, and none takes it beyond the latest generation.
pub proof fn lemma_session_never_regresses(
    s: ViewerSession,
    latest: u64,
    generation: u64,
    now: u64,
)
    requires
        s.last_acknowledged <= latest,
    ensures
        s.announced(latest, generation, now).last_acknowledged == s.last_acknowledged,
        s.last_acknowledged <= s.acknowledged(latest, generation, now).last_acknowledged
            <= latest,
        s.polled(latest, now).last_acknowledged == latest,
        s.polled(latest, now).state(latest) == SessionState::Connected,
        s.announced(latest, generation, now).id == s.id,
        s.acknowledged(latest, generation, now).id == s.id,
        s.polled(latest, now).id == s.id,
{
}

} // verus!
