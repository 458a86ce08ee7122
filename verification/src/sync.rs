//! The whole pipeline as one state machine.
//!
//! [`LiveSync`] owns the document store, the change queue, the debouncer and
//! the broadcaster, and is driven from outside: the caller reports what
//! happened (a file notification, a look at the clock, bytes that arrived, how
//! a write to disk ended, a viewer that asked) and is told what to do next.
//! Whatever the order of the reports, no viewer is ever told of a generation
//! that it cannot fetch.

use crate::broadcast::{Broadcaster, BroadcasterView};
use crate::changes::{
    decode_text, surviving, ChangeEvent, ChangeEventView, ChangeOrigin, ChangeQueue, Debouncer,
};
use crate::document::{DocumentStore, PersistOutcome, RenderedArtifact, StoreView};
use crate::failure::{Failure, Trigger};
use crate::session::{PollReply, Transport, ViewerSession};
use vstd::prelude::*;
use vstd::utf8::*;

verus! {

/// What the caller is to do after asking for the next change.
#[derive(Clone, Copy, Debug, PartialEq, Eq, Structural)]
pub enum Step {
    /// No change waits.
    Idle,
    /// The change that waited longest only repeated the document and was
    /// dropped.
    Skipped,
    /// A change from this origin was accepted and rendered: its markup is to
    /// be persisted, and the outcome reported.
    Persist(ChangeOrigin),
}

/// How a change ended.
#[derive(Debug, PartialEq, Eq)]
pub struct Completion {
    /// Where the change came from.
    pub origin: ChangeOrigin,
    /// The new generation, or the failure.
    pub report: Result<u64, Failure>,
    /// The push sessions to send the new generation to.
    pub deliveries: Vec<u64>,
}

/// A [`LiveSync`] as a mathematical value.
#[verifier::ext_equal]
pub struct SyncView {
    pub store: StoreView,
    pub queue: Seq<ChangeEventView>,
    pub debouncer: Debouncer,
    pub broadcaster: BroadcasterView,
    /// The origin of the change whose markup is being persisted.
    pub applying: Option<ChangeOrigin>,
}

impl SyncView {
    /// What holds of the pipeline at all times: store and broadcaster are
    /// well-formed, a change is being applied exactly while a render is in
    /// flight, and no generation was announced that the store has not
    /// published.
    pub open spec fn inv(self) -> bool {
        &&& self.store.inv()
        &&& self.broadcaster.inv()
        &&& self.broadcaster.latest <= self.store.generation
        &&& self.applying is Some <==> self.store.in_flight is Some
    }

    /// The change `event` would only repeat the document: it comes from the
    /// file, carries the current source, and that source is published.
    pub open spec fn repeats(self, event: ChangeEventView) -> bool {
        &&& event.origin == ChangeOrigin::FileChange
        &&& self.store.settled
        &&& event.payload == self.store.source
    }

    /// The pipeline after `event` was queued.
    pub open spec fn offered(self, event: ChangeEventView) -> SyncView {
        SyncView {
            queue: surviving(self.queue, event, self.debouncer.window).push(event),
            ..self
        }
    }

    /// The pipeline after the next change was asked for.
    pub open spec fn started(self) -> SyncView {
        if self.queue.len() == 0 {
            self
        } else if self.repeats(self.queue[0]) {
            SyncView { queue: self.queue.drop_first(), ..self }
        } else {
            SyncView {
                queue: self.queue.drop_first(),
                store: self.store.begin(self.queue[0].payload),
                applying: Some(self.queue[0].origin),
                ..self
            }
        }
    }

    /// What asking for the next change answers.
    pub open spec fn step(self) -> Step {
        if self.queue.len() == 0 {
            Step::Idle
        } else if self.repeats(self.queue[0]) {
            Step::Skipped
        } else {
            Step::Persist(self.queue[0].origin)
        }
    }

    /// The pipeline after each of `events` was offered, in order.
    pub open spec fn offered_all(self, events: Seq<ChangeEventView>) -> SyncView
        decreases events.len(),
    {
        if events.len() == 0 {
            self
        } else {
            self.offered_all(events.drop_last()).offered(events.last())
        }
    }

    /// The pipeline after everything that waits was applied and persisted,
    /// one change after the other, all at `now`.
    pub open spec fn settled(self, now: u64) -> SyncView
        decreases self.queue.len(),
    {
        if self.queue.len() == 0 {
            self
        } else if self.repeats(self.queue[0]) {
            self.started().settled(now)
        } else {
            self.started().completed(PersistOutcome::Written, now).settled(now)
        }
    }

    /// The pipeline after the change in flight ended with `outcome` at `now`.
    pub open spec fn completed(self, outcome: PersistOutcome, now: u64) -> SyncView {
        SyncView {
            store: self.store.finish(outcome),
            broadcaster: match outcome {
                PersistOutcome::Written => self.broadcaster.notify(
                    (self.store.generation + 1) as u64,
                    now,
                ),
                PersistOutcome::Failed => self.broadcaster,
            },
            applying: None,
            ..self
        }
    }
}

/// Who is told of a failure of a change from `origin`.
pub open spec fn trigger_of(origin: ChangeOrigin) -> Trigger {
    match origin {
        ChangeOrigin::FileChange => Trigger::Watcher,
        ChangeOrigin::EditSubmission => Trigger::Request,
    }
}

/// What set a change from `origin` off: the watcher, or a request whose
/// caller waits.
pub fn trigger_for(origin: ChangeOrigin) -> (t: Trigger)
    ensures
        t == trigger_of(origin),
{
    match origin {
        ChangeOrigin::FileChange => Trigger::Watcher,
        ChangeOrigin::EditSubmission => Trigger::Request,
    }
}

/// The live-synchronisation pipeline of one document.
pub struct LiveSync {
    store: DocumentStore,
    queue: ChangeQueue,
    debouncer: Debouncer,
    broadcaster: Broadcaster,
    applying: Option<ChangeOrigin>,
}

impl View for LiveSync {
    type V = SyncView;

    closed spec fn view(&self) -> SyncView {
        SyncView {
            store: self.store@,
            queue: self.queue@,
            debouncer: self.debouncer,
            broadcaster: self.broadcaster@,
            applying: self.applying,
        }
    }
}

impl LiveSync {
    /// Well-formedness. It implies the invariant of the view.
    pub closed spec fn inv(&self) -> bool {
        &&& self.store.inv()
        &&& self.broadcaster.inv()
        &&& self@.inv()
    }

    /// A well-formed pipeline has a well-formed view.
    pub proof fn lemma_view_inv(&self)
        requires
            self.inv(),
        ensures
            self@.inv(),
    {
    }

    /// A pipeline with an empty document at generation 0, no viewers and
    /// nothing queued. `window` is the quiet period of the debouncer and
    /// `timeout` the time a viewer may stay silent, both in milliseconds.
    pub fn new(window: u64, timeout: u64) -> (sync: LiveSync)
        ensures
            sync.inv(),
            sync@ == (SyncView {
                store: StoreView::initial(),
                queue: Seq::empty(),
                debouncer: Debouncer { window, deadline: None },
                broadcaster: BroadcasterView {
                    sessions: Map::empty(),
                    latest: 0,
                    next_id: 0,
                    timeout,
                },
                applying: None,
            }),
    {
        let broadcaster = Broadcaster::new(0, timeout);
        proof {
            broadcaster.lemma_view_inv();
        }
        LiveSync {
            store: DocumentStore::new(),
            queue: ChangeQueue::new(),
            debouncer: Debouncer::new(window),
            broadcaster,
            applying: None,
        }
    }

    /// The document store, to read from.
    pub fn store(&self) -> (store: &DocumentStore)
        ensures
            store@ == self@.store,
            self.inv() ==> store.inv(),
    {
        &self.store
    }

    /// The broadcaster, to read from.
    pub fn broadcaster(&self) -> (broadcaster: &Broadcaster)
        ensures
            broadcaster@ == self@.broadcaster,
            self.inv() ==> broadcaster.inv(),
    {
        &self.broadcaster
    }

    /// The number of changes that wait.
    pub fn queued(&self) -> (n: usize)
        ensures
            n == self@.queue.len(),
    {
        self.queue.len()
    }

    /// The artifact to serve, if one was published yet.
    pub fn current_artifact(&self) -> (artifact: Option<&RenderedArtifact>)
        ensures
            match artifact {
                Some(a) => self@.store.artifact == Some(a@),
                None => self@.store.artifact is None,
            },
    {
        self.store.current_artifact()
    }

    /// The origin of the change that is being applied, if one is.
    pub fn applying(&self) -> (origin: Option<ChangeOrigin>)
        ensures
            origin == self@.applying,
    {
        self.applying
    }

    /// The markup to persist, while a change is being applied.
    pub fn pending_markup(&self) -> (markup: Option<&str>)
        ensures
            match markup {
                Some(m) => self@.store.in_flight == Some(m@),
                None => self@.store.in_flight is None,
            },
    {
        self.store.in_flight_markup()
    }

    /// Takes note of a filesystem notification at `now`, and returns the
    /// moment at which to look at the clock again.
    pub fn file_event(&mut self, now: u64) -> (deadline: u64)
        requires
            old(self).inv(),
        ensures
            final(self).inv(),
            final(self)@ == (SyncView {
                debouncer: old(self)@.debouncer.touched(now),
                ..old(self)@
            }),
            deadline == old(self)@.debouncer.touched(now).deadline->0,
    {
        self.debouncer.file_event(now)
    }

    /// Looks at the clock at `now`. Returns true when the debounce window
    /// closes: the source file is then to be read and its content offered as
    /// a file change.
    pub fn tick(&mut self, now: u64) -> (fire: bool)
        requires
            old(self).inv(),
        ensures
            final(self).inv(),
            final(self)@ == (SyncView {
                debouncer: old(self)@.debouncer.ticked(now),
                ..old(self)@
            }),
            fire == old(self)@.debouncer.due(now),
    {
        self.debouncer.tick(now)
    }

    /// Offers the bytes of a change that arrived at `now`. Well-formed text
    /// is queued behind what waits, superseding the file changes of the same
    /// window. Anything else is an encoding failure and leaves the pipeline
    /// as it was.
    pub fn offer(&mut self, origin: ChangeOrigin, bytes: &[u8], now: u64) -> (result: Result<(), Failure>)
        requires
            old(self).inv(),
        ensures
            final(self).inv(),
            valid_utf8(bytes@) ==> result == Ok::<(), Failure>(())
                && final(self)@ == old(self)@.offered(
                ChangeEventView { origin, payload: decode_utf8(bytes@), timestamp: now },
            ),
            !valid_utf8(bytes@) ==> result == Err::<(), Failure>(Failure::Encoding)
                && final(self)@ == old(self)@,
    {
        match decode_text(bytes) {
            Ok(payload) => {
                let event = ChangeEvent { origin, payload, timestamp: now };
                self.queue.enqueue(event, self.debouncer.window);
                Ok(())
            },
            Err(failure) => Err(failure),
        }
    }

    /// Asks for the next change, when none is being applied. The change that
    /// has waited longest leaves the queue. If it would only repeat the
    /// document it is dropped; otherwise its text becomes the source and is
    /// rendered, and the markup waits to be persisted.
    pub fn start_next(&mut self) -> (step: Step)
        requires
            old(self).inv(),
            old(self)@.applying is None,
        ensures
            final(self).inv(),
            final(self)@ == old(self)@.started(),
            step == old(self)@.step(),
    {
        match self.queue.dequeue() {
            None => Step::Idle,
            Some(event) => {
                let from_file = match event.origin {
                    ChangeOrigin::FileChange => true,
                    ChangeOrigin::EditSubmission => false,
                };
                if from_file && self.store.is_settled() && self.store.source_is(&event.payload) {
                    Step::Skipped
                } else {
                    let origin = event.origin;
                    self.store.begin_change(event.payload);
                    self.applying = Some(origin);
                    Step::Persist(origin)
                }
            },
        }
    }

    /// Ends the change that is being applied, whose markup was or was not
    /// persisted, at `now`. A persisted change advances the generation, and
    /// the new generation is announced to every session; the push sessions to
    /// send it to are returned. A change that was not persisted announces
    /// nothing.
    pub fn complete(&mut self, outcome: PersistOutcome, now: u64) -> (done: Completion)
        requires
            old(self).inv(),
            old(self)@.applying is Some,
            old(self)@.store.generation < u64::MAX,
        ensures
            final(self).inv(),
            final(self)@ == old(self)@.completed(outcome, now),
            Some(done.origin) == old(self)@.applying,
            done.report == old(self)@.store.report(outcome),
            done.deliveries@.no_duplicates(),
            forall|id: u64|
                done.deliveries@.contains(id) <==> outcome == PersistOutcome::Written && final(self)@.broadcaster.owed(id),
    {
        let origin = match self.applying {
            Some(origin) => origin,
            None => ChangeOrigin::FileChange,
        };
        self.applying = None;
        let report = self.store.finish_change(outcome);
        let deliveries = match report {
            Ok(generation) => self.broadcaster.notify(generation, now),
            Err(_) => Vec::new(),
        };
        proof {
            self.broadcaster.lemma_view_inv();
        }
        Completion { origin, report, deliveries }
    }

    /// Admits a viewer at `now`, at the generation that is current.
    pub fn subscribe(&mut self, transport: Transport, now: u64) -> (session: ViewerSession)
        requires
            old(self).inv(),
            old(self)@.broadcaster.next_id < u64::MAX,
        ensures
            final(self).inv(),
            final(self)@ == (SyncView {
                broadcaster: old(self)@.broadcaster.subscribe(transport, now),
                ..old(self)@
            }),
            session == old(self)@.broadcaster.admitted(transport, now),
    {
        let session = self.broadcaster.subscribe(transport, now);
        proof {
            self.broadcaster.lemma_view_inv();
        }
        session
    }

    /// Removes the session `id`: its viewer left, or its transport failed.
    pub fn unsubscribe(&mut self, id: u64) -> (removed: bool)
        requires
            old(self).inv(),
        ensures
            final(self).inv(),
            final(self)@ == (SyncView {
                broadcaster: old(self)@.broadcaster.unsubscribe(id),
                ..old(self)@
            }),
            removed == old(self)@.broadcaster.sessions.contains_key(id),
    {
        let removed = self.broadcaster.unsubscribe(id);
        proof {
            self.broadcaster.lemma_view_inv();
        }
        removed
    }

    /// Answers a poll of the session `id` at `now`. A reply that reports a
    /// change names a generation that the published artifact has reached.
    pub fn poll(&mut self, id: u64, now: u64) -> (reply: PollReply)
        requires
            old(self).inv(),
        ensures
            final(self).inv(),
            final(self)@ == (SyncView {
                broadcaster: old(self)@.broadcaster.poll(id, now),
                ..old(self)@
            }),
            reply == old(self)@.broadcaster.poll_reply(id),
            reply matches PollReply::Changed(g) ==> final(self)@.store.artifact matches Some(a)
                && a.generation >= g,
    {
        let reply = self.broadcaster.poll(id, now);
        proof {
            self.broadcaster.lemma_view_inv();
        }
        reply
    }

    /// Records that the session `id` acknowledged `generation` at `now`.
    pub fn acknowledge(&mut self, id: u64, generation: u64, now: u64) -> (known: bool)
        requires
            old(self).inv(),
        ensures
            final(self).inv(),
            final(self)@ == (SyncView {
                broadcaster: old(self)@.broadcaster.acknowledge(id, generation, now),
                ..old(self)@
            }),
            known == old(self)@.broadcaster.sessions.contains_key(id),
    {
        let known = self.broadcaster.acknowledge(id, generation, now);
        proof {
            self.broadcaster.lemma_view_inv();
        }
        known
    }

    /// Removes the sessions whose timeout has run out at `now`, and returns
    /// their ids.
    pub fn purge_expired(&mut self, now: u64) -> (removed: Vec<u64>)
        requires
            old(self).inv(),
        ensures
            final(self).inv(),
            final(self)@ == (SyncView {
                broadcaster: old(self)@.broadcaster.purge(now),
                ..old(self)@
            }),
            removed@.no_duplicates(),
            forall|id: u64| removed@.contains(id) <==> old(self)@.broadcaster.timed_out(id, now),
    {
        let removed = self.broadcaster.purge_expired(now);
        proof {
            self.broadcaster.lemma_view_inv();
        }
        removed
    }
}

/// Every step of the pipeline keeps it well-formed.
pub proof fn lemma_steps_keep_inv(
    s: SyncView,
    event: ChangeEventView,
    outcome: PersistOutcome,
    now: u64,
)
    requires
        s.inv(),
    ensures
        s.offered(event).inv(),
        s.applying is None ==> s.started().inv(),
        s.applying is Some ==> s.completed(outcome, now).inv(),
{
    crate::broadcast::lemma_steps_keep_inv(
        s.broadcaster,
        0,
        (s.store.generation + 1) as u64,
        Transport::Poll,
        now,
    );
}

/// What a viewer is told of, it can fetch: the generation that a session has
/// acknowledged, and the generation that a poll reports, are never ahead of
/// the published artifact.
pub proof fn lemma_told_generation_can_be_fetched(s: SyncView, id: u64)
    requires
        s.inv(),
        s.broadcaster.sessions.contains_key(id),
    ensures
        s.broadcaster.sessions[id].last_acknowledged <= s.store.generation,
        s.broadcaster.poll_reply(id) matches PollReply::Changed(g) ==> s.store.artifact matches Some(
            a,
        ) && a.generation >= g,
        s.broadcaster.sessions[id].last_acknowledged > 0 ==> (s.store.artifact matches Some(a)
            && a.generation >= s.broadcaster.sessions[id].last_acknowledged),
{
}

/// A session that was connected before a change is notified of the
/// generation that results from it: when the change is persisted, the
/// session awaits exactly the new generation, a push session is among those
/// to send to, a poll is answered with it, and the artifact of that
/// generation, the render of the new source, is there to be fetched.
pub proof fn lemma_change_reaches_connected_session(s: SyncView, id: u64, now: u64)
    requires
        s.inv(),
        s.applying is Some,
        s.store.generation < u64::MAX,
        s.broadcaster.sessions.contains_key(id),
    ensures
        ({
            let after = s.completed(PersistOutcome::Written, now);
            let g = (s.store.generation + 1) as u64;
            &&& after.store.generation == g
            &&& after.broadcaster.latest == g
            &&& after.broadcaster.poll_reply(id) == PollReply::Changed(g)
            &&& s.broadcaster.sessions[id].transport == Transport::Push
                ==> after.broadcaster.owed(id)
            &&& after.store.artifact == Some(
                crate::document::ArtifactView {
                    markup: crate::render::rendered(s.store.source),
                    generation: g as nat,
                },
            )
        }),
{
}

/// A change that could not be persisted is not announced: no session is told
/// anything new, and the artifact that is served stays the last good one.
pub proof fn lemma_failed_change_is_not_announced(s: SyncView, now: u64)
    requires
        s.inv(),
        s.applying is Some,
    ensures
        s.completed(PersistOutcome::Failed, now).broadcaster == s.broadcaster,
        s.completed(PersistOutcome::Failed, now).store.artifact == s.store.artifact,
        s.completed(PersistOutcome::Failed, now).store.generation == s.store.generation,
        s.completed(PersistOutcome::Failed, now).store.source == s.store.source,
{
}

/// A file change that carries the text the document has already published
/// adds no generation: it leaves the queue and nothing else happens. An edit
/// submission with the same text is applied like any other.
pub proof fn lemma_repeated_file_content_adds_no_generation(s: SyncView)
    requires
        s.inv(),
        s.applying is None,
        s.queue.len() > 0,
        s.store.settled,
        s.queue[0].payload == s.store.source,
    ensures
        s.queue[0].origin == ChangeOrigin::FileChange ==> s.step() == Step::Skipped
            && s.started().store == s.store && s.started().broadcaster == s.broadcaster,
        s.queue[0].origin == ChangeOrigin::EditSubmission ==> s.step() == Step::Persist(
            ChangeOrigin::EditSubmission,
        ) && s.started().store == s.store.begin(s.store.source),
{
}

/// The later event wins: an event that is offered waits last, so it is
/// applied after everything that waited before it. What waited and is not
/// superseded still waits, every edit submission among it; the file changes
/// of the same window are gone.
pub proof fn lemma_later_event_wins(s: SyncView, event: ChangeEventView)
    ensures
        ({
            let before = s.queue;
            let after = s.offered(event).queue;
            let window = s.debouncer.window;
            &&& after.len() > 0
            &&& after.last() == event
            &&& after.len() <= before.len() + 1
            &&& forall|i: int|
                0 <= i < after.len() - 1 ==> !(#[trigger] after[i]).superseded_by(event, window)
                    && before.contains(after[i])
            &&& forall|i: int|
                0 <= i < before.len() && !(#[trigger] before[i]).superseded_by(event, window)
                    ==> after.contains(before[i])
            &&& forall|i: int|
                0 <= i < before.len() && (#[trigger] before[i]).origin
                    == ChangeOrigin::EditSubmission ==> after.contains(before[i])
        }),
{
    let before = s.queue;
    let window = s.debouncer.window;
    let keep = |e: ChangeEventView| !e.superseded_by(event, window);
    let kept = before.filter(keep);
    let after = s.offered(event).queue;
    assert(after == kept.push(event));
    before.lemma_filter_len(keep);
    assert forall|i: int| 0 <= i < after.len() - 1 implies !(#[trigger] after[i]).superseded_by(
        event,
        window,
    ) && before.contains(after[i]) by {
        before.lemma_filter_pred(keep, i);
        assert(kept.contains(kept[i]));
        before.lemma_filter_contains_rev(keep, kept[i]);
    }
    assert forall|i: int|
        0 <= i < before.len() && !(#[trigger] before[i]).superseded_by(
            event,
            window,
        ) implies after.contains(before[i]) by {
        before.lemma_filter_contains(keep, i);
        let k = choose|k: int| 0 <= k < kept.len() && kept[k] == before[i];
        assert(after[k] == before[i]);
    }
}

/// Offering events changes nothing but the queue, and the event offered last
/// waits last.
pub proof fn lemma_offered_all(s: SyncView, events: Seq<ChangeEventView>)
    ensures
        s.offered_all(events).store == s.store,
        s.offered_all(events).broadcaster == s.broadcaster,
        s.offered_all(events).applying == s.applying,
        s.offered_all(events).debouncer == s.debouncer,
        events.len() > 0 ==> s.offered_all(events).queue.len() > 0 && s.offered_all(
            events,
        ).queue.last() == events.last(),
    decreases events.len(),
{
    if events.len() > 0 {
        lemma_offered_all(s, events.drop_last());
    }
}

/// Applying everything that waits ends in the text that waited last: the
/// queue is empty, the source is that text, and the published artifact is
/// its render under the current generation.
pub proof fn lemma_settles_on_last_text(s: SyncView, now: u64)
    requires
        s.inv(),
        s.applying is None,
        s.queue.len() > 0,
    ensures
        s.settled(now).inv(),
        s.settled(now).queue.len() == 0,
        s.settled(now).applying is None,
        s.settled(now).store.source == s.queue.last().payload,
        s.settled(now).store.up_to_date(),
        s.settled(now).store.generation >= s.store.generation,
    decreases s.queue.len(),
{
    let first = s.queue[0];
    let next = if s.repeats(first) {
        s.started()
    } else {
        s.started().completed(PersistOutcome::Written, now)
    };
    lemma_steps_keep_inv(s, first, PersistOutcome::Written, now);
    lemma_steps_keep_inv(s.started(), first, PersistOutcome::Written, now);
    assert(next.queue == s.queue.drop_first());
    if s.queue.len() > 1 {
        assert(next.queue.last() == s.queue.last());
        lemma_settles_on_last_text(next, now);
    } else {
        assert(next.settled(now) == next);
    }
}

/// No lost final state: however many changes arrive in a burst, from the file
/// or as submissions, and however many of them are superseded on the way,
/// once all that waits is applied the document holds the text of the last
/// one and publishes its render.
pub proof fn lemma_burst_ends_in_last_text(s: SyncView, events: Seq<ChangeEventView>, now: u64)
    requires
        s.inv(),
        s.applying is None,
        events.len() > 0,
    ensures
        ({
            let after = s.offered_all(events).settled(now);
            &&& after.inv()
            &&& after.queue.len() == 0
            &&& after.store.source == events.last().payload
            &&& after.store.up_to_date()
            &&& after.store.artifact matches Some(a) && a.markup == crate::render::rendered(
                events.last().payload,
            )
        }),
{
    lemma_offered_all(s, events);
    lemma_settles_on_last_text(s.offered_all(events), now);
}

} // verus!
