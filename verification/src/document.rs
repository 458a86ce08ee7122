//! The document store: the current source text, its generation counter and
//! the latest rendered artifact.
//!
//! A change runs in two steps, because writing the artifact to disk lies
//! outside this crate. [`DocumentStore::begin_change`] accepts the new text and
//! renders it; the caller persists the markup in flight;
//! [`DocumentStore::finish_change`] is told how that went and, on success,
//! advances the generation and publishes the artifact. Between the two steps
//! readers see the new source beside the previous artifact.

use crate::failure::Failure;
use crate::render::{markdown_to_html, rendered};
use vstd::prelude::*;

verus! {

/// How the attempt to write an artifact to persistent storage ended.
#[derive(Clone, Copy, Debug, PartialEq, Eq, Structural)]
pub enum PersistOutcome {
    /// The artifact file was replaced as a whole.
    Written,
    /// Nothing was replaced.
    Failed,
}

/// A rendered document, together with the generation it belongs to.
#[derive(Clone, Debug, PartialEq, Eq)]
pub struct RenderedArtifact {
    pub markup: String,
    pub generation: u64,
}

/// A [`RenderedArtifact`] as a mathematical value.
pub struct ArtifactView {
    pub markup: Seq<char>,
    pub generation: nat,
}

impl View for RenderedArtifact {
    type V = ArtifactView;

    open spec fn view(&self) -> ArtifactView {
        ArtifactView { markup: self.markup@, generation: self.generation as nat }
    }
}

/// One change to the document, with the way its persistence ended.
pub struct Change {
    pub text: Seq<char>,
    pub outcome: PersistOutcome,
}

/// A [`DocumentStore`] as a mathematical value.
pub struct StoreView {
    /// The latest accepted source text.
    pub source: Seq<char>,
    /// The number of renders that were completed and persisted.
    pub generation: nat,
    /// The latest published artifact; none before the first one.
    pub artifact: Option<ArtifactView>,
    /// The source snapshot that the published artifact was rendered from.
    pub rendered_from: Seq<char>,
    /// The markup of a render that is waiting to be persisted.
    pub in_flight: Option<Seq<char>>,
    /// The last change has been persisted: the published artifact was
    /// rendered from the current source.
    pub settled: bool,
}

impl StoreView {
    /// A store that has seen no change.
    pub open spec fn initial() -> StoreView {
        StoreView {
            source: Seq::empty(),
            generation: 0,
            artifact: None,
            rendered_from: Seq::empty(),
            in_flight: None,
            settled: false,
        }
    }

    /// What holds of every store: there is an artifact exactly from the first
    /// generation on, it carries the store's generation and is the render of
    /// one source snapshot, and a render in flight is a render of the current
    /// source.
    pub open spec fn inv(self) -> bool {
        &&& self.artifact is None <==> self.generation == 0
        &&& self.artifact matches Some(a) ==> a.generation == self.generation && a.markup
            == rendered(self.rendered_from)
        &&& self.in_flight matches Some(markup) ==> markup == rendered(self.source)
        &&& self.settled ==> self.in_flight is None && self.artifact is Some && self.rendered_from
            == self.source
    }

    /// The store after `text` was accepted and rendered.
    pub open spec fn begin(self, text: Seq<char>) -> StoreView {
        StoreView { source: text, in_flight: Some(rendered(text)), settled: false, ..self }
    }

    /// The store after the render in flight was persisted, or failed to be.
    pub open spec fn finish(self, outcome: PersistOutcome) -> StoreView {
        match (self.in_flight, outcome) {
            (Some(markup), PersistOutcome::Written) => StoreView {
                source: self.source,
                generation: self.generation + 1,
                artifact: Some(ArtifactView { markup, generation: self.generation + 1 }),
                rendered_from: self.source,
                in_flight: None,
                settled: true,
            },
            _ => StoreView { in_flight: None, ..self },
        }
    }

    /// What the caller that triggered the change is told.
    pub open spec fn report(self, outcome: PersistOutcome) -> Result<u64, Failure> {
        match outcome {
            PersistOutcome::Written => Ok((self.generation + 1) as u64),
            PersistOutcome::Failed => Err(Failure::Persist),
        }
    }

    /// The store after one whole change.
    pub open spec fn change(self, c: Change) -> StoreView {
        self.begin(c.text).finish(c.outcome)
    }

    /// The store after a sequence of changes, applied one after the other.
    pub open spec fn run(self, changes: Seq<Change>) -> StoreView
        decreases changes.len(),
    {
        if changes.len() == 0 {
            self
        } else {
            self.run(changes.drop_last()).change(changes.last())
        }
    }

    /// The generations that the successful changes among `changes` report, in
    /// order.
    pub open spec fn observed(self, changes: Seq<Change>) -> Seq<nat>
        decreases changes.len(),
    {
        if changes.len() == 0 {
            Seq::empty()
        } else {
            let before = self.observed(changes.drop_last());
            if changes.last().outcome == PersistOutcome::Written {
                before.push(self.run(changes.drop_last()).generation + 1)
            } else {
                before
            }
        }
    }

    /// True when the published artifact is a render of the current source.
    pub open spec fn up_to_date(self) -> bool {
        self.artifact == Some(
            ArtifactView { markup: rendered(self.source), generation: self.generation },
        )
    }
}

/// How many of `changes` were persisted.
pub open spec fn successes(changes: Seq<Change>) -> nat
    decreases changes.len(),
{
    if changes.len() == 0 {
        0
    } else {
        successes(changes.drop_last()) + if changes.last().outcome == PersistOutcome::Written {
            1nat
        } else {
            0nat
        }
    }
}

/// The one live document of a process.
pub struct DocumentStore {
    source_text: String,
    generation: u64,
    artifact: Option<RenderedArtifact>,
    rendered_from: Ghost<Seq<char>>,
    in_flight: Option<String>,
    settled: bool,
}

impl View for DocumentStore {
    type V = StoreView;

    closed spec fn view(&self) -> StoreView {
        StoreView {
            source: self.source_text@,
            generation: self.generation as nat,
            artifact: match self.artifact {
                Some(a) => Some(a@),
                None => None,
            },
            rendered_from: self.rendered_from@,
            in_flight: match self.in_flight {
                Some(markup) => Some(markup@),
                None => None,
            },
            settled: self.settled,
        }
    }
}

impl DocumentStore {
    /// Well-formedness: the invariant of the store's view.
    pub open spec fn inv(&self) -> bool {
        self@.inv()
    }

    /// A store with an empty source, at generation 0, with no artifact.
    pub fn new() -> (store: DocumentStore)
        ensures
            store@ == StoreView::initial(),
            store.inv(),
    {
        DocumentStore {
            source_text: String::new(),
            generation: 0,
            artifact: None,
            rendered_from: Ghost(Seq::empty()),
            in_flight: None,
            settled: false,
        }
    }

    /// The latest accepted source text. It runs ahead of the artifact while a
    /// render is in flight, and after a change that could not be persisted.
    pub fn current_source(&self) -> (text: &str)
        ensures
            text@ == self@.source,
    {
        self.source_text.as_str()
    }

    /// The number of changes that were rendered and persisted so far.
    pub fn generation(&self) -> (g: u64)
        ensures
            g == self@.generation,
    {
        self.generation
    }

    /// The latest published artifact. A render in flight does not show here.
    pub fn current_artifact(&self) -> (artifact: Option<&RenderedArtifact>)
        ensures
            match artifact {
                Some(a) => self@.artifact == Some(a@),
                None => self@.artifact is None,
            },
    {
        self.artifact.as_ref()
    }

    /// Whether the last change has been persisted, so that the published
    /// artifact is the render of the current source.
    pub fn is_settled(&self) -> (b: bool)
        ensures
            b == self@.settled,
    {
        self.settled
    }

    /// Whether `text` is the current source.
    pub fn source_is(&self, text: &String) -> (b: bool)
        ensures
            b == (self@.source == text@),
    {
        self.source_text == *text
    }

    /// Whether a render waits to be persisted.
    pub fn render_in_flight(&self) -> (b: bool)
        ensures
            b == self@.in_flight is Some,
    {
        self.in_flight.is_some()
    }

    /// The markup that waits to be persisted, if a render is in flight.
    pub fn in_flight_markup(&self) -> (markup: Option<&str>)
        ensures
            match markup {
                Some(m) => self@.in_flight == Some(m@),
                None => self@.in_flight is None,
            },
    {
        match &self.in_flight {
            Some(m) => Some(m.as_str()),
            None => None,
        }
    }

    /// Accepts `new_text` as the source and renders it. The generation and the
    /// published artifact stay as they are until the render is finished; a
    /// render that was still in flight is superseded.
    pub fn begin_change(&mut self, new_text: String)
        requires
            old(self).inv(),
        ensures
            final(self)@ == old(self)@.begin(new_text@),
            final(self).inv(),
    {
        let markup = markdown_to_html(new_text.as_str());
        self.source_text = new_text;
        self.in_flight = Some(markup);
        self.settled = false;
    }

    /// Ends the change in flight. If its markup was written, the generation
    /// advances by one and the markup becomes the published artifact of that
    /// generation, which is reported. If not, generation and artifact stay,
    /// the source keeps the new text, and the failure is reported.
    pub fn finish_change(&mut self, outcome: PersistOutcome) -> (report: Result<u64, Failure>)
        requires
            old(self).inv(),
            old(self)@.in_flight is Some,
            old(self)@.generation < u64::MAX,
        ensures
            final(self)@ == old(self)@.finish(outcome),
            report == old(self)@.report(outcome),
            final(self).inv(),
    {
        let pending = self.in_flight.take();
        match (pending, outcome) {
            (Some(markup), PersistOutcome::Written) => {
                let generation = self.generation + 1;
                self.generation = generation;
                self.artifact = Some(RenderedArtifact { markup, generation });
                self.rendered_from = Ghost(self.source_text@);
                self.settled = true;
                Ok(generation)
            },
            _ => Err(Failure::Persist),
        }
    }
}

/// A settled store is up to date: what it publishes is the render of its
/// current source, under its current generation.
pub proof fn lemma_settled_is_up_to_date(s: StoreView)
    requires
        s.inv(),
        s.settled,
    ensures
        s.up_to_date(),
{
}

/// Both steps of a change keep the store well-formed.
pub proof fn lemma_change_keeps_inv(s: StoreView, c: Change)
    requires
        s.inv(),
    ensures
        s.begin(c.text).inv(),
        s.begin(c.text).finish(c.outcome).inv(),
        s.change(c).inv(),
{
}

/// Every sequence of changes keeps the store well-formed.
pub proof fn lemma_run_keeps_inv(s: StoreView, changes: Seq<Change>)
    requires
        s.inv(),
    ensures
        s.run(changes).inv(),
    decreases changes.len(),
{
    if changes.len() > 0 {
        lemma_run_keeps_inv(s, changes.drop_last());
        lemma_change_keeps_inv(s.run(changes.drop_last()), changes.last());
    }
}

/// Round trip: once a text is submitted it is the current source, from the
/// moment it is accepted and whether or not its artifact could be persisted.
pub proof fn lemma_submitted_text_is_current_source(s: StoreView, c: Change)
    ensures
        s.begin(c.text).source == c.text,
        s.change(c).source == c.text,
{
}

/// A change that is persisted advances the generation by exactly one and
/// publishes the render of the submitted text under the new generation. A
/// change that is not persisted leaves generation and artifact alone.
pub proof fn lemma_change_step(s: StoreView, c: Change)
    ensures
        c.outcome == PersistOutcome::Written ==> s.change(c).generation == s.generation + 1
            && s.change(c).up_to_date(),
        c.outcome == PersistOutcome::Written ==> s.change(c).settled,
        c.outcome == PersistOutcome::Failed ==> s.change(c).generation == s.generation
            && s.change(c).artifact == s.artifact && s.change(c).rendered_from
            == s.rendered_from && !s.change(c).settled,
{
}

/// Submitting the text that is already current is still a full cycle: the
/// markup stays what it was, the generation advances.
pub proof fn lemma_resubmission_advances(s: StoreView)
    requires
        s.inv(),
        s.up_to_date(),
    ensures
        ({
            let again = s.change(Change { text: s.source, outcome: PersistOutcome::Written });
            &&& again.generation == s.generation + 1
            &&& again.source == s.source
            &&& again.artifact matches Some(a) && s.artifact matches Some(b) && a.markup
                == b.markup
        }),
{
}

/// Monotonic generation: over any sequence of changes the generations that
/// are reported start one above the generation before the sequence and go up
/// by exactly one from each to the next, so none repeats and none is skipped;
/// there are as many as changes were persisted, and the store ends that many
/// generations further on.
pub proof fn lemma_generations_are_consecutive(s: StoreView, changes: Seq<Change>)
    ensures
        s.observed(changes).len() == successes(changes),
        s.run(changes).generation == s.generation + successes(changes),
        forall|i: int|
            0 <= i < s.observed(changes).len() ==> #[trigger] s.observed(changes)[i]
                == s.generation + 1 + i,
        forall|i: int, j: int|
            0 <= i < j < s.observed(changes).len() ==> s.observed(changes)[i] < s.observed(
                changes,
            )[j],
    decreases changes.len(),
{
    if changes.len() > 0 {
        lemma_generations_are_consecutive(s, changes.drop_last());
    }
}

/// The generation never decreases, whatever happens to a sequence of changes.
pub proof fn lemma_generation_never_decreases(s: StoreView, changes: Seq<Change>)
    ensures
        s.run(changes).generation >= s.generation,
{
    lemma_generations_are_consecutive(s, changes);
}

/// No lost final state: after a burst of changes whose last one is persisted,
/// the source is the last text and the published artifact is its render. The
/// changes before the last one leave their mark on the generation only, so
/// two bursts that end alike publish the same markup, however many of the
/// earlier ones were coalesced away.
pub proof fn lemma_last_change_wins(s: StoreView, changes: Seq<Change>)
    requires
        changes.len() > 0,
        changes.last().outcome == PersistOutcome::Written,
    ensures
        s.run(changes).source == changes.last().text,
        s.run(changes).up_to_date(),
        s.run(changes).in_flight is None,
        s.run(changes).artifact matches Some(a) && a.markup == rendered(changes.last().text),
{
}

/// Coalescing a burst down to its last change publishes the same markup as
/// applying every change of it.
pub proof fn lemma_coalesced_burst_publishes_same_markup(s: StoreView, changes: Seq<Change>)
    requires
        changes.len() > 0,
        changes.last().outcome == PersistOutcome::Written,
    ensures
        s.run(changes).source == s.change(changes.last()).source,
        s.run(changes).artifact matches Some(a) && s.change(changes.last()).artifact matches Some(
            b,
        ) && a.markup == b.markup,
{
    lemma_last_change_wins(s, changes);
}

} // verus!
