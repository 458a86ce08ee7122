//! The change source adapter: two producers, one queue.
//!
//! Filesystem notifications come in bursts; the [`Debouncer`] collapses a
//! burst into one change once the file has been quiet for the length of the
//! window. Edit submissions skip the debouncer. Both end up in the
//! [`ChangeQueue`], which hands them to the document store one at a time, in
//! the order of their arrival.

use crate::failure::Failure;
use vstd::prelude::*;
use vstd::string::StringSliceAdditionalSpecFns;
use vstd::utf8::*;

verus! {

/// Where a change came from.
#[derive(Clone, Copy, Debug, PartialEq, Eq, Structural)]
pub enum ChangeOrigin {
    /// The watcher saw the source file change.
    FileChange,
    /// A request carried new text.
    EditSubmission,
}

/// One change to the document, waiting to be applied. Times are in
/// milliseconds.
#[derive(Clone, Debug, PartialEq, Eq)]
pub struct ChangeEvent {
    pub origin: ChangeOrigin,
    pub payload: String,
    pub timestamp: u64,
}

/// A [`ChangeEvent`] as a mathematical value.
pub struct ChangeEventView {
    pub origin: ChangeOrigin,
    pub payload: Seq<char>,
    pub timestamp: u64,
}

impl View for ChangeEvent {
    type V = ChangeEventView;

    open spec fn view(&self) -> ChangeEventView {
        ChangeEventView {
            origin: self.origin,
            payload: self.payload@,
            timestamp: self.timestamp,
        }
    }
}

impl ChangeEventView {
    /// A queued file change is superseded by any event that arrives within
    /// the debounce window after it. An edit submission is never superseded:
    /// its caller waits for the generation of that very submission.
    pub open spec fn superseded_by(self, newer: ChangeEventView, window: u64) -> bool {
        &&& self.origin == ChangeOrigin::FileChange
        &&& self.timestamp <= newer.timestamp
        &&& newer.timestamp - self.timestamp <= window
    }
}

impl ChangeEvent {
    /// Whether `self`, already queued, gives way to `newer`.
    pub fn is_superseded_by(&self, newer: &ChangeEvent, window: u64) -> (b: bool)
        ensures
            b == self@.superseded_by(newer@, window),
    {
        let from_file = match self.origin {
            ChangeOrigin::FileChange => true,
            ChangeOrigin::EditSubmission => false,
        };
        from_file && self.timestamp <= newer.timestamp && newer.timestamp - self.timestamp
            <= window
    }
}

/// Trusted: `std::str::from_utf8`. It succeeds exactly on well-formed UTF-8,
/// and the text it returns consists of the bytes it was given.
#[verifier::external_body]
fn from_utf8(bytes: &[u8]) -> (text: Option<&str>)
    ensures
        text is Some <==> valid_utf8(bytes@),
        text matches Some(t) ==> t.spec_bytes() == bytes@,
{
    std::str::from_utf8(bytes).ok()
}

/// Reads `bytes` as text. Bytes that are not well-formed UTF-8 are an
/// encoding failure; nothing is decoded leniently here.
pub fn decode_text(bytes: &[u8]) -> (result: Result<String, Failure>)
    ensures
        match result {
            Ok(text) => valid_utf8(bytes@) && text@ == decode_utf8(bytes@),
            Err(failure) => !valid_utf8(bytes@) && failure == Failure::Encoding,
        },
{
    match from_utf8(bytes) {
        Some(text) => {
            proof {
                encode_utf8_decode_utf8(text@);
            }
            Ok(text.to_owned())
        },
        None => Err(Failure::Encoding),
    }
}

/// The quiet period that a debouncer is given where nothing else is asked
/// for, in milliseconds.
pub const DEFAULT_WINDOW: u64 = 50;

/// The moment at which a file that changed at `now` has been quiet for
/// `window`. It stops at the largest representable time.
pub open spec fn quiet_at(now: u64, window: u64) -> u64 {
    if now + window > u64::MAX {
        u64::MAX
    } else {
        (now + window) as u64
    }
}

/// Collapses bursts of filesystem notifications. The window is open from the
/// first notification of a burst until the file has been quiet for `window`
/// milliseconds.
#[derive(Clone, Copy, Debug, PartialEq, Eq)]
pub struct Debouncer {
    /// The length of the quiet period, in milliseconds.
    pub window: u64,
    /// When the open window closes; none while no window is open.
    pub deadline: Option<u64>,
}

impl Debouncer {
    /// The debouncer after a notification at `now`: the window is open and
    /// the quiet period starts over.
    pub open spec fn touched(self, now: u64) -> Debouncer {
        Debouncer { window: self.window, deadline: Some(quiet_at(now, self.window)) }
    }

    /// The open window closes at or before `now`.
    pub open spec fn due(self, now: u64) -> bool {
        self.deadline matches Some(deadline) && now >= deadline
    }

    /// The debouncer after the clock was looked at, at `now`.
    pub open spec fn ticked(self, now: u64) -> Debouncer {
        if self.due(now) {
            Debouncer { window: self.window, deadline: None }
        } else {
            self
        }
    }

    /// The debouncer after a burst of notifications at the times `times`.
    pub open spec fn after_burst(self, times: Seq<u64>) -> Debouncer
        decreases times.len(),
    {
        if times.len() == 0 {
            self
        } else {
            self.after_burst(times.drop_last()).touched(times.last())
        }
    }

    /// A debouncer with no window open.
    pub fn new(window: u64) -> (d: Debouncer)
        ensures
            d == (Debouncer { window, deadline: None }),
    {
        Debouncer { window, deadline: None }
    }

    /// Whether a window is open.
    pub fn is_open(&self) -> (open: bool)
        ensures
            open == self.deadline is Some,
    {
        self.deadline.is_some()
    }

    /// Takes note of a filesystem notification at `now`, and returns the
    /// moment at which to look at the clock again.
    pub fn file_event(&mut self, now: u64) -> (deadline: u64)
        ensures
            *final(self) == old(self).touched(now),
            deadline == quiet_at(now, old(self).window),
    {
        let deadline = if self.window > u64::MAX - now {
            u64::MAX
        } else {
            now + self.window
        };
        self.deadline = Some(deadline);
        deadline
    }

    /// Looks at the clock at `now`. Returns true when the open window closes:
    /// then, and only then, the file is to be read and its content queued as
    /// one change.
    pub fn tick(&mut self, now: u64) -> (fire: bool)
        ensures
            *final(self) == old(self).ticked(now),
            fire == old(self).due(now),
    {
        match self.deadline {
            Some(deadline) => {
                if now >= deadline {
                    self.deadline = None;
                    true
                } else {
                    false
                }
            },
            None => false,
        }
    }
}

/// A burst collapses: however many notifications it holds, it leaves one
/// open window, and when that window closes depends on the last
/// notification alone.
pub proof fn lemma_burst_collapses(d: Debouncer, times: Seq<u64>)
    requires
        times.len() > 0,
    ensures
        d.after_burst(times) == (Debouncer {
            window: d.window,
            deadline: Some(quiet_at(times.last(), d.window)),
        }),
{
    lemma_burst_keeps_window(d, times.drop_last());
}

/// No notification changes the length of the window.
pub proof fn lemma_burst_keeps_window(d: Debouncer, times: Seq<u64>)
    ensures
        d.after_burst(times).window == d.window,
    decreases times.len(),
{
    if times.len() > 0 {
        lemma_burst_keeps_window(d, times.drop_last());
    }
}

/// One burst, one change: after a burst the window closes at the first look
/// at the clock once the file has been quiet for the window, not before, and
/// it does not close a second time.
pub proof fn lemma_burst_fires_once(d: Debouncer, times: Seq<u64>, now: u64, later: u64)
    requires
        times.len() > 0,
    ensures
        d.after_burst(times).due(now) <==> now >= quiet_at(times.last(), d.window),
        !d.after_burst(times).due(now) ==> d.after_burst(times).ticked(now) == d.after_burst(
            times,
        ),
        d.after_burst(times).due(now) ==> !d.after_burst(times).ticked(now).due(later),
{
    lemma_burst_collapses(d, times);
}

/// A change is picked up within one window: a file that changes at `at` and
/// then stays quiet is read at the first look at the clock from `at` plus the
/// window on.
pub proof fn lemma_quiet_file_is_read_within_window(d: Debouncer, at: u64, now: u64)
    requires
        at + d.window <= u64::MAX,
        now >= at + d.window,
    ensures
        d.touched(at).due(now),
{
}

/// The queue of changes that wait for the document store.
pub struct ChangeQueue {
    events: Vec<ChangeEvent>,
}

/// The events of `s` as mathematical values.
spec fn views(s: Seq<ChangeEvent>) -> Seq<ChangeEventView> {
    s.map_values(|e: ChangeEvent| e@)
}

/// What is left of the queue `queue` when `newer` arrives: the events that
/// `newer` does not supersede, in their order.
pub open spec fn surviving(
    queue: Seq<ChangeEventView>,
    newer: ChangeEventView,
    window: u64,
) -> Seq<ChangeEventView> {
    queue.filter(|e: ChangeEventView| !e.superseded_by(newer, window))
}

impl View for ChangeQueue {
    type V = Seq<ChangeEventView>;

    closed spec fn view(&self) -> Seq<ChangeEventView> {
        views(self.events@)
    }
}

impl ChangeQueue {
    /// An empty queue.
    pub fn new() -> (q: ChangeQueue)
        ensures
            q@ == Seq::<ChangeEventView>::empty(),
    {
        let q = ChangeQueue { events: Vec::new() };
        assert(q@ =~= Seq::<ChangeEventView>::empty());
        q
    }

    /// The number of changes that wait.
    pub fn len(&self) -> (n: usize)
        ensures
            n == self@.len(),
    {
        self.events.len()
    }

    /// Whether no change waits.
    pub fn is_empty(&self) -> (b: bool)
        ensures
            b == (self@.len() == 0),
    {
        self.events.len() == 0
    }

    /// Queues `event` behind everything that waits, and drops the waiting
    /// file changes that it supersedes.
    pub fn enqueue(&mut self, event: ChangeEvent, window: u64)
        ensures
            final(self)@ == surviving(old(self)@, event@, window).push(event@),
    {
        let ghost before = self@;
        let ghost keep = |e: ChangeEventView| !e.superseded_by(event@, window);
        let mut i: usize = 0;
        let mut done: Ghost<int> = Ghost(0);
        while i < self.events.len()
            invariant
                keep == |e: ChangeEventView| !e.superseded_by(event@, window),
                0 <= done@ <= before.len(),
                i == before.take(done@).filter(keep).len(),
                self@ =~= before.take(done@).filter(keep) + before.skip(done@),
            decreases before.len() - done@,
        {
            proof {
                assert(self@[i as int] == before.skip(done@)[0]);
                assert(before.take(done@ + 1) =~= before.take(done@).push(before[done@]));
                before.take(done@).lemma_filter_push(before[done@], keep);
            }
            let ghost here = self@;
            if self.events[i].is_superseded_by(&event, window) {
                self.events.remove(i);
                proof {
                    assert(self@ =~= here.remove(i as int));
                    assert(before.skip(done@ + 1) =~= before.skip(done@).remove(0));
                }
            } else {
                i += 1;
                proof {
                    assert(before.skip(done@) =~= seq![before[done@]] + before.skip(done@ + 1));
                }
            }
            proof {
                done@ = done@ + 1;
            }
        }
        proof {
            assert(before.take(done@) =~= before);
        }
        let ghost here = self@;
        self.events.push(event);
        assert(self@ =~= here.push(event@));
    }

    /// Takes the change that has waited longest.
    pub fn dequeue(&mut self) -> (event: Option<ChangeEvent>)
        ensures
            match event {
                Some(e) => old(self)@.len() > 0 && e@ == old(self)@[0]
                    && final(self)@ == old(self)@.drop_first(),
                None => old(self)@.len() == 0 && final(self)@ == old(self)@,
            },
    {
        if self.events.len() == 0 {
            None
        } else {
            let ghost here = self@;
            let e = self.events.remove(0);
            assert(self@ =~= here.drop_first());
            Some(e)
        }
    }
}

} // verus!
