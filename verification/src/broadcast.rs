//! The notification broadcaster: the set of live viewer sessions, and the
//! fan-out of each new generation to all of them.
//!
//! Announcing a generation changes state and nothing else, so it can never
//! wait for a viewer. It hands back the push sessions to send to; the sending
//! is the caller's, and a send that fails ends in `unsubscribe`.

use crate::session::{PollReply, SessionState, Transport, ViewerSession};
use vstd::prelude::*;

verus! {

/// A [`Broadcaster`] as a mathematical value.
#[verifier::ext_equal]
pub struct BroadcasterView {
    /// The live sessions, by id.
    pub sessions: Map<u64, ViewerSession>,
    /// The newest generation that was announced.
    pub latest: u64,
    /// The id that the next subscriber gets.
    pub next_id: u64,
    /// How long a session may stay silent, in milliseconds.
    pub timeout: u64,
}

impl BroadcasterView {
    /// What holds of every broadcaster: a session is filed under its own id,
    /// ids below `next_id` only are in use, and no session has acknowledged
    /// more than was announced.
    pub open spec fn inv(self) -> bool {
        forall|id: u64| #[trigger]
            self.sessions.contains_key(id) ==> {
                &&& self.sessions[id].id == id
                &&& id < self.next_id
                &&& self.sessions[id].last_acknowledged <= self.latest
            }
    }

    /// The session that a subscriber at `now` is given: it starts out having
    /// acknowledged the generation that is current at that moment.
    pub open spec fn admitted(self, transport: Transport, now: u64) -> ViewerSession {
        ViewerSession {
            id: self.next_id,
            last_acknowledged: self.latest,
            transport,
            last_seen: now,
        }
    }

    /// The broadcaster after a viewer was admitted at `now`.
    pub open spec fn subscribe(self, transport: Transport, now: u64) -> BroadcasterView {
        BroadcasterView {
            sessions: self.sessions.insert(self.next_id, self.admitted(transport, now)),
            next_id: (self.next_id + 1) as u64,
            ..self
        }
    }

    /// The broadcaster without the session `id`.
    pub open spec fn unsubscribe(self, id: u64) -> BroadcasterView {
        BroadcasterView { sessions: self.sessions.remove(id), ..self }
    }

    /// The broadcaster after `generation` was announced at `now`. An older
    /// generation than the latest changes nothing.
    pub open spec fn notify(self, generation: u64, now: u64) -> BroadcasterView {
        BroadcasterView {
            sessions: self.sessions.map_values(
                |s: ViewerSession| s.announced(self.latest, generation, now),
            ),
            latest: if generation > self.latest {
                generation
            } else {
                self.latest
            },
            ..self
        }
    }

    /// Whether `id` is a push session that is owed the latest generation.
    pub open spec fn owed(self, id: u64) -> bool {
        &&& self.sessions.contains_key(id)
        &&& self.sessions[id].transport == Transport::Push
        &&& self.sessions[id].awaiting(self.latest)
    }

    /// The broadcaster after the session `id` asked at `now`.
    pub open spec fn poll(self, id: u64, now: u64) -> BroadcasterView {
        if self.sessions.contains_key(id) {
            BroadcasterView {
                sessions: self.sessions.insert(id, self.sessions[id].polled(self.latest, now)),
                ..self
            }
        } else {
            self
        }
    }

    /// What the session `id` is told when it asks.
    pub open spec fn poll_reply(self, id: u64) -> PollReply {
        if !self.sessions.contains_key(id) {
            PollReply::UnknownSession
        } else if self.sessions[id].awaiting(self.latest) {
            PollReply::Changed(self.latest)
        } else {
            PollReply::Unchanged
        }
    }

    /// The broadcaster after the session `id` acknowledged `generation` at
    /// `now`.
    pub open spec fn acknowledge(self, id: u64, generation: u64, now: u64) -> BroadcasterView {
        if self.sessions.contains_key(id) {
            BroadcasterView {
                sessions: self.sessions.insert(
                    id,
                    self.sessions[id].acknowledged(self.latest, generation, now),
                ),
                ..self
            }
        } else {
            self
        }
    }

    /// Whether the session `id` is live and its timeout has run out at `now`.
    pub open spec fn timed_out(self, id: u64, now: u64) -> bool {
        self.sessions.contains_key(id) && self.sessions[id].expired(
            self.latest,
            now,
            self.timeout,
        )
    }

    /// The broadcaster without the sessions whose timeout has run out.
    pub open spec fn purge(self, now: u64) -> BroadcasterView {
        BroadcasterView {
            sessions: Map::new(
                |id: u64| self.sessions.contains_key(id) && !self.timed_out(id, now),
                |id: u64| self.sessions[id],
            ),
            ..self
        }
    }

    /// Where the session `id` stands in the protocol. A session that is not
    /// live is disconnected.
    pub open spec fn state_of(self, id: u64) -> SessionState {
        if self.sessions.contains_key(id) {
            self.sessions[id].state(self.latest)
        } else {
            SessionState::Disconnected
        }
    }
}

/// Whether one of `s` has the id `id`.
spec fn has_id(s: Seq<ViewerSession>, id: u64) -> bool {
    exists|i: int| 0 <= i < s.len() && #[trigger] s[i].id == id
}

/// Where in `s` the session with the id `id` stands.
spec fn position(s: Seq<ViewerSession>, id: u64) -> int {
    choose|i: int| 0 <= i < s.len() && #[trigger] s[i].id == id
}

/// No two of `s` share an id.
spec fn distinct(s: Seq<ViewerSession>) -> bool {
    forall|i: int, j: int| 0 <= i < j < s.len() ==> #[trigger] s[i].id != #[trigger] s[j].id
}

/// The sessions of `s`, by id.
spec fn by_id(s: Seq<ViewerSession>) -> Map<u64, ViewerSession> {
    Map::new(|id: u64| has_id(s, id), |id: u64| s[position(s, id)])
}

proof fn lemma_at(s: Seq<ViewerSession>, i: int)
    requires
        distinct(s),
        0 <= i < s.len(),
    ensures
        has_id(s, s[i].id),
        position(s, s[i].id) == i,
        by_id(s).contains_key(s[i].id),
        by_id(s)[s[i].id] == s[i],
{
    let id = s[i].id;
    assert(has_id(s, id));
    let p = position(s, id);
    assert(0 <= p < s.len() && s[p].id == id);
    if p < i {
        assert(s[p].id != s[i].id);
    } else if i < p {
        assert(s[i].id != s[p].id);
    }
}

proof fn lemma_found(s: Seq<ViewerSession>, id: u64)
    requires
        distinct(s),
        has_id(s, id),
    ensures
        0 <= position(s, id) < s.len(),
        s[position(s, id)].id == id,
        by_id(s)[id] == s[position(s, id)],
{
}

proof fn lemma_push(s: Seq<ViewerSession>, x: ViewerSession)
    requires
        distinct(s),
        !has_id(s, x.id),
    ensures
        distinct(s.push(x)),
        by_id(s.push(x)) =~= by_id(s).insert(x.id, x),
{
    let t = s.push(x);
    assert forall|i: int, j: int| 0 <= i < j < t.len() implies #[trigger] t[i].id
        != #[trigger] t[j].id by {
        if j == s.len() {
            assert(s[i].id != x.id);
        } else {
            assert(s[i].id != s[j].id);
        }
    }
    assert forall|id: u64| #[trigger] by_id(t).contains_key(id) <==> by_id(s).insert(
        x.id,
        x,
    ).contains_key(id) by {
        if has_id(t, id) {
            let i = position(t, id);
            if i < s.len() {
                assert(s[i].id == id);
            }
        }
        if has_id(s, id) {
            let i = position(s, id);
            assert(t[i].id == id);
        }
        if id == x.id {
            assert(t[s.len() as int].id == id);
        }
    }
    assert forall|id: u64| #[trigger] by_id(t).contains_key(id) implies by_id(t)[id] == by_id(
        s,
    ).insert(x.id, x)[id] by {
        let i = position(t, id);
        lemma_found(t, id);
        if i < s.len() {
            assert(s[i].id == id);
            lemma_at(s, i);
        }
    }
}

proof fn lemma_update(s: Seq<ViewerSession>, i: int, y: ViewerSession)
    requires
        distinct(s),
        0 <= i < s.len(),
        y.id == s[i].id,
    ensures
        distinct(s.update(i, y)),
        by_id(s.update(i, y)) =~= by_id(s).insert(y.id, y),
{
    let t = s.update(i, y);
    assert forall|a: int, b: int| 0 <= a < b < t.len() implies #[trigger] t[a].id
        != #[trigger] t[b].id by {
        assert(s[a].id != s[b].id);
    }
    assert forall|id: u64| #[trigger] by_id(t).contains_key(id) <==> by_id(s).insert(
        y.id,
        y,
    ).contains_key(id) by {
        if has_id(t, id) {
            let k = position(t, id);
            assert(s[k].id == id);
        }
        if has_id(s, id) {
            let k = position(s, id);
            assert(t[k].id == id);
        }
        if id == y.id {
            assert(t[i].id == id);
        }
    }
    assert forall|id: u64| #[trigger] by_id(t).contains_key(id) implies by_id(t)[id] == by_id(
        s,
    ).insert(y.id, y)[id] by {
        let k = position(t, id);
        lemma_found(t, id);
        lemma_at(t, k);
        lemma_at(s, k);
    }
}

proof fn lemma_remove(s: Seq<ViewerSession>, i: int)
    requires
        distinct(s),
        0 <= i < s.len(),
    ensures
        distinct(s.remove(i)),
        by_id(s.remove(i)) =~= by_id(s).remove(s[i].id),
{
    let t = s.remove(i);
    assert forall|a: int, b: int| 0 <= a < b < t.len() implies #[trigger] t[a].id
        != #[trigger] t[b].id by {
        let sa = if a < i { a } else { a + 1 };
        let sb = if b < i { b } else { b + 1 };
        assert(t[a] == s[sa] && t[b] == s[sb]);
        assert(s[sa].id != s[sb].id);
    }
    assert forall|id: u64| #[trigger] by_id(t).contains_key(id) <==> by_id(s).remove(
        s[i].id,
    ).contains_key(id) by {
        if has_id(t, id) {
            let k = position(t, id);
            let sk = if k < i { k } else { k + 1 };
            assert(t[k] == s[sk]);
            assert(s[sk].id == id);
            if sk < i {
                assert(s[sk].id != s[i].id);
            } else {
                assert(s[i].id != s[sk].id);
            }
        }
        if has_id(s, id) && id != s[i].id {
            let k = position(s, id);
            let tk = if k < i { k } else { k - 1 };
            assert(t[tk] == s[k]);
            assert(t[tk].id == id);
        }
    }
    assert forall|id: u64| #[trigger] by_id(t).contains_key(id) implies by_id(t)[id] == by_id(
        s,
    ).remove(s[i].id)[id] by {
        let k = position(t, id);
        lemma_found(t, id);
        let sk = if k < i { k } else { k + 1 };
        assert(t[k] == s[sk]);
        lemma_at(s, sk);
    }
}

/// Changing each session of `s` by a function that keeps ids changes the map
/// of them value by value.
proof fn lemma_pointwise(
    s: Seq<ViewerSession>,
    t: Seq<ViewerSession>,
    f: spec_fn(ViewerSession) -> ViewerSession,
)
    requires
        distinct(s),
        t.len() == s.len(),
        forall|i: int| 0 <= i < s.len() ==> #[trigger] t[i] == f(s[i]) && f(s[i]).id == s[i].id,
    ensures
        distinct(t),
        by_id(t) =~= by_id(s).map_values(f),
{
    assert forall|a: int, b: int| 0 <= a < b < t.len() implies #[trigger] t[a].id
        != #[trigger] t[b].id by {
        assert(t[a] == f(s[a]) && t[b] == f(s[b]));
        assert(s[a].id != s[b].id);
    }
    assert forall|id: u64| #[trigger] by_id(t).contains_key(id) <==> by_id(s).map_values(
        f,
    ).contains_key(id) by {
        if has_id(t, id) {
            let k = position(t, id);
            assert(t[k] == f(s[k]));
            assert(s[k].id == id);
        }
        if has_id(s, id) {
            let k = position(s, id);
            assert(t[k] == f(s[k]));
            assert(t[k].id == id);
        }
    }
    assert forall|id: u64| #[trigger] by_id(t).contains_key(id) implies by_id(t)[id] == by_id(
        s,
    ).map_values(f)[id] by {
        let k = position(t, id);
        lemma_found(t, id);
        assert(t[k] == f(s[k]));
        lemma_at(s, k);
    }
}

/// One of the first `n` of `s` has the id `id` and satisfies `p`.
spec fn id_among(s: Seq<ViewerSession>, n: int, id: u64, p: spec_fn(ViewerSession) -> bool) -> bool {
    exists|j: int| 0 <= j < n && j < s.len() && (#[trigger] s[j]).id == id && p(s[j])
}

/// `ids` holds the ids of those of the first `n` of `s` that satisfy `p`, and
/// holds each once.
spec fn collected(
    s: Seq<ViewerSession>,
    n: int,
    p: spec_fn(ViewerSession) -> bool,
    ids: Seq<u64>,
) -> bool {
    &&& ids.no_duplicates()
    &&& forall|k: int| 0 <= k < ids.len() ==> id_among(s, n, #[trigger] ids[k], p)
    &&& forall|j: int| 0 <= j < n && j < s.len() && p(#[trigger] s[j]) ==> ids.contains(s[j].id)
}

/// One more session looked at: its id is added if it satisfies `p`.
proof fn lemma_collected(
    s: Seq<ViewerSession>,
    n: int,
    p: spec_fn(ViewerSession) -> bool,
    ids: Seq<u64>,
    more: Seq<u64>,
)
    requires
        distinct(s),
        0 <= n < s.len(),
        collected(s, n, p, ids),
        more == if p(s[n]) {
            ids.push(s[n].id)
        } else {
            ids
        },
    ensures
        collected(s, n + 1, p, more),
{
    assert forall|k: int| 0 <= k < ids.len() implies ids[k] != s[n].id && id_among(
        s,
        n + 1,
        #[trigger] ids[k],
        p,
    ) by {
        assert(id_among(s, n, ids[k], p));
        let j = choose|j: int| 0 <= j < n && j < s.len() && (#[trigger] s[j]).id == ids[k] && p(s[j]);
        assert(s[j].id != s[n].id);
    }
    assert forall|k: int| 0 <= k < more.len() implies id_among(s, n + 1, #[trigger] more[k], p) by {
        if k < ids.len() {
            assert(more[k] == ids[k]);
        } else {
            assert(s[n].id == more[k]);
        }
    }
    assert forall|j: int| 0 <= j < n + 1 && p(#[trigger] s[j]) implies more.contains(s[j].id) by {
        if j < n {
            let k = choose|k: int| 0 <= k < ids.len() && ids[k] == s[j].id;
            assert(more[k] == s[j].id);
        } else {
            assert(more[ids.len() as int] == s[j].id);
        }
    }
}

/// Once every session was looked at, `ids` holds exactly the ids under which
/// the map of `s` has a session that satisfies `p`.
proof fn lemma_collected_all(s: Seq<ViewerSession>, p: spec_fn(ViewerSession) -> bool, ids: Seq<u64>)
    requires
        distinct(s),
        collected(s, s.len() as int, p, ids),
    ensures
        forall|id: u64| ids.contains(id) <==> by_id(s).contains_key(id) && p(by_id(s)[id]),
{
    assert forall|id: u64| ids.contains(id) <==> by_id(s).contains_key(id) && p(by_id(s)[id]) by {
        if ids.contains(id) {
            let k = choose|k: int| 0 <= k < ids.len() && ids[k] == id;
            assert(id_among(s, s.len() as int, ids[k], p));
            let j = choose|j: int|
                0 <= j < s.len() && j < s.len() && (#[trigger] s[j]).id == id && p(s[j]);
            lemma_at(s, j);
        }
        if by_id(s).contains_key(id) && p(by_id(s)[id]) {
            lemma_found(s, id);
            assert(p(s[position(s, id)]));
        }
    }
}

/// One of the first `n` of `s` is `x`.
spec fn among(s: Seq<ViewerSession>, n: int, x: ViewerSession) -> bool {
    exists|j: int| 0 <= j < n && j < s.len() && #[trigger] s[j] == x
}

/// `kept` holds those of the first `n` of `s` that do not satisfy `gone`, and
/// no others.
spec fn retained(
    s: Seq<ViewerSession>,
    n: int,
    gone: spec_fn(ViewerSession) -> bool,
    kept: Seq<ViewerSession>,
) -> bool {
    &&& distinct(kept)
    &&& forall|k: int| 0 <= k < kept.len() ==> among(s, n, #[trigger] kept[k]) && !gone(kept[k])
    &&& forall|j: int| 0 <= j < n && j < s.len() && !gone(#[trigger] s[j]) ==> kept.contains(s[j])
}

/// One more session looked at: it is kept unless it satisfies `gone`.
proof fn lemma_retained(
    s: Seq<ViewerSession>,
    n: int,
    gone: spec_fn(ViewerSession) -> bool,
    kept: Seq<ViewerSession>,
    more: Seq<ViewerSession>,
)
    requires
        distinct(s),
        0 <= n < s.len(),
        retained(s, n, gone, kept),
        more == if gone(s[n]) {
            kept
        } else {
            kept.push(s[n])
        },
    ensures
        retained(s, n + 1, gone, more),
{
    assert forall|k: int| 0 <= k < kept.len() implies kept[k].id != s[n].id && among(
        s,
        n + 1,
        #[trigger] kept[k],
    ) by {
        assert(among(s, n, kept[k]));
        let j = choose|j: int| 0 <= j < n && j < s.len() && #[trigger] s[j] == kept[k];
        assert(s[j].id != s[n].id);
    }
    assert forall|a: int, b: int| 0 <= a < b < more.len() implies #[trigger] more[a].id
        != #[trigger] more[b].id by {
        if b < kept.len() {
            assert(kept[a].id != kept[b].id);
        }
    }
    assert forall|k: int| 0 <= k < more.len() implies among(s, n + 1, #[trigger] more[k]) && !gone(
        more[k],
    ) by {
        if k < kept.len() {
            assert(more[k] == kept[k]);
        } else {
            assert(s[n] == more[k]);
        }
    }
    assert forall|j: int| 0 <= j < n + 1 && !gone(#[trigger] s[j]) implies more.contains(s[j]) by {
        if j < n {
            let k = choose|k: int| 0 <= k < kept.len() && kept[k] == s[j];
            assert(more[k] == s[j]);
        } else {
            assert(more[kept.len() as int] == s[j]);
        }
    }
}

/// Once every session was looked at, the map of `kept` is the map of `s`
/// without the sessions that satisfy `gone`, and what held of every session
/// of `s` holds of every session of `kept`.
proof fn lemma_kept(s: Seq<ViewerSession>, kept: Seq<ViewerSession>, gone: spec_fn(ViewerSession) -> bool)
    requires
        distinct(s),
        retained(s, s.len() as int, gone, kept),
    ensures
        by_id(kept) =~= Map::new(
            |id: u64| by_id(s).contains_key(id) && !gone(by_id(s)[id]),
            |id: u64| by_id(s)[id],
        ),
        forall|k: int| 0 <= k < kept.len() ==> s.contains(#[trigger] kept[k]),
{
    let m = Map::new(
        |id: u64| by_id(s).contains_key(id) && !gone(by_id(s)[id]),
        |id: u64| by_id(s)[id],
    );
    assert forall|k: int| 0 <= k < kept.len() implies s.contains(#[trigger] kept[k]) by {
        assert(among(s, s.len() as int, kept[k]));
        let j = choose|j: int| 0 <= j < s.len() && j < s.len() && #[trigger] s[j] == kept[k];
    }
    assert forall|id: u64| #[trigger] by_id(kept).contains_key(id) implies m.contains_key(id)
        && by_id(kept)[id] == m[id] by {
        let k = position(kept, id);
        lemma_found(kept, id);
        assert(s.contains(kept[k]));
        let j = choose|j: int| 0 <= j < s.len() && s[j] == kept[k];
        lemma_at(s, j);
    }
    assert forall|id: u64| #[trigger] m.contains_key(id) implies by_id(kept).contains_key(id) by {
        let j = position(s, id);
        lemma_found(s, id);
        assert(kept.contains(s[j]));
        let k = choose|k: int| 0 <= k < kept.len() && kept[k] == s[j];
        assert(kept[k].id == id);
    }
}

/// The set of live viewer sessions and the latest announced generation.
pub struct Broadcaster {
    sessions: Vec<ViewerSession>,
    latest: u64,
    next_id: u64,
    timeout: u64,
}

impl View for Broadcaster {
    type V = BroadcasterView;

    closed spec fn view(&self) -> BroadcasterView {
        BroadcasterView {
            sessions: by_id(self.sessions@),
            latest: self.latest,
            next_id: self.next_id,
            timeout: self.timeout,
        }
    }
}

impl Broadcaster {
    /// Well-formedness. It implies the invariant of the view.
    pub closed spec fn inv(&self) -> bool {
        &&& distinct(self.sessions@)
        &&& forall|i: int|
            0 <= i < self.sessions@.len() ==> (#[trigger] self.sessions@[i]).id < self.next_id
                && self.sessions@[i].last_acknowledged <= self.latest
    }

    /// A well-formed broadcaster has a well-formed view.
    pub proof fn lemma_view_inv(&self)
        requires
            self.inv(),
        ensures
            self@.inv(),
    {
        let s = self.sessions@;
        assert forall|id: u64| #[trigger] self@.sessions.contains_key(id) implies {
            &&& self@.sessions[id].id == id
            &&& id < self@.next_id
            &&& self@.sessions[id].last_acknowledged <= self@.latest
        } by {
            lemma_found(s, id);
        }
    }

    /// A broadcaster with no sessions, whose latest generation is
    /// `generation` and whose sessions may stay silent for `timeout`
    /// milliseconds.
    pub fn new(generation: u64, timeout: u64) -> (b: Broadcaster)
        ensures
            b.inv(),
            b@ == (BroadcasterView {
                sessions: Map::empty(),
                latest: generation,
                next_id: 0,
                timeout,
            }),
    {
        let b = Broadcaster { sessions: Vec::new(), latest: generation, next_id: 0, timeout };
        assert(b@.sessions =~= Map::empty());
        b
    }

    /// The newest generation that was announced.
    pub fn latest(&self) -> (g: u64)
        ensures
            g == self@.latest,
    {
        self.latest
    }

    /// How long a session may stay silent, in milliseconds.
    pub fn timeout(&self) -> (t: u64)
        ensures
            t == self@.timeout,
    {
        self.timeout
    }

    /// Whether an id is left for one more subscriber.
    pub fn can_subscribe(&self) -> (b: bool)
        ensures
            b == (self@.next_id < u64::MAX),
    {
        self.next_id < u64::MAX
    }

    fn find(&self, id: u64) -> (found: Option<usize>)
        requires
            self.inv(),
        ensures
            match found {
                Some(i) => i < self.sessions@.len() && self.sessions@[i as int].id == id
                    && self@.sessions.contains_key(id) && self@.sessions[id]
                    == self.sessions@[i as int],
                None => !self@.sessions.contains_key(id),
            },
    {
        let mut i: usize = 0;
        while i < self.sessions.len()
            invariant
                self.inv(),
                i <= self.sessions@.len(),
                forall|j: int| 0 <= j < i ==> (#[trigger] self.sessions@[j]).id != id,
            decreases self.sessions@.len() - i,
        {
            if self.sessions[i].id == id {
                proof {
                    lemma_at(self.sessions@, i as int);
                }
                return Some(i);
            }
            i += 1;
        }
        None
    }

    /// The session `id` as it stands, if it is live.
    pub fn session(&self, id: u64) -> (found: Option<ViewerSession>)
        requires
            self.inv(),
        ensures
            found == self@.sessions.get(id),
    {
        match self.find(id) {
            Some(i) => Some(self.sessions[i]),
            None => None,
        }
    }

    /// Where the session `id` stands in the protocol.
    pub fn state_of(&self, id: u64) -> (state: SessionState)
        requires
            self.inv(),
        ensures
            state == self@.state_of(id),
    {
        match self.find(id) {
            Some(i) => if self.sessions[i].is_awaiting(self.latest) {
                SessionState::AwaitingDelivery
            } else {
                SessionState::Connected
            },
            None => SessionState::Disconnected,
        }
    }

    /// Admits a viewer at `now`. The new session has acknowledged the
    /// generation that is current now, so whatever is announced from here on
    /// is newer than what it holds, and nothing older is ever owed to it.
    pub fn subscribe(&mut self, transport: Transport, now: u64) -> (session: ViewerSession)
        requires
            old(self).inv(),
            old(self)@.next_id < u64::MAX,
        ensures
            final(self).inv(),
            final(self)@ == old(self)@.subscribe(transport, now),
            session == old(self)@.admitted(transport, now),
    {
        let session = ViewerSession {
            id: self.next_id,
            last_acknowledged: self.latest,
            transport,
            last_seen: now,
        };
        proof {
            lemma_push(self.sessions@, session);
        }
        self.sessions.push(session);
        self.next_id = self.next_id + 1;
        session
    }

    /// Removes the session `id`, and says whether there was one.
    pub fn unsubscribe(&mut self, id: u64) -> (removed: bool)
        requires
            old(self).inv(),
        ensures
            final(self).inv(),
            final(self)@ == old(self)@.unsubscribe(id),
            removed == old(self)@.sessions.contains_key(id),
    {
        match self.find(id) {
            Some(i) => {
                proof {
                    lemma_remove(self.sessions@, i as int);
                }
                self.sessions.remove(i);
                true
            },
            None => {
                assert(self@.sessions.remove(id) =~= self@.sessions);
                false
            },
        }
    }

    /// Answers a poll of the session `id` at `now`: the latest generation if
    /// it is newer than what the session has acknowledged, which the session
    /// has then acknowledged.
    pub fn poll(&mut self, id: u64, now: u64) -> (reply: PollReply)
        requires
            old(self).inv(),
        ensures
            final(self).inv(),
            final(self)@ == old(self)@.poll(id, now),
            reply == old(self)@.poll_reply(id),
    {
        match self.find(id) {
            Some(i) => {
                let session = self.sessions[i];
                let reply = if session.is_awaiting(self.latest) {
                    PollReply::Changed(self.latest)
                } else {
                    PollReply::Unchanged
                };
                let updated = session.poll(self.latest, now);
                proof {
                    lemma_update(self.sessions@, i as int, updated);
                }
                self.sessions.set(i, updated);
                reply
            },
            None => PollReply::UnknownSession,
        }
    }

    /// Records that the session `id` acknowledged `generation` at `now`, and
    /// says whether there is such a session.
    pub fn acknowledge(&mut self, id: u64, generation: u64, now: u64) -> (known: bool)
        requires
            old(self).inv(),
        ensures
            final(self).inv(),
            final(self)@ == old(self)@.acknowledge(id, generation, now),
            known == old(self)@.sessions.contains_key(id),
    {
        match self.find(id) {
            Some(i) => {
                let updated = self.sessions[i].acknowledge(self.latest, generation, now);
                proof {
                    lemma_update(self.sessions@, i as int, updated);
                }
                self.sessions.set(i, updated);
                true
            },
            None => false,
        }
    }

    /// Announces `generation` at `now`. The latest generation never goes
    /// back: an older one changes nothing. Returned are the push sessions
    /// that are owed the latest generation, each once; poll sessions learn of
    /// it when they next ask. Nothing here waits for any viewer.
    pub fn notify(&mut self, generation: u64, now: u64) -> (deliveries: Vec<u64>)
        requires
            old(self).inv(),
        ensures
            final(self).inv(),
            final(self)@ == old(self)@.notify(generation, now),
            deliveries@.no_duplicates(),
            forall|id: u64| deliveries@.contains(id) <==> final(self)@.owed(id),
    {
        let ghost before = self.sessions@;
        let latest = self.latest;
        let newest = if generation > latest {
            generation
        } else {
            latest
        };
        let ghost f = |s: ViewerSession| s.announced(latest, generation, now);
        let ghost owes = |s: ViewerSession| s.transport == Transport::Push && s.awaiting(newest);
        let mut deliveries: Vec<u64> = Vec::new();
        let n = self.sessions.len();
        let mut i: usize = 0;
        while i < n
            invariant
                n == before.len(),
                self.sessions@.len() == n,
                i <= n,
                distinct(before),
                self.latest == latest,
                self.next_id == old(self).next_id,
                self.timeout == old(self).timeout,
                f == |s: ViewerSession| s.announced(latest, generation, now),
                owes == |s: ViewerSession| s.transport == Transport::Push && s.awaiting(newest),
                forall|j: int| 0 <= j < i ==> #[trigger] self.sessions@[j] == f(before[j]),
                forall|j: int| i <= j < n ==> #[trigger] self.sessions@[j] == before[j],
                collected(before, i as int, owes, deliveries@),
            decreases n - i,
        {
            let session = self.sessions[i];
            let updated = session.announce(latest, generation, now);
            self.sessions.set(i, updated);
            let is_push = match updated.transport {
                Transport::Push => true,
                Transport::Poll => false,
            };
            let ghost sent = deliveries@;
            if is_push && updated.is_awaiting(newest) {
                deliveries.push(updated.id);
            }
            proof {
                lemma_collected(before, i as int, owes, sent, deliveries@);
            }
            i += 1;
        }
        self.latest = newest;
        proof {
            lemma_pointwise(before, self.sessions@, f);
            assert(self@.sessions =~= old(self)@.notify(generation, now).sessions);
            lemma_collected_all(before, owes, deliveries@);
        }
        deliveries
    }

    /// Removes every session whose timeout has run out at `now`, and returns
    /// their ids, each once. The sessions that stay are untouched.
    pub fn purge_expired(&mut self, now: u64) -> (removed: Vec<u64>)
        requires
            old(self).inv(),
        ensures
            final(self).inv(),
            final(self)@ == old(self)@.purge(now),
            removed@.no_duplicates(),
            forall|id: u64| removed@.contains(id) <==> old(self)@.timed_out(id, now),
    {
        let ghost before = self.sessions@;
        let latest = self.latest;
        let timeout = self.timeout;
        let ghost gone = |s: ViewerSession| s.expired(latest, now, timeout);
        let mut kept: Vec<ViewerSession> = Vec::new();
        let mut removed: Vec<u64> = Vec::new();
        let n = self.sessions.len();
        let mut i: usize = 0;
        while i < n
            invariant
                self.sessions@ == before,
                n == before.len(),
                i <= n,
                distinct(before),
                gone == |s: ViewerSession| s.expired(latest, now, timeout),
                retained(before, i as int, gone, kept@),
                collected(before, i as int, gone, removed@),
            decreases n - i,
        {
            let session = self.sessions[i];
            let ghost held = kept@;
            let ghost dropped = removed@;
            if session.is_expired(latest, now, timeout) {
                removed.push(session.id);
            } else {
                kept.push(session);
            }
            proof {
                lemma_retained(before, i as int, gone, held, kept@);
                lemma_collected(before, i as int, gone, dropped, removed@);
            }
            i += 1;
        }
        proof {
            lemma_kept(before, kept@, gone);
            lemma_collected_all(before, gone, removed@);
            assert(by_id(kept@) =~= old(self)@.purge(now).sessions);
        }
        self.sessions = kept;
        removed
    }
}

/// Every step keeps the broadcaster well-formed.
pub proof fn lemma_steps_keep_inv(
    b: BroadcasterView,
    id: u64,
    generation: u64,
    transport: Transport,
    now: u64,
)
    requires
        b.inv(),
    ensures
        b.next_id < u64::MAX ==> b.subscribe(transport, now).inv(),
        b.unsubscribe(id).inv(),
        b.notify(generation, now).inv(),
        b.poll(id, now).inv(),
        b.acknowledge(id, generation, now).inv(),
        b.purge(now).inv(),
{
    if b.next_id < u64::MAX {
        let after = b.subscribe(transport, now);
        assert forall|k: u64| #[trigger] after.sessions.contains_key(k) implies after.sessions[k].id
            == k && k < after.next_id && after.sessions[k].last_acknowledged <= after.latest by {
            if k != b.next_id {
                assert(b.sessions.contains_key(k));
            }
        }
    }
    assert(b.unsubscribe(id).inv()) by {
        let after = b.unsubscribe(id);
        assert forall|k: u64| #[trigger] after.sessions.contains_key(k) implies after.sessions[k].id
            == k && k < after.next_id && after.sessions[k].last_acknowledged <= after.latest by {
            assert(b.sessions.contains_key(k));
        }
    }
    assert(b.notify(generation, now).inv()) by {
        let after = b.notify(generation, now);
        assert forall|k: u64| #[trigger] after.sessions.contains_key(k) implies after.sessions[k].id
            == k && k < after.next_id && after.sessions[k].last_acknowledged <= after.latest by {
            assert(b.sessions.contains_key(k));
        }
    }
    assert(b.poll(id, now).inv()) by {
        let after = b.poll(id, now);
        assert forall|k: u64| #[trigger] after.sessions.contains_key(k) implies after.sessions[k].id
            == k && k < after.next_id && after.sessions[k].last_acknowledged <= after.latest by {
            assert(b.sessions.contains_key(k));
        }
    }
    assert(b.acknowledge(id, generation, now).inv()) by {
        let after = b.acknowledge(id, generation, now);
        assert forall|k: u64| #[trigger] after.sessions.contains_key(k) implies after.sessions[k].id
            == k && k < after.next_id && after.sessions[k].last_acknowledged <= after.latest by {
            assert(b.sessions.contains_key(k));
        }
    }
    assert(b.purge(now).inv()) by {
        let after = b.purge(now);
        assert forall|k: u64| #[trigger] after.sessions.contains_key(k) implies after.sessions[k].id
            == k && k < after.next_id && after.sessions[k].last_acknowledged <= after.latest by {
            assert(b.sessions.contains_key(k));
        }
    }
}

/// Whether `after` has taken nothing back from `before`: the latest
/// generation is no older, and no session that is live in both has
/// acknowledged less.
pub open spec fn no_regress(before: BroadcasterView, after: BroadcasterView) -> bool {
    &&& before.latest <= after.latest
    &&& forall|id: u64| #[trigger]
        after.sessions.contains_key(id) && before.sessions.contains_key(id)
            ==> before.sessions[id].last_acknowledged <= after.sessions[id].last_acknowledged
}

/// Never regress: no step takes the latest generation back, or the
/// generation that a session has acknowledged; and a poll that reports a
/// change reports the latest generation, which is newer than the one the
/// session had acknowledged.
pub proof fn lemma_never_regresses(
    b: BroadcasterView,
    id: u64,
    generation: u64,
    transport: Transport,
    now: u64,
)
    requires
        b.inv(),
    ensures
        no_regress(b, b.subscribe(transport, now)),
        no_regress(b, b.unsubscribe(id)),
        no_regress(b, b.notify(generation, now)),
        no_regress(b, b.poll(id, now)),
        no_regress(b, b.acknowledge(id, generation, now)),
        no_regress(b, b.purge(now)),
        b.poll_reply(id) matches PollReply::Changed(g) ==> g == b.latest && g
            > b.sessions[id].last_acknowledged && b.poll(id, now).sessions[id].last_acknowledged
            == g,
{
    let after = b.subscribe(transport, now);
    assert forall|k: u64| #[trigger]
        after.sessions.contains_key(k) && b.sessions.contains_key(k)
            implies b.sessions[k].last_acknowledged <= after.sessions[k].last_acknowledged by {
        assert(k < b.next_id);
    }
}

/// Notification reaches every session that was connected before the change:
/// once a generation newer than the latest is announced, each live session
/// awaits it. A push session is among those to send to at once, and a poll
/// session is told of exactly that generation by its next poll, after which
/// it is connected again.
pub proof fn lemma_announcement_reaches_session(
    b: BroadcasterView,
    id: u64,
    generation: u64,
    now: u64,
    later: u64,
)
    requires
        b.inv(),
        b.sessions.contains_key(id),
        generation > b.latest,
    ensures
        ({
            let told = b.notify(generation, now);
            &&& told.latest == generation
            &&& told.state_of(id) == SessionState::AwaitingDelivery
            &&& b.sessions[id].transport == Transport::Push ==> told.owed(id)
            &&& told.poll_reply(id) == PollReply::Changed(generation)
            &&& told.poll(id, later).state_of(id) == SessionState::Connected
            &&& told.acknowledge(id, generation, later).state_of(id) == SessionState::Connected
        }),
{
}

/// A viewer that subscribes while a generation is being announced misses
/// nothing: admitted before the announcement it is owed the generation like
/// any other session, admitted after it has been given that generation
/// directly.
pub proof fn lemma_subscriber_misses_nothing(
    b: BroadcasterView,
    transport: Transport,
    generation: u64,
    at: u64,
    now: u64,
)
    requires
        b.inv(),
        b.next_id < u64::MAX,
        generation > b.latest,
    ensures
        b.subscribe(transport, at).notify(generation, now).state_of(b.next_id)
            == SessionState::AwaitingDelivery,
        b.subscribe(transport, at).notify(generation, now).poll_reply(b.next_id)
            == PollReply::Changed(generation),
        b.notify(generation, now).subscribe(transport, at).state_of(b.next_id)
            == SessionState::Connected,
        b.notify(generation, now).subscribe(transport, at).sessions[b.next_id].last_acknowledged
            == generation,
{
}

/// Session isolation: a session that stays silent for its timeout is gone
/// after the next purge, and that is all the purge does to the others. Every
/// session that has not timed out is still there, unchanged, and an
/// announcement after the purge finds it exactly as one before the purge
/// would have.
pub proof fn lemma_silent_session_is_purged_alone(
    b: BroadcasterView,
    silent: u64,
    other: u64,
    now: u64,
    generation: u64,
    later: u64,
)
    requires
        b.inv(),
        b.timed_out(silent, now),
        b.sessions.contains_key(other),
        !b.timed_out(other, now),
    ensures
        !b.purge(now).sessions.contains_key(silent),
        b.purge(now).state_of(silent) == SessionState::Disconnected,
        b.purge(now).poll_reply(silent) == PollReply::UnknownSession,
        b.purge(now).latest == b.latest,
        b.purge(now).sessions.contains_key(other),
        b.purge(now).sessions[other] == b.sessions[other],
        b.purge(now).notify(generation, later).sessions[other] == b.notify(
            generation,
            later,
        ).sessions[other],
        b.purge(now).notify(generation, later).owed(other) == b.notify(generation, later).owed(
            other,
        ),
        b.purge(now).notify(generation, later).poll_reply(other) == b.notify(
            generation,
            later,
        ).poll_reply(other),
{
}

/// A session that is gone stays gone: no step but a new subscription adds a
/// session, and a new subscription never reuses an id.
pub proof fn lemma_disconnected_is_terminal(
    b: BroadcasterView,
    gone: u64,
    id: u64,
    generation: u64,
    transport: Transport,
    now: u64,
)
    requires
        b.inv(),
        gone < b.next_id,
        !b.sessions.contains_key(gone),
    ensures
        !b.subscribe(transport, now).sessions.contains_key(gone),
        !b.unsubscribe(id).sessions.contains_key(gone),
        !b.notify(generation, now).sessions.contains_key(gone),
        !b.poll(id, now).sessions.contains_key(gone),
        !b.acknowledge(id, generation, now).sessions.contains_key(gone),
        !b.purge(now).sessions.contains_key(gone),
{
}

} // verus!
