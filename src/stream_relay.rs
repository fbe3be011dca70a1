use vstd::prelude::*;
use crate::table::Table;

verus! {

/// What a subscriber holds: its identifier and the frames not yet taken.
pub type SubscriberView = (u64, Seq<Seq<u8>>);

/// The frames of a queue, as byte sequences.
pub open spec fn frames_of(q: Seq<Vec<u8>>) -> Seq<Seq<u8>> {
    q.map_values(|f: Vec<u8>| f@)
}

/// One subscriber's pending frames after `frame` is offered to it: appended
/// if its queue holds fewer than `cap` frames, dropped for it otherwise.
pub open spec fn offer_to(s: SubscriberView, frame: Seq<u8>, cap: nat) -> SubscriberView {
    if s.1.len() < cap {
        (s.0, s.1.push(frame))
    } else {
        s
    }
}

/// Every subscriber of a channel after one frame is published to it.
pub open spec fn deliver(subs: Seq<SubscriberView>, frame: Seq<u8>, cap: nat) -> Seq<SubscriberView> {
    subs.map_values(|s: SubscriberView| offer_to(s, frame, cap))
}

/// Whether `id` names a subscriber of the channel.
pub open spec fn has_subscriber(subs: Seq<SubscriberView>, id: u64) -> bool {
    exists|i: int| 0 <= i < subs.len() && subs[i].0 == id
}

/// Subscriber identifiers within a channel are pairwise distinct.
pub open spec fn distinct_ids(subs: Seq<SubscriberView>) -> bool {
    forall|i: int, j: int| 0 <= i < j < subs.len() ==> subs[i].0 != subs[j].0
}

/// A channel's subscribers have distinct identifiers, all issued before
/// `issued`, and none has more than `cap` frames waiting.
pub open spec fn channel_ok(subs: Seq<SubscriberView>, cap: nat, issued: nat) -> bool {
    &&& distinct_ids(subs)
    &&& forall|i: int| 0 <= i < subs.len() ==> (subs[i].0 as nat) < issued && subs[i].1.len() <= cap
}

/// Every channel of the hub satisfies `channel_ok`.
pub open spec fn relay_ok(v: Map<Seq<char>, Seq<SubscriberView>>, cap: nat, issued: nat) -> bool {
    forall|k: Seq<char>| #[trigger] v.contains_key(k) ==> channel_ok(v[k], cap, issued)
}

/// The channel without subscriber `id`.
pub open spec fn drop_viewer(subs: Seq<SubscriberView>, id: u64) -> Seq<SubscriberView> {
    if has_subscriber(subs, id) {
        subs.remove(choose|i: int| 0 <= i < subs.len() && subs[i].0 == id)
    } else {
        subs
    }
}

/// What a subscriber gets when it asks for its next frame.
pub enum Poll {
    /// The oldest frame not yet taken.
    Frame(Vec<u8>),
    /// The stream is live but nothing is waiting.
    Empty,
    /// The channel is closed or the subscriber is gone: the stream is over.
    Ended,
}

struct Subscriber {
    id: u64,
    queue: Vec<Vec<u8>>,
}

impl View for Subscriber {
    type V = SubscriberView;

    closed spec fn view(&self) -> SubscriberView {
        (self.id, frames_of(self.queue@))
    }
}

/// The fan-out buffer of one camera: one bounded queue per subscriber, so
/// that a slow subscriber loses frames without holding back the others.
/// (A broadcast channel whose lagging receivers lose the oldest frames and
/// whose receive must be awaited gives neither this drop policy nor a
/// synchronous poll.)
pub struct RelayChannel {
    subscribers: Vec<Subscriber>,
}

impl View for RelayChannel {
    type V = Seq<SubscriberView>;

    closed spec fn view(&self) -> Seq<SubscriberView> {
        self.subscribers@.map_values(|s: Subscriber| s@)
    }
}

proof fn lemma_channel_ok_grow(subs: Seq<SubscriberView>, cap: nat, a: nat, b: nat)
    requires
        channel_ok(subs, cap, a),
        a <= b,
    ensures
        channel_ok(subs, cap, b),
{
}

proof fn lemma_channel_ok_deliver(subs: Seq<SubscriberView>, frame: Seq<u8>, cap: nat, issued: nat)
    requires
        channel_ok(subs, cap, issued),
    ensures
        channel_ok(deliver(subs, frame, cap), cap, issued),
{
    let d = deliver(subs, frame, cap);
    assert forall|i: int, j: int| 0 <= i < j < d.len() implies d[i].0 != d[j].0 by {
        assert(subs[i].0 != subs[j].0);
    }
}

/// Removing the subscriber at `i` keeps the channel well formed and leaves
/// no subscriber with its identifier.
proof fn lemma_channel_ok_remove(subs: Seq<SubscriberView>, i: int, cap: nat, issued: nat)
    requires
        channel_ok(subs, cap, issued),
        0 <= i < subs.len(),
    ensures
        channel_ok(subs.remove(i), cap, issued),
        !has_subscriber(subs.remove(i), subs[i].0),
        drop_viewer(subs, subs[i].0) == subs.remove(i),
{
    let r = subs.remove(i);
    assert forall|a: int, b: int| 0 <= a < b < r.len() implies r[a].0 != r[b].0 by {
        let a2 = if a < i { a } else { a + 1 };
        let b2 = if b < i { b } else { b + 1 };
        assert(subs[a2].0 != subs[b2].0);
    }
    assert forall|k: int| 0 <= k < r.len() implies r[k].0 != subs[i].0 by {
        let k2 = if k < i { k } else { k + 1 };
        assert(subs[k2].0 != subs[i].0);
    }
    assert forall|k: int| 0 <= k < r.len() implies (r[k].0 as nat) < issued && r[k].1.len() <= cap by {
        let k2 = if k < i { k } else { k + 1 };
        assert(subs[k2] == r[k]);
    }
    assert(has_subscriber(subs, subs[i].0));
    let c = choose|c: int| 0 <= c < subs.len() && subs[c].0 == subs[i].0;
    if c != i {
        if c < i {
            assert(subs[c].0 != subs[i].0);
        } else {
            assert(subs[i].0 != subs[c].0);
        }
    }
}

proof fn lemma_relay_ok_insert(v: Map<Seq<char>, Seq<SubscriberView>>, k: Seq<char>, c: Seq<SubscriberView>, cap: nat, issued: nat)
    requires
        relay_ok(v, cap, issued),
        channel_ok(c, cap, issued),
    ensures
        relay_ok(v.insert(k, c), cap, issued),
{
    assert forall|j: Seq<char>| #[trigger] v.insert(k, c).contains_key(j) implies channel_ok(v.insert(k, c)[j], cap, issued) by {
        if j != k {
            assert(v.contains_key(j));
        }
    }
}

proof fn lemma_relay_ok_remove(v: Map<Seq<char>, Seq<SubscriberView>>, k: Seq<char>, cap: nat, issued: nat)
    requires
        relay_ok(v, cap, issued),
    ensures
        relay_ok(v.remove(k), cap, issued),
{
    assert forall|j: Seq<char>| #[trigger] v.remove(k).contains_key(j) implies channel_ok(v.remove(k)[j], cap, issued) by {
        assert(v.contains_key(j));
    }
}

proof fn lemma_relay_ok_grow(v: Map<Seq<char>, Seq<SubscriberView>>, cap: nat, a: nat, b: nat)
    requires
        relay_ok(v, cap, a),
        a <= b,
    ensures
        relay_ok(v, cap, b),
{
    assert forall|j: Seq<char>| #[trigger] v.contains_key(j) implies channel_ok(v[j], cap, b) by {
        lemma_channel_ok_grow(v[j], cap, a, b);
    }
}

impl RelayChannel {
    fn new() -> (r: Self)
        ensures
            r@ == Seq::<SubscriberView>::empty(),
    {
        let r = RelayChannel { subscribers: Vec::new() };
        assert(r@ =~= Seq::<SubscriberView>::empty());
        r
    }

    fn deliver(&mut self, frame: &Vec<u8>, cap: usize)
        ensures
            final(self)@ == deliver(old(self)@, frame@, cap as nat),
    {
        let n = self.subscribers.len();
        let mut i: usize = 0;
        while i < n
            invariant
                0 <= i <= n,
                n == self.subscribers@.len(),
                n == old(self).subscribers@.len(),
                forall|j: int| 0 <= j < i ==> self.subscribers@[j]@ == offer_to(old(self).subscribers@[j]@, frame@, cap as nat),
                forall|j: int| i <= j < n ==> self.subscribers@[j] == old(self).subscribers@[j],
            decreases n - i,
        {
            if self.subscribers[i].queue.len() < cap {
                let copy = frame.clone();
                assert(copy@ =~= frame@);
                let ghost q = self.subscribers@[i as int].queue@;
                self.subscribers[i].queue.push(copy);
                assert(frames_of(q.push(copy)) =~= frames_of(q).push(frame@));
            }
            i = i + 1;
        }
        assert(self@ =~= deliver(old(self)@, frame@, cap as nat));
    }

    fn add(&mut self, id: u64)
        ensures
            final(self)@ == old(self)@.push((id, Seq::<Seq<u8>>::empty())),
    {
        self.subscribers.push(Subscriber { id, queue: Vec::new() });
        assert(frames_of(Seq::<Vec<u8>>::empty()) =~= Seq::<Seq<u8>>::empty());
        assert(self@ =~= old(self)@.push((id, Seq::<Seq<u8>>::empty())));
    }

    /// The position of subscriber `id`, if it is subscribed.
    fn position(&self, id: u64) -> (r: Option<usize>)
        ensures
            match r {
                Some(i) => i < self@.len() && self@[i as int].0 == id,
                None => !has_subscriber(self@, id),
            },
    {
        let mut i: usize = 0;
        while i < self.subscribers.len()
            invariant
                0 <= i <= self@.len(),
                forall|j: int| 0 <= j < i ==> self@[j].0 != id,
            decreases self@.len() - i,
        {
            if self.subscribers[i].id == id {
                return Some(i);
            }
            i = i + 1;
        }
        None
    }

    fn unsubscribe(&mut self, id: u64)
        requires
            distinct_ids(old(self)@),
        ensures
            final(self)@ == drop_viewer(old(self)@, id),
    {
        match self.position(id) {
            Some(i) => {
                let _ = self.subscribers.remove(i);
                proof {
                    assert(self@ =~= old(self)@.remove(i as int));
                    let c = choose|c: int| 0 <= c < old(self)@.len() && old(self)@[c].0 == id;
                    if c != i as int {
                        if c < i as int {
                            assert(old(self)@[c].0 != old(self)@[i as int].0);
                        } else {
                            assert(old(self)@[i as int].0 != old(self)@[c].0);
                        }
                    }
                }
            },
            None => {},
        }
    }

    fn next_frame(&mut self, id: u64) -> (r: Poll)
        ensures
            match r {
                Poll::Ended => !has_subscriber(old(self)@, id) && final(self)@ == old(self)@,
                Poll::Empty => exists|i: int|
                    0 <= i < old(self)@.len() && old(self)@[i].0 == id && old(self)@[i].1.len() == 0
                    && final(self)@ == old(self)@,
                Poll::Frame(f) => exists|i: int|
                    0 <= i < old(self)@.len() && old(self)@[i].0 == id && old(self)@[i].1.len() > 0
                    && f@ == old(self)@[i].1[0]
                    && final(self)@ == old(self)@.update(i, (id, old(self)@[i].1.drop_first())),
            },
    {
        match self.position(id) {
            None => Poll::Ended,
            Some(i) => {
                if self.subscribers[i].queue.len() == 0 {
                    Poll::Empty
                } else {
                    let ghost q = self.subscribers@[i as int].queue@;
                    let f = self.subscribers[i].queue.remove(0);
                    proof {
                        assert(frames_of(q.remove(0)) =~= frames_of(q).drop_first());
                        assert(self@ =~= old(self)@.update(i as int, (id, old(self)@[i as int].1.drop_first())));
                        assert(f@ == frames_of(q)[0]);
                    }
                    Poll::Frame(f)
                }
            },
        }
    }
}

/// The fan-out hub: one relay channel per camera identifier, and one counter
/// from which every subscriber identifier is drawn, so that no identifier is
/// handed out twice, even after a channel is closed and opened again.
pub struct StreamRelay {
    channels: Table<RelayChannel>,
    capacity: usize,
    next_id: u64,
}

impl View for StreamRelay {
    type V = Map<Seq<char>, Seq<SubscriberView>>;

    closed spec fn view(&self) -> Map<Seq<char>, Seq<SubscriberView>> {
        self.channels@.map_values(|c: RelayChannel| c@)
    }
}

impl StreamRelay {
    /// How many frames a subscriber may have waiting before further frames
    /// are dropped for it.
    pub closed spec fn capacity_spec(&self) -> nat {
        self.capacity as nat
    }

    /// Every subscriber identifier handed out so far is below this bound.
    pub closed spec fn issued(&self) -> nat {
        self.next_id as nat
    }

    /// No further subscriber identifier can be issued.
    pub open spec fn exhausted(&self) -> bool {
        self.issued() == u64::MAX as nat
    }

    pub open spec fn wf(&self) -> bool {
        &&& self.capacity_spec() > 0
        &&& relay_ok(self@, self.capacity_spec(), self.issued())
    }

    pub fn new(capacity: usize) -> (r: Self)
        requires
            capacity > 0,
        ensures
            r.wf(),
            r@ == Map::<Seq<char>, Seq<SubscriberView>>::empty(),
            r.capacity_spec() == capacity,
            r.issued() == 0,
    {
        let r = StreamRelay { channels: Table::new(), capacity, next_id: 0 };
        assert(r@ =~= Map::<Seq<char>, Seq<SubscriberView>>::empty());
        r
    }

    pub fn capacity(&self) -> (r: usize)
        ensures
            r == self.capacity_spec(),
    {
        self.capacity
    }

    pub fn is_open(&self, camera_id: &String) -> (r: bool)
        ensures
            r == self@.contains_key(camera_id@),
    {
        self.channels.contains_key(camera_id)
    }

    /// The number of subscribers of `camera_id`; zero where no channel is open.
    pub fn subscriber_count(&self, camera_id: &String) -> (r: usize)
        ensures
            r == (if self@.contains_key(camera_id@) { self@[camera_id@].len() } else { 0 }),
    {
        match self.channels.get(camera_id) {
            Some(c) => c.subscribers.len(),
            None => 0,
        }
    }

    /// Takes the channel of `camera_id` out of the table, or makes a fresh
    /// one where none exists.
    fn take_channel(&mut self, camera_id: &String) -> (r: RelayChannel)
        ensures
            final(self).capacity == old(self).capacity,
            final(self).next_id == old(self).next_id,
            final(self)@ == old(self)@.remove(camera_id@),
            r@ == (if old(self)@.contains_key(camera_id@) {
                old(self)@[camera_id@]
            } else {
                Seq::<SubscriberView>::empty()
            }),
    {
        let r = match self.channels.remove(camera_id) {
            Some(c) => c,
            None => RelayChannel::new(),
        };
        assert(self@ =~= old(self)@.remove(camera_id@));
        r
    }

    fn put_channel(&mut self, camera_id: &String, c: RelayChannel)
        ensures
            final(self).capacity == old(self).capacity,
            final(self).next_id == old(self).next_id,
            final(self)@ == old(self)@.insert(camera_id@, c@),
    {
        self.channels.insert(camera_id.clone(), c);
        assert(self@ =~= old(self)@.insert(camera_id@, c@));
    }

    /// Opens the channel of `camera_id`, or leaves an open one as it is.
    pub fn add_stream(&mut self, camera_id: &String)
        requires
            old(self).wf(),
        ensures
            final(self).wf(),
            final(self).capacity_spec() == old(self).capacity_spec(),
            final(self).issued() == old(self).issued(),
            final(self)@ == (if old(self)@.contains_key(camera_id@) {
                old(self)@
            } else {
                old(self)@.insert(camera_id@, Seq::<SubscriberView>::empty())
            }),
    {
        if !self.channels.contains_key(camera_id) {
            let c = RelayChannel::new();
            self.put_channel(camera_id, c);
            proof {
                lemma_relay_ok_insert(old(self)@, camera_id@, Seq::<SubscriberView>::empty(),
                    old(self).capacity_spec(), old(self).issued());
            }
        }
    }

    /// Closes the channel of `camera_id`: every stream of it ends.
    pub fn close(&mut self, camera_id: &String)
        requires
            old(self).wf(),
        ensures
            final(self).wf(),
            final(self).capacity_spec() == old(self).capacity_spec(),
            final(self).issued() == old(self).issued(),
            final(self)@ == old(self)@.remove(camera_id@),
    {
        let _ = self.channels.remove(camera_id);
        proof {
            assert(self@ =~= old(self)@.remove(camera_id@));
            lemma_relay_ok_remove(old(self)@, camera_id@, old(self).capacity_spec(), old(self).issued());
        }
    }

    /// Hands `frame` to every current subscriber of `camera_id` whose queue
    /// has room, and drops it for the others; without a channel the frame is
    /// discarded. The publisher never waits.
    pub fn relay_frame(&mut self, camera_id: &String, frame: &Vec<u8>)
        requires
            old(self).wf(),
        ensures
            final(self).wf(),
            final(self).capacity_spec() == old(self).capacity_spec(),
            final(self).issued() == old(self).issued(),
            final(self)@ == (if old(self)@.contains_key(camera_id@) {
                old(self)@.insert(camera_id@, deliver(old(self)@[camera_id@], frame@, old(self).capacity_spec()))
            } else {
                old(self)@
            }),
    {
        if self.channels.contains_key(camera_id) {
            let mut c = self.take_channel(camera_id);
            c.deliver(frame, self.capacity);
            self.put_channel(camera_id, c);
            proof {
                lemma_channel_ok_deliver(old(self)@[camera_id@], frame@, old(self).capacity_spec(), old(self).issued());
                lemma_relay_ok_remove(old(self)@, camera_id@, old(self).capacity_spec(), old(self).issued());
                lemma_relay_ok_insert(old(self)@.remove(camera_id@), camera_id@, c@, old(self).capacity_spec(), old(self).issued());
                assert(self@ =~= old(self)@.insert(camera_id@, deliver(old(self)@[camera_id@], frame@, old(self).capacity_spec())));
            }
        }
    }

    /// Adds a subscriber to `camera_id`, opening its channel where none is
    /// open, and returns its identifier: one never handed out before. It sees
    /// only frames published from now on.
    pub fn subscribe(&mut self, camera_id: &String) -> (r: Option<u64>)
        requires
            old(self).wf(),
        ensures
            final(self).wf(),
            final(self).capacity_spec() == old(self).capacity_spec(),
            r is None <==> old(self).exhausted(),
            match r {
                Some(id) => {
                    let before = if old(self)@.contains_key(camera_id@) {
                        old(self)@[camera_id@]
                    } else {
                        Seq::<SubscriberView>::empty()
                    };
                    &&& id as nat == old(self).issued()
                    &&& final(self).issued() == old(self).issued() + 1
                    &&& !has_subscriber(before, id)
                    &&& final(self)@ == old(self)@.insert(camera_id@, before.push((id, Seq::<Seq<u8>>::empty())))
                },
                None => final(self)@ == old(self)@ && final(self).issued() == old(self).issued(),
            },
    {
        if self.next_id == u64::MAX {
            return None;
        }
        let id = self.next_id;
        let mut c = self.take_channel(camera_id);
        let ghost before = c@;
        c.add(id);
        self.put_channel(camera_id, c);
        self.next_id = self.next_id + 1;
        proof {
            let cap = old(self).capacity_spec();
            let n = old(self).issued();
            if old(self)@.contains_key(camera_id@) {
                assert(channel_ok(before, cap, n));
            } else {
                assert(before =~= Seq::<SubscriberView>::empty());
            }
            assert forall|i: int| 0 <= i < before.len() implies before[i].0 != id by {
                assert((before[i].0 as nat) < n);
            }
            let after = before.push((id, Seq::<Seq<u8>>::empty()));
            assert forall|i: int, j: int| 0 <= i < j < after.len() implies after[i].0 != after[j].0 by {
                if j < before.len() {
                    assert(before[i].0 != before[j].0);
                } else {
                    assert(before[i].0 != id);
                }
            }
            lemma_relay_ok_remove(old(self)@, camera_id@, cap, n);
            lemma_relay_ok_grow(old(self)@.remove(camera_id@), cap, n, n + 1);
            lemma_relay_ok_insert(old(self)@.remove(camera_id@), camera_id@, after, cap, n + 1);
            assert(self@ =~= old(self)@.insert(camera_id@, after));
        }
        Some(id)
    }

    /// Removes subscriber `id` of `camera_id`, if it is there.
    pub fn unsubscribe(&mut self, camera_id: &String, id: u64)
        requires
            old(self).wf(),
        ensures
            final(self).wf(),
            final(self).capacity_spec() == old(self).capacity_spec(),
            final(self).issued() == old(self).issued(),
            final(self)@ == (if old(self)@.contains_key(camera_id@) {
                old(self)@.insert(camera_id@, drop_viewer(old(self)@[camera_id@], id))
            } else {
                old(self)@
            }),
            final(self)@.contains_key(camera_id@) ==> !has_subscriber(final(self)@[camera_id@], id),
    {
        if self.channels.contains_key(camera_id) {
            let mut c = self.take_channel(camera_id);
            c.unsubscribe(id);
            self.put_channel(camera_id, c);
            proof {
                let cap = old(self).capacity_spec();
                let n = old(self).issued();
                let subs = old(self)@[camera_id@];
                assert(channel_ok(subs, cap, n));
                if has_subscriber(subs, id) {
                    let i = choose|i: int| 0 <= i < subs.len() && subs[i].0 == id;
                    lemma_channel_ok_remove(subs, i, cap, n);
                }
                lemma_relay_ok_remove(old(self)@, camera_id@, cap, n);
                lemma_relay_ok_insert(old(self)@.remove(camera_id@), camera_id@, c@, cap, n);
                assert(self@ =~= old(self)@.insert(camera_id@, drop_viewer(subs, id)));
            }
        }
    }

    /// The next frame for subscriber `id` of `camera_id`; `Ended` once the
    /// channel is closed or the subscriber is gone.
    pub fn next_frame(&mut self, camera_id: &String, id: u64) -> (r: Poll)
        requires
            old(self).wf(),
        ensures
            final(self).wf(),
            final(self).capacity_spec() == old(self).capacity_spec(),
            final(self).issued() == old(self).issued(),
            match r {
                Poll::Ended => !(old(self)@.contains_key(camera_id@) && has_subscriber(old(self)@[camera_id@], id))
                    && final(self)@ == old(self)@,
                Poll::Empty => old(self)@.contains_key(camera_id@) && exists|i: int|
                    0 <= i < old(self)@[camera_id@].len() && old(self)@[camera_id@][i].0 == id
                    && old(self)@[camera_id@][i].1.len() == 0 && final(self)@ == old(self)@,
                Poll::Frame(f) => old(self)@.contains_key(camera_id@) && exists|i: int|
                    0 <= i < old(self)@[camera_id@].len() && old(self)@[camera_id@][i].0 == id
                    && old(self)@[camera_id@][i].1.len() > 0 && f@ == old(self)@[camera_id@][i].1[0]
                    && final(self)@ == old(self)@.insert(camera_id@,
                        old(self)@[camera_id@].update(i, (id, old(self)@[camera_id@][i].1.drop_first()))),
            },
    {
        if !self.channels.contains_key(camera_id) {
            return Poll::Ended;
        }
        let mut c = self.take_channel(camera_id);
        let r = c.next_frame(id);
        self.put_channel(camera_id, c);
        proof {
            let cap = old(self).capacity_spec();
            let n = old(self).issued();
            let subs = old(self)@[camera_id@];
            assert(channel_ok(subs, cap, n));
            lemma_relay_ok_remove(old(self)@, camera_id@, cap, n);
            match &r {
                Poll::Frame(f) => {
                    let i = choose|i: int|
                        0 <= i < subs.len() && subs[i].0 == id
                        && subs[i].1.len() > 0 && f@ == subs[i].1[0]
                        && c@ == subs.update(i, (id, subs[i].1.drop_first()));
                    let u = subs.update(i, (id, subs[i].1.drop_first()));
                    assert forall|a: int, b: int| 0 <= a < b < u.len() implies u[a].0 != u[b].0 by {
                        assert(subs[a].0 != subs[b].0);
                    }
                    assert forall|k: int| 0 <= k < u.len() implies (u[k].0 as nat) < n && u[k].1.len() <= cap by {
                        assert((subs[k].0 as nat) < n && subs[k].1.len() <= cap);
                    }
                    lemma_relay_ok_insert(old(self)@.remove(camera_id@), camera_id@, u, cap, n);
                    assert(self@ =~= old(self)@.insert(camera_id@, u));
                },
                _ => {
                    assert(self@ =~= old(self)@);
                },
            }
        }
        r
    }
}

/// Publishing to a channel without subscribers changes nothing.
pub proof fn lemma_publish_without_subscribers(subs: Seq<SubscriberView>, frame: Seq<u8>, cap: nat)
    requires
        subs.len() == 0,
    ensures
        deliver(subs, frame, cap) == subs,
{
    assert(deliver(subs, frame, cap) =~= subs);
}

/// A subscriber with room in its queue gets the frame whatever the other
/// subscribers hold: a full queue elsewhere never holds it back.
pub proof fn lemma_delivery_independent(subs: Seq<SubscriberView>, frame: Seq<u8>, cap: nat, i: int)
    requires
        0 <= i < subs.len(),
    ensures
        deliver(subs, frame, cap).len() == subs.len(),
        subs[i].1.len() < cap ==> deliver(subs, frame, cap)[i] == (subs[i].0, subs[i].1.push(frame)),
        subs[i].1.len() >= cap ==> deliver(subs, frame, cap)[i] == subs[i],
{
}

/// Each viewer receives frames in the order they were published: a frame
/// offered to a viewer goes behind all the frames it is still waiting for.
pub proof fn lemma_delivery_keeps_order(s: SubscriberView, frame: Seq<u8>, cap: nat)
    ensures
        offer_to(s, frame, cap).0 == s.0,
        offer_to(s, frame, cap).1.subrange(0, s.1.len() as int) == s.1,
{
    assert(s.1.push(frame).subrange(0, s.1.len() as int) =~= s.1);
    assert(s.1.subrange(0, s.1.len() as int) =~= s.1);
}

/// One subscriber after a run of frames is published, in order.
pub open spec fn offer_all(s: SubscriberView, frames: Seq<Seq<u8>>, cap: nat) -> SubscriberView
    decreases frames.len(),
{
    if frames.len() == 0 {
        s
    } else {
        offer_to(offer_all(s, frames.drop_last(), cap), frames.last(), cap)
    }
}

/// `q` is made of frames of `frames` at the strictly increasing positions
/// `idx`.
pub open spec fn picked_in_order(q: Seq<Seq<u8>>, frames: Seq<Seq<u8>>, idx: Seq<int>) -> bool {
    &&& idx.len() == q.len()
    &&& forall|j: int| #![trigger idx[j]] 0 <= j < idx.len() ==> 0 <= idx[j] < frames.len() && q[j] == frames[idx[j]]
    &&& forall|a: int, b: int| 0 <= a < b < idx.len() ==> idx[a] < idx[b]
}

/// After a run of frames is published, a subscriber still has the frames it
/// was waiting for, followed by some of the run's frames in publish order:
/// frames may be lost, never reordered or altered.
pub proof fn lemma_run_keeps_publish_order(s: SubscriberView, frames: Seq<Seq<u8>>, cap: nat)
    ensures
        offer_all(s, frames, cap).0 == s.0,
        offer_all(s, frames, cap).1.len() >= s.1.len(),
        offer_all(s, frames, cap).1.subrange(0, s.1.len() as int) == s.1,
        exists|idx: Seq<int>| picked_in_order(
            offer_all(s, frames, cap).1.subrange(s.1.len() as int, offer_all(s, frames, cap).1.len() as int),
            frames, idx),
    decreases frames.len(),
{
    let n = s.1.len() as int;
    if frames.len() == 0 {
        assert(s.1.subrange(0, n) =~= s.1);
        let q = s.1.subrange(n, n);
        assert(picked_in_order(q, frames, Seq::<int>::empty()));
    } else {
        let prev = frames.drop_last();
        lemma_run_keeps_publish_order(s, prev, cap);
        let p = offer_all(s, prev, cap);
        let pq = p.1.subrange(n, p.1.len() as int);
        let idx0 = choose|idx: Seq<int>| picked_in_order(pq, prev, idx);
        assert(picked_in_order(pq, prev, idx0));
        let r = offer_all(s, frames, cap);
        if p.1.len() < cap {
            assert(r.1 == p.1.push(frames.last()));
            assert(r.1.subrange(0, n) =~= p.1.subrange(0, n));
            let rq = r.1.subrange(n, r.1.len() as int);
            assert(rq =~= pq.push(frames.last()));
            let idx = idx0.push(frames.len() - 1);
            assert forall|j: int| 0 <= j < idx.len() implies 0 <= idx[j] < frames.len() && rq[j] == frames[idx[j]] by {
                if j < idx0.len() {
                    assert(0 <= idx0[j] < prev.len() && pq[j] == prev[idx0[j]]);
                    assert(prev[idx0[j]] == frames[idx0[j]]);
                }
            }
            assert(picked_in_order(rq, frames, idx));
        } else {
            assert(r == p);
            assert forall|j: int| 0 <= j < idx0.len() implies 0 <= idx0[j] < frames.len() && pq[j] == frames[idx0[j]] by {
                assert(0 <= idx0[j] < prev.len() && pq[j] == prev[idx0[j]]);
                assert(prev[idx0[j]] == frames[idx0[j]]);
            }
            assert(picked_in_order(pq, frames, idx0));
        }
    }
}

} // verus!
