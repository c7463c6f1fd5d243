//! The subscription side of the broker: which local consumers want which
//! topics, fan-out of a broker message to them, and the topics that the
//! single broker connection must be subscribed to.
use vstd::prelude::*;
use futures::channel::mpsc::{UnboundedReceiver, UnboundedSender};
use crate::text::{contains_text, has_text, texts};

verus! {

#[verifier::external_type_specification]
#[verifier::external_body]
#[verifier::reject_recursive_types(T)]
pub struct ExUnboundedSender<T>(UnboundedSender<T>);

#[verifier::external_type_specification]
#[verifier::external_body]
#[verifier::reject_recursive_types(T)]
pub struct ExUnboundedReceiver<T>(UnboundedReceiver<T>);

/// The payloads queued through a sending end, in order: what its receiver
/// is handed.
pub uninterp spec fn sent_through(tx: UnboundedSender<String>) -> Seq<Seq<char>>;

/// Whether a sending end and a receiving end are the two ends of one channel.
pub uninterp spec fn same_channel(tx: UnboundedSender<String>, rx: UnboundedReceiver<String>) -> bool;

/// Relies on futures::channel::mpsc::unbounded: the two ends of one new
/// channel, through which nothing has been queued yet.
#[verifier::external_body]
fn new_queue() -> (r: (UnboundedSender<String>, UnboundedReceiver<String>))
    ensures
        same_channel(r.0, r.1),
        sent_through(r.0) == Seq::<Seq<char>>::empty(),
{
    futures::channel::mpsc::unbounded()
}

/// Relies on UnboundedSender::unbounded_send: queues the payload and returns
/// true, or hands it back (false) when the receiving end has been dropped.
/// The sender stays the end of the same channel. It panics only once 2^63
/// messages wait in one queue, which memory rules out first.
#[verifier::external_body]
fn push_to_queue(tx: &mut UnboundedSender<String>, payload: String) -> (r: bool)
    ensures
        r ==> sent_through(*final(tx)) == sent_through(*old(tx)).push(payload@),
        !r ==> sent_through(*final(tx)) == sent_through(*old(tx)),
        forall|rx: UnboundedReceiver<String>| same_channel(*final(tx), rx) == same_channel(*old(tx), rx),
{
    tx.unbounded_send(payload).is_ok()
}

/// A (topic, consumer id) pair as the contracts see it.
pub type Pair = (Seq<char>, Seq<char>);

/// One consumer registered for one topic, with the sending end of its queue.
pub struct Subscription {
    pub topic: String,
    pub id: String,
    tx: UnboundedSender<String>,
}

/// The pairs of `p` whose consumer id is not in `ids`, in order.
pub open spec fn drop_ids(p: Seq<Pair>, ids: Set<Seq<char>>) -> Seq<Pair>
    decreases p.len(),
{
    if p.len() == 0 {
        p
    } else if ids.contains(p.last().1) {
        drop_ids(p.drop_last(), ids)
    } else {
        drop_ids(p.drop_last(), ids).push(p.last())
    }
}

/// The consumer ids registered for topic `t`, in order.
pub open spec fn ids_of(p: Seq<Pair>, t: Seq<char>) -> Seq<Seq<char>>
    decreases p.len(),
{
    if p.len() == 0 {
        Seq::empty()
    } else if p.last().0 == t {
        ids_of(p.drop_last(), t).push(p.last().1)
    } else {
        ids_of(p.drop_last(), t)
    }
}

pub open spec fn unique(p: Seq<Pair>) -> bool {
    forall|i: int, j: int| 0 <= i < j < p.len() ==> p[i] != p[j]
}

proof fn lemma_drop_ids_contains(p: Seq<Pair>, ids: Set<Seq<char>>, e: Pair)
    ensures
        drop_ids(p, ids).contains(e) <==> p.contains(e) && !ids.contains(e.1),
    decreases p.len(),
{
    if p.len() > 0 {
        lemma_drop_ids_contains(p.drop_last(), ids, e);
        let q = drop_ids(p.drop_last(), ids);
        if p.contains(e) {
            let k = choose|k: int| 0 <= k < p.len() && p[k] == e;
            if k < p.len() - 1 {
                assert(p.drop_last()[k] == e);
            }
        }
        if p.drop_last().contains(e) {
            let k = choose|k: int| 0 <= k < p.drop_last().len() && p.drop_last()[k] == e;
            assert(p[k] == e);
        }
        if !ids.contains(p.last().1) {
            if q.contains(e) {
                let k = choose|k: int| 0 <= k < q.len() && q[k] == e;
                assert(q.push(p.last())[k] == e);
            }
            if e == p.last() {
                assert(q.push(p.last())[q.len() as int] == e);
            }
            if q.push(p.last()).contains(e) && e != p.last() {
                let k = choose|k: int| 0 <= k < q.len() + 1 && q.push(p.last())[k] == e;
                assert(q[k] == e);
            }
        }
    }
}

proof fn lemma_drop_ids_unique(p: Seq<Pair>, ids: Set<Seq<char>>)
    requires
        unique(p),
    ensures
        unique(drop_ids(p, ids)),
    decreases p.len(),
{
    if p.len() > 0 {
        let r = p.drop_last();
        assert(unique(r)) by {
            assert forall|i: int, j: int| 0 <= i < j < r.len() implies r[i] != r[j] by {
                assert(r[i] == p[i] && r[j] == p[j]);
            }
        }
        lemma_drop_ids_unique(r, ids);
        if !ids.contains(p.last().1) {
            let q = drop_ids(r, ids);
            let s = q.push(p.last());
            assert forall|i: int, j: int| 0 <= i < j < s.len() implies s[i] != s[j] by {
                if j == q.len() {
                    assert(s[i] == q[i]);
                    assert(q.contains(q[i]));
                    lemma_drop_ids_contains(r, ids, q[i]);
                    let k = choose|k: int| 0 <= k < r.len() && r[k] == q[i];
                    assert(p[k] == r[k]);
                    assert(p[k] != p[p.len() - 1]);
                }
            }
        }
    }
}

proof fn lemma_drop_ids_none(p: Seq<Pair>)
    ensures
        drop_ids(p, Set::empty()) == p,
    decreases p.len(),
{
    if p.len() > 0 {
        lemma_drop_ids_none(p.drop_last());
        assert(p.drop_last().push(p.last()) =~= p);
    }
}

proof fn lemma_drop_ids_union(p: Seq<Pair>, a: Set<Seq<char>>, b: Set<Seq<char>>)
    ensures
        drop_ids(drop_ids(p, a), b) == drop_ids(p, a.union(b)),
    decreases p.len(),
{
    if p.len() > 0 {
        lemma_drop_ids_union(p.drop_last(), a, b);
        let q = drop_ids(p.drop_last(), a);
        if !a.contains(p.last().1) {
            assert(q.push(p.last()).drop_last() =~= q);
        }
    }
}


/// The texts held by `v`, as a set.
pub open spec fn text_set(v: Seq<String>) -> Set<Seq<char>> {
    Set::new(|t: Seq<char>| has_text(v, t))
}


/// No two elements of `v` read the same.
pub open spec fn distinct_texts(v: Seq<String>) -> bool {
    forall|i: int, j: int| 0 <= i < j < v.len() ==> (#[trigger] v[i])@ != (#[trigger] v[j])@
}

/// Appends `t` unless `v` already holds its text.
fn push_new_text(v: &mut Vec<String>, t: String)
    ensures
        has_text(old(v)@, t@) ==> final(v)@ == old(v)@,
        !has_text(old(v)@, t@) ==> final(v)@ == old(v)@.push(t),
        distinct_texts(old(v)@) ==> distinct_texts(final(v)@),
{
    if !contains_text(v, &t) {
        let ghost before = v@;
        let ghost tv = t@;
        v.push(t);
        assert forall|i: int, j: int| distinct_texts(before) && 0 <= i < j < v@.len() implies (#[trigger] v@[i])@ != (#[trigger] v@[j])@ by {
            if j == before.len() {
                assert(v@[i] == before[i]);
                assert(before[i]@ != tv);
            } else {
                assert(v@[i] == before[i] && v@[j] == before[j]);
            }
        }
    }
}

/// The local consumers of every topic. Consumers are referred to by id; each
/// holds the sending end of its own unbounded queue. A queue is never bounded:
/// a slow consumer cannot lose messages, at the cost of memory.
pub struct RedisMultiplexed {
    entries: Vec<Subscription>,
}

/// What one pass of reconciliation asks of the broker connection.
pub struct SubscriptionDiff {
    pub subscribe: Vec<String>,
    pub unsubscribe: Vec<String>,
}

/// The outcome of handing one broker message to a topic's consumers.
pub struct FanOut {
    /// Every consumer whose queue was pushed to, in order.
    pub attempted: Vec<String>,
    /// Those whose queue had been abandoned; they are removed afterwards.
    pub failed: Vec<String>,
}

impl RedisMultiplexed {
    /// The registered (topic, consumer id) pairs, in order of registration.
    pub closed spec fn pairs(&self) -> Seq<Pair> {
        self.entries@.map_values(|e: Subscription| (e.topic@, e.id@))
    }

    pub open spec fn wf(&self) -> bool {
        unique(self.pairs())
    }

    /// The position of the registration of (topic, id).
    closed spec fn index_of(&self, topic: Seq<char>, id: Seq<char>) -> int {
        choose|k: int| 0 <= k < self.pairs().len() && self.pairs()[k] == (topic, id)
    }

    /// The sending end of the queue registered for consumer `id` of `topic`.
    pub closed spec fn sender_of(&self, topic: Seq<char>, id: Seq<char>) -> UnboundedSender<String> {
        self.entries@[self.index_of(topic, id)].tx
    }

    proof fn lemma_sender_at(&self, k: int)
        requires
            self.wf(),
            0 <= k < self.entries@.len(),
        ensures
            self.pairs()[k] == (self.entries@[k].topic@, self.entries@[k].id@),
            self.holds(self.entries@[k].topic@, self.entries@[k].id@),
            self.sender_of(self.entries@[k].topic@, self.entries@[k].id@) == self.entries@[k].tx,
    {
        let t = self.entries@[k].topic@;
        let i = self.entries@[k].id@;
        assert(self.pairs()[k] == (t, i));
        let c = self.index_of(t, i);
        assert(0 <= c < self.pairs().len() && self.pairs()[c] == (t, i));
        assert(c == k);
    }

    proof fn lemma_held_at(&self, t: Seq<char>, i: Seq<char>) -> (k: int)
        requires
            self.wf(),
            self.holds(t, i),
        ensures
            0 <= k < self.entries@.len(),
            self.entries@[k].topic@ == t,
            self.entries@[k].id@ == i,
            self.sender_of(t, i) == self.entries@[k].tx,
    {
        let k = choose|k: int| 0 <= k < self.pairs().len() && self.pairs()[k] == (t, i);
        self.lemma_sender_at(k);
        k
    }

    /// The consumers of `topic`, in order.
    pub open spec fn consumers(&self, topic: Seq<char>) -> Seq<Seq<char>> {
        ids_of(self.pairs(), topic)
    }

    /// Whether `id` consumes `topic`.
    pub open spec fn holds(&self, topic: Seq<char>, id: Seq<char>) -> bool {
        self.pairs().contains((topic, id))
    }

    /// Whether some consumer wants `topic`.
    pub open spec fn demanded(&self, topic: Seq<char>) -> bool {
        exists|id: Seq<char>| self.holds(topic, id)
    }

    pub fn new() -> (r: Self)
        ensures
            r.wf(),
            r.pairs() == Seq::<Pair>::empty(),
    {
        let r = RedisMultiplexed { entries: Vec::new() };
        assert(r.pairs() =~= Seq::<Pair>::empty());
        r
    }

    /// Registers consumer `id` for `channel` and returns the receiving end of
    /// a new queue. Registering the same pair again replaces its queue.
    pub fn subscribe(&mut self, id: &str, channel: &str) -> (r: UnboundedReceiver<String>)
        requires
            old(self).wf(),
        ensures
            final(self).wf(),
            final(self).pairs() == (if old(self).pairs().contains((channel@, id@)) {
                old(self).pairs()
            } else {
                old(self).pairs().push((channel@, id@))
            }),
            same_channel(final(self).sender_of(channel@, id@), r),
            sent_through(final(self).sender_of(channel@, id@)) == Seq::<Seq<char>>::empty(),
            forall|t: Seq<char>, i: Seq<char>| #[trigger] final(self).holds(t, i) && (t, i) != (channel@, id@)
                ==> final(self).sender_of(t, i) == old(self).sender_of(t, i),
    {
        let topic = String::from_str(channel);
        let key = String::from_str(id);
        let (tx, rx) = new_queue();
        let ghost txg = tx;
        let ghost s0 = *self;
        let ghost p0 = self.pairs();
        assert(p0 == old(self).pairs());
        let mut i: usize = 0;
        while i < self.entries.len()
            invariant
                i <= self.entries.len(),
                p0 == old(self).pairs(),
                s0 == *old(self),
                self.entries@ == s0.entries@,
                tx == txg,
                same_channel(txg, rx),
                sent_through(txg) == Seq::<Seq<char>>::empty(),
                self.pairs() == p0,
                unique(p0),
                topic@ == channel@,
                key@ == id@,
                forall|k: int| 0 <= k < i ==> p0[k] != (channel@, id@),
            decreases self.entries.len() - i,
        {
            if self.entries[i].topic == topic && self.entries[i].id == key {
                self.entries.set(i, Subscription { topic, id: key, tx });
                assert(self.pairs() =~= p0);
                assert(p0.contains((channel@, id@))) by {
                    assert(p0[i as int] == (channel@, id@));
                }
                assert(self.pairs() == old(self).pairs());
                proof {
                    self.lemma_sender_at(i as int);
                    assert forall|t: Seq<char>, x: Seq<char>| #[trigger] self.holds(t, x) && (t, x) != (channel@, id@)
                        implies self.sender_of(t, x) == s0.sender_of(t, x) by {
                        let k = self.lemma_held_at(t, x);
                        assert(k != i);
                        assert(self.entries@[k] == s0.entries@[k]);
                        s0.lemma_sender_at(k);
                    }
                }
                return rx;
            }
            i = i + 1;
        }
        assert(!p0.contains((channel@, id@)));
        let ghost n0 = self.entries@.len();
        self.entries.push(Subscription { topic, id: key, tx });
        assert(self.pairs() =~= p0.push((channel@, id@)));
        assert(unique(self.pairs()));
        proof {
            self.lemma_sender_at(n0 as int);
            assert forall|t: Seq<char>, x: Seq<char>| #[trigger] self.holds(t, x) && (t, x) != (channel@, id@)
                implies self.sender_of(t, x) == s0.sender_of(t, x) by {
                let k = self.lemma_held_at(t, x);
                assert(k != n0);
                assert(self.entries@[k] == s0.entries@[k]);
                s0.lemma_sender_at(k);
            }
        }
        rx
    }

    /// Deregisters consumer `id` from every topic it held.
    pub fn remove(&mut self, id: &str)
        requires
            old(self).wf(),
        ensures
            final(self).wf(),
            final(self).pairs() == drop_ids(old(self).pairs(), set![id@]),
            forall|t: Seq<char>, i: Seq<char>| #[trigger] final(self).holds(t, i) ==> final(self).sender_of(t, i) == old(self).sender_of(t, i),
    {
        let key = String::from_str(id);
        let ghost e0 = self.entries@;
        let ghost s0 = *self;
        assert forall|m: int| 0 <= m < self.entries@.len() implies e0.contains(#[trigger] self.entries@[m]) by {
            assert(self.entries@[m] == e0[m]);
        }
        let ghost ids = set![id@];
        let ghost p0 = self.pairs();
        let mut i: usize = 0;
        let ghost mut j: int = 0;
        while i < self.entries.len()
            invariant
                0 <= i <= self.entries.len(),
                0 <= j <= p0.len(),
                key@ == id@,
                ids == set![id@],
                self.pairs().subrange(0, i as int) == drop_ids(p0.subrange(0, j), ids),
                self.pairs().subrange(i as int, self.pairs().len() as int) == p0.subrange(j, p0.len() as int),
                e0 == s0.entries@,
                p0 == s0.pairs(),
                forall|m: int| 0 <= m < self.entries@.len() ==> e0.contains(#[trigger] self.entries@[m]),
            decreases self.entries.len() - i,
        {
            let ghost eb = self.entries@;
            let ghost before = self.pairs();
            assert(before.len() == self.entries.len());
            assert(before.subrange(i as int, before.len() as int).len() == p0.subrange(j, p0.len() as int).len());
            assert(j < p0.len());
            assert(before[i as int] == p0[j]) by {
                assert(before.subrange(i as int, before.len() as int)[0] == p0.subrange(j, p0.len() as int)[0]);
            }
            assert(p0.subrange(0, j + 1).drop_last() =~= p0.subrange(0, j));
            if self.entries[i].id == key {
                self.entries.remove(i);
                assert forall|m: int| 0 <= m < self.entries@.len() implies e0.contains(#[trigger] self.entries@[m]) by {
                    if m < i {
                        assert(self.entries@[m] == eb[m]);
                        assert(e0.contains(eb[m]));
                    } else {
                        assert(self.entries@[m] == eb[m + 1]);
                        assert(e0.contains(eb[m + 1]));
                    }
                }
                assert(self.pairs() =~= before.remove(i as int));
                assert(self.pairs().subrange(0, i as int) =~= before.subrange(0, i as int));
                assert(self.pairs().subrange(i as int, self.pairs().len() as int) =~= before.subrange(
                    i + 1,
                    before.len() as int,
                ));
                let ghost tb = before.subrange(i as int, before.len() as int);
                let ghost tp = p0.subrange(j, p0.len() as int);
                assert(before.subrange(i + 1, before.len() as int) =~= tb.subrange(1, tb.len() as int));
                assert(p0.subrange(j + 1, p0.len() as int) =~= tp.subrange(1, tp.len() as int));
            } else {
                i = i + 1;
                assert(self.pairs().subrange(0, i as int) =~= before.subrange(0, i - 1).push(p0[j]));
                let ghost tb = before.subrange(i - 1, before.len() as int);
                let ghost tp = p0.subrange(j, p0.len() as int);
                assert(self.pairs().subrange(i as int, self.pairs().len() as int) =~= tb.subrange(1, tb.len() as int));
                assert(p0.subrange(j + 1, p0.len() as int) =~= tp.subrange(1, tp.len() as int));
            }
            proof {
                j = j + 1;
            }
        }
        assert(p0.subrange(j, p0.len() as int).len() == 0);
        assert(p0.subrange(0, j) =~= p0);
        assert(self.pairs().subrange(0, i as int) =~= self.pairs());
        proof {
            lemma_drop_ids_unique(p0, ids);
            assert forall|t: Seq<char>, i: Seq<char>| #[trigger] self.holds(t, i) implies self.sender_of(t, i) == s0.sender_of(t, i) by {
                let k = self.lemma_held_at(t, i);
                assert(e0.contains(self.entries@[k]));
                let q = choose|q: int| 0 <= q < e0.len() && e0[q] == self.entries@[k];
                s0.lemma_sender_at(q);
            }
        }
    }

    /// The number of consumers of `channel`.
    pub fn subscribed_count(&self, channel: &str) -> (r: usize)
        ensures
            r == self.consumers(channel@).len(),
    {
        let topic = String::from_str(channel);
        let ghost p = self.pairs();
        let mut n: usize = 0;
        let mut i: usize = 0;
        while i < self.entries.len()
            invariant
                i <= self.entries.len(),
                p == self.pairs(),
                topic@ == channel@,
                n == ids_of(p.subrange(0, i as int), channel@).len(),
                n <= i,
            decreases self.entries.len() - i,
        {
            assert(p.subrange(0, i + 1).drop_last() =~= p.subrange(0, i as int));
            if self.entries[i].topic == topic {
                n = n + 1;
            }
            i = i + 1;
        }
        assert(p.subrange(0, i as int) =~= p);
        n
    }

    /// Whether some consumer wants `topic`.
    fn wants(&self, topic: &String) -> (r: bool)
        ensures
            r == self.demanded(topic@),
    {
        let ghost p = self.pairs();
        let mut i: usize = 0;
        while i < self.entries.len()
            invariant
                i <= self.entries.len(),
                p == self.pairs(),
                forall|k: int| 0 <= k < i ==> (#[trigger] p[k]).0 != topic@,
            decreases self.entries.len() - i,
        {
            if self.entries[i].topic == *topic {
                assert(self.holds(topic@, p[i as int].1)) by {
                    assert(p[i as int] == (topic@, p[i as int].1));
                }
                return true;
            }
            i = i + 1;
        }
        assert forall|id: Seq<char>| !self.holds(topic@, id) by {
            if p.contains((topic@, id)) {
                let k = choose|k: int| 0 <= k < p.len() && p[k] == (topic@, id);
                assert(p[k].0 != topic@);
            }
        }
        false
    }

    /// Hands `payload` to the queue of every consumer of `channel`, then
    /// removes, from every topic, each consumer whose queue was abandoned.
    /// Removal waits until the pass is over, so the pass sees one fixed map.
    /// Every consumer that stays registered for `channel` has had `payload`
    /// queued once; no other queue has been handed anything.
    pub fn fan_out(&mut self, channel: &str, payload: &String) -> (r: FanOut)
        requires
            old(self).wf(),
        ensures
            final(self).wf(),
            texts(r.attempted@) == old(self).consumers(channel@),
            forall|k: int| 0 <= k < r.failed@.len() ==> has_text(r.attempted@, (#[trigger] r.failed@[k])@),
            final(self).pairs() == drop_ids(old(self).pairs(), text_set(r.failed@)),
            forall|t: Seq<char>, i: Seq<char>| #[trigger] final(self).holds(t, i) ==> sent_through(final(self).sender_of(t, i))
                == (if t == channel@ {
                    sent_through(old(self).sender_of(t, i)).push(payload@)
                } else {
                    sent_through(old(self).sender_of(t, i))
                }),
            forall|t: Seq<char>, i: Seq<char>, rx: UnboundedReceiver<String>| final(self).holds(t, i)
                ==> (#[trigger] same_channel(final(self).sender_of(t, i), rx) == same_channel(old(self).sender_of(t, i), rx)),
    {
        let topic = String::from_str(channel);
        let ghost p0 = self.pairs();
        let ghost e0 = self.entries@;
        let ghost s0 = *self;
        let mut attempted: Vec<String> = Vec::new();
        let mut failed: Vec<String> = Vec::new();
        let ghost mut fidx: Seq<int> = Seq::empty();
        let mut i: usize = 0;
        while i < self.entries.len()
            invariant
                i <= self.entries.len(),
                self.entries@.len() == e0.len(),
                e0 == s0.entries@,
                p0 == s0.pairs(),
                self.pairs() == p0,
                unique(p0),
                topic@ == channel@,
                texts(attempted@) == ids_of(p0.subrange(0, i as int), channel@),
                forall|k: int| 0 <= k < failed@.len() ==> has_text(attempted@, (#[trigger] failed@[k])@),
                fidx.len() == failed@.len(),
                forall|k: int| 0 <= k < failed@.len() ==> 0 <= #[trigger] fidx[k] < i && e0[fidx[k]].topic@ == channel@ && failed@[k]@ == e0[fidx[k]].id@,
                forall|k: int| 0 <= k < e0.len() ==> (#[trigger] self.entries@[k]).topic == e0[k].topic && self.entries@[k].id == e0[k].id,
                forall|k: int, rx: UnboundedReceiver<String>| 0 <= k < e0.len() ==> #[trigger] same_channel(self.entries@[k].tx, rx) == same_channel(e0[k].tx, rx),
                forall|k: int| 0 <= k < e0.len() ==> sent_through((#[trigger] self.entries@[k]).tx) == (if k < i && e0[k].topic@ == channel@ && !has_text(failed@, e0[k].id@) {
                    sent_through(e0[k].tx).push(payload@)
                } else {
                    sent_through(e0[k].tx)
                }),
            decreases self.entries.len() - i,
        {
            assert(p0.subrange(0, i + 1).drop_last() =~= p0.subrange(0, i as int));
            assert(p0[i as int] == (e0[i as int].topic@, e0[i as int].id@));
            if self.entries[i].topic == topic {
                let ghost before_entries = self.entries@;
                let ghost fb = failed@;
                let id = self.entries[i].id.clone();
                let delivered = push_to_queue(&mut self.entries[i].tx, payload.clone());
                assert(self.pairs() =~= p0) by {
                    assert forall|k: int| 0 <= k < p0.len() implies self.pairs()[k] == p0[k] by {
                        assert(self.entries@[k].topic == before_entries[k].topic);
                    }
                }
                let ghost before = attempted@;
                attempted.push(id.clone());
                assert(texts(attempted@) =~= texts(before).push(id@));
                assert forall|k: int| 0 <= k < failed@.len() implies has_text(attempted@, (#[trigger] failed@[k])@) by {
                    let m = choose|m: int| 0 <= m < before.len() && (#[trigger] before[m])@ == failed@[k]@;
                    assert(attempted@[m] == before[m]);
                }
                let ghost fib = fidx;
                if !delivered {
                    failed.push(id.clone());
                    proof {
                        fidx = fidx.push(i as int);
                    }
                    assert(attempted@[attempted@.len() - 1]@ == id@);
                    assert(failed@[failed@.len() - 1]@ == e0[i as int].id@);
                }
                proof {
                    assert forall|k: int| 0 <= k < failed@.len() implies 0 <= #[trigger] fidx[k] < i + 1 && e0[fidx[k]].topic@ == channel@ && failed@[k]@ == e0[fidx[k]].id@ by {
                        if k < fb.len() {
                            assert(failed@[k] == fb[k]);
                            assert(fidx[k] == fib[k]);
                        } else {
                            assert(e0[i as int].topic@ == channel@);
                        }
                    }
                    assert forall|k: int| 0 <= k < e0.len() implies sent_through((#[trigger] self.entries@[k]).tx) == (if k < i + 1 && e0[k].topic@ == channel@ && !has_text(failed@, e0[k].id@) {
                        sent_through(e0[k].tx).push(payload@)
                    } else {
                        sent_through(e0[k].tx)
                    }) by {
                        if k != i && k < i && e0[k].topic@ == channel@ {
                            // the ids of one topic are distinct, so this pass did not add e0[k]'s id
                            assert(p0[k] != p0[i as int]);
                            assert(p0[k] == (e0[k].topic@, e0[k].id@));
                            if has_text(failed@, e0[k].id@) && !has_text(fb, e0[k].id@) {
                                let m = choose|m: int| 0 <= m < failed@.len() && (#[trigger] failed@[m])@ == e0[k].id@;
                                if m < fb.len() {
                                    assert(failed@[m] == fb[m]);
                                }
                            }
                            if has_text(fb, e0[k].id@) {
                                let m = choose|m: int| 0 <= m < fb.len() && (#[trigger] fb[m])@ == e0[k].id@;
                                assert(failed@[m] == fb[m]);
                            }
                        }
                        if k == i && !delivered {
                            assert(failed@[failed@.len() - 1]@ == e0[k].id@);
                        }
                        if k == i && delivered {
                            if has_text(failed@, e0[k].id@) {
                                let m = choose|m: int| 0 <= m < failed@.len() && (#[trigger] failed@[m])@ == e0[k].id@;
                                assert(failed@[m] == fb[m]);
                                let q = fib[m];
                                assert(0 <= q < i && e0[q].topic@ == channel@ && fb[m]@ == e0[q].id@);
                                assert(p0[q] == (e0[q].topic@, e0[q].id@));
                                assert(p0[q] == p0[i as int]);
                            }
                        }
                    }
                }
            }
            i = i + 1;
        }
        assert(p0.subrange(0, i as int) =~= p0);
        let ghost mid = *self;
        assert(mid.wf());
        proof {
            assert(text_set(failed@.subrange(0, 0)) =~= Set::empty());
            lemma_drop_ids_none(p0);
        }
        let mut k: usize = 0;
        while k < failed.len()
            invariant
                k <= failed.len(),
                self.wf(),
                mid.wf(),
                self.pairs() == drop_ids(p0, text_set(failed@.subrange(0, k as int))),
                forall|t: Seq<char>, i: Seq<char>| #[trigger] self.holds(t, i) ==> mid.holds(t, i) && self.sender_of(t, i) == mid.sender_of(t, i),
            decreases failed.len() - k,
        {
            let ghost before = *self;
            self.remove(failed[k].as_str());
            assert forall|t: Seq<char>, i: Seq<char>| #[trigger] self.holds(t, i) implies mid.holds(t, i) && self.sender_of(t, i) == mid.sender_of(t, i) by {
                lemma_drop_ids_contains(before.pairs(), set![failed@[k as int]@], (t, i));
                assert(before.holds(t, i));
            }
            proof {
                let a = text_set(failed@.subrange(0, k as int));
                lemma_drop_ids_union(p0, a, set![failed@[k as int]@]);
                assert(a.union(set![failed@[k as int]@]) =~= text_set(failed@.subrange(0, k + 1))) by {
                    assert forall|t: Seq<char>| has_text(failed@.subrange(0, k + 1), t) implies a.union(set![failed@[k as int]@]).contains(t) by {
                        let m = choose|m: int| 0 <= m < k + 1 && (#[trigger] failed@.subrange(0, k + 1)[m])@ == t;
                        if m < k {
                            assert(failed@.subrange(0, k as int)[m] == failed@.subrange(0, k + 1)[m]);
                        }
                    }
                    assert forall|t: Seq<char>| a.contains(t) implies has_text(failed@.subrange(0, k + 1), t) by {
                        let m = choose|m: int| 0 <= m < k && (#[trigger] failed@.subrange(0, k as int)[m])@ == t;
                        assert(failed@.subrange(0, k + 1)[m] == failed@.subrange(0, k as int)[m]);
                    }
                    assert(failed@.subrange(0, k + 1)[k as int] == failed@[k as int]);
                }
            }
            k = k + 1;
        }
        assert(failed@.subrange(0, k as int) =~= failed@);
        proof {
            assert forall|t: Seq<char>, i: Seq<char>| #[trigger] self.holds(t, i) implies sent_through(self.sender_of(t, i))
                == (if t == channel@ {
                    sent_through(s0.sender_of(t, i)).push(payload@)
                } else {
                    sent_through(s0.sender_of(t, i))
                }) && (forall|rx: UnboundedReceiver<String>| same_channel(self.sender_of(t, i), rx) == same_channel(s0.sender_of(t, i), rx)) by {
                let q = mid.lemma_held_at(t, i);
                s0.lemma_sender_at(q);
                lemma_drop_ids_contains(p0, text_set(failed@), (t, i));
                assert(!has_text(failed@, i));
            }
        }
        FanOut { attempted, failed }
    }

    /// One reconciliation pass. `subscribed` holds the topics that the broker
    /// connection is subscribed to; afterwards it holds exactly the topics
    /// that some consumer wants, and the result says which to subscribe to
    /// and which to leave.
    pub fn reconcile(&self, subscribed: &mut Vec<String>) -> (r: SubscriptionDiff)
        ensures
            forall|t: Seq<char>| has_text(final(subscribed)@, t) <==> self.demanded(t),
            forall|t: Seq<char>|
                has_text(r.subscribe@, t) <==> self.demanded(t) && !has_text(old(subscribed)@, t),
            forall|t: Seq<char>|
                has_text(r.unsubscribe@, t) <==> has_text(old(subscribed)@, t) && !self.demanded(t),
            distinct_texts(final(subscribed)@),
            distinct_texts(r.subscribe@),
            distinct_texts(r.unsubscribe@),
    {
        let ghost old_sub = subscribed@;
        let ghost p = self.pairs();
        let mut kept: Vec<String> = Vec::new();
        let mut unsubscribe: Vec<String> = Vec::new();
        let mut i: usize = 0;
        while i < subscribed.len()
            invariant
                i <= subscribed.len(),
                subscribed@ == old_sub,
                forall|k: int| 0 <= k < kept@.len() ==> self.demanded((#[trigger] kept@[k])@) && has_text(old_sub, kept@[k]@),
                forall|k: int| 0 <= k < unsubscribe@.len() ==> !self.demanded((#[trigger] unsubscribe@[k])@) && has_text(old_sub, unsubscribe@[k]@),
                forall|k: int| 0 <= k < i ==> (self.demanded((#[trigger] old_sub[k])@) ==> has_text(kept@, old_sub[k]@)),
                forall|k: int| 0 <= k < i ==> (!self.demanded((#[trigger] old_sub[k])@) ==> has_text(unsubscribe@, old_sub[k]@)),
                distinct_texts(kept@),
                distinct_texts(unsubscribe@),
            decreases subscribed.len() - i,
        {
            let t = subscribed[i].clone();
            let ghost tv = t@;
            assert(tv == old_sub[i as int]@);
            assert(has_text(old_sub, tv));
            let ghost kb = kept@;
            let ghost ub = unsubscribe@;
            if self.wants(&t) {
                push_new_text(&mut kept, t);
            } else {
                push_new_text(&mut unsubscribe, t);
            }
            assert forall|k: int| 0 <= k < i + 1 implies (self.demanded((#[trigger] old_sub[k])@) ==> has_text(kept@, old_sub[k]@)) by {
                if self.demanded(old_sub[k]@) {
                    if k < i {
                        let m = choose|m: int| 0 <= m < kb.len() && (#[trigger] kb[m])@ == old_sub[k]@;
                        assert(kept@[m] == kb[m]);
                    } else if has_text(kb, tv) {
                        let m = choose|m: int| 0 <= m < kb.len() && (#[trigger] kb[m])@ == tv;
                        assert(kept@[m] == kb[m]);
                    } else {
                        assert(kept@[kb.len() as int]@ == tv);
                    }
                }
            }
            assert forall|k: int| 0 <= k < i + 1 implies (!self.demanded((#[trigger] old_sub[k])@) ==> has_text(unsubscribe@, old_sub[k]@)) by {
                if !self.demanded(old_sub[k]@) {
                    if k < i {
                        let m = choose|m: int| 0 <= m < ub.len() && (#[trigger] ub[m])@ == old_sub[k]@;
                        assert(unsubscribe@[m] == ub[m]);
                    } else if has_text(ub, tv) {
                        let m = choose|m: int| 0 <= m < ub.len() && (#[trigger] ub[m])@ == tv;
                        assert(unsubscribe@[m] == ub[m]);
                    } else {
                        assert(unsubscribe@[ub.len() as int]@ == tv);
                    }
                }
            }
            i = i + 1;
        }
        let mut subscribe: Vec<String> = Vec::new();
        let mut j: usize = 0;
        while j < self.entries.len()
            invariant
                j <= self.entries.len(),
                p == self.pairs(),
                subscribed@ == old_sub,
                forall|k: int| 0 <= k < subscribe@.len() ==> self.demanded((#[trigger] subscribe@[k])@) && !has_text(old_sub, subscribe@[k]@),
                forall|k: int| 0 <= k < j ==> (!has_text(old_sub, (#[trigger] p[k]).0) ==> has_text(subscribe@, p[k].0)),
                distinct_texts(subscribe@),
                forall|k: int| 0 <= k < kept@.len() ==> self.demanded((#[trigger] kept@[k])@) && has_text(old_sub, kept@[k]@),
                distinct_texts(kept@),
            decreases self.entries.len() - j,
        {
            let t = self.entries[j].topic.clone();
            assert(t@ == p[j as int].0);
            if !contains_text(subscribed, &t) && !contains_text(&subscribe, &t) {
                let ghost before = subscribe@;
                assert(self.holds(t@, p[j as int].1)) by {
                    assert(p[j as int] == (t@, p[j as int].1));
                }
                let ghost tv = t@;
                subscribe.push(t);
                assert forall|a: int, b: int| 0 <= a < b < subscribe@.len() implies (#[trigger] subscribe@[a])@ != (#[trigger] subscribe@[b])@ by {
                    if b == before.len() {
                        assert(subscribe@[a] == before[a]);
                        assert(before[a]@ != tv);
                    } else {
                        assert(subscribe@[a] == before[a] && subscribe@[b] == before[b]);
                    }
                }
                assert forall|k: int| 0 <= k < j + 1 implies (!has_text(old_sub, (#[trigger] p[k]).0) ==> has_text(subscribe@, p[k].0)) by {
                    if k < j && !has_text(old_sub, p[k].0) {
                        let m = choose|m: int| 0 <= m < before.len() && (#[trigger] before[m])@ == p[k].0;
                        assert(subscribe@[m] == before[m]);
                    }
                    if k == j {
                        assert(subscribe@[before.len() as int]@ == p[k].0);
                    }
                }
            }
            j = j + 1;
        }
        let mut next: Vec<String> = Vec::new();
        let mut a: usize = 0;
        while a < kept.len()
            invariant
                a <= kept.len(),
                next@ == kept@.subrange(0, a as int),
            decreases kept.len() - a,
        {
            next.push(kept[a].clone());
            assert(next@ =~= kept@.subrange(0, a + 1));
            a = a + 1;
        }
        let mut b: usize = 0;
        while b < subscribe.len()
            invariant
                b <= subscribe.len(),
                a == kept.len(),
                next@ == kept@ + subscribe@.subrange(0, b as int),
            decreases subscribe.len() - b,
        {
            next.push(subscribe[b].clone());
            assert(next@ =~= kept@ + subscribe@.subrange(0, b + 1));
            b = b + 1;
        }
        assert(kept@.subrange(0, a as int) =~= kept@);
        assert(subscribe@.subrange(0, b as int) =~= subscribe@);
        let ghost n = next@;
        assert forall|x: int, y: int| 0 <= x < y < n.len() implies (#[trigger] n[x])@ != (#[trigger] n[y])@ by {
            let kl = kept@.len() as int;
            if y < kl {
                assert(n[x] == kept@[x] && n[y] == kept@[y]);
            } else if x >= kl {
                assert(n[x] == subscribe@[x - kl] && n[y] == subscribe@[y - kl]);
            } else {
                assert(n[x] == kept@[x] && n[y] == subscribe@[y - kl]);
                assert(has_text(old_sub, kept@[x]@));
                assert(!has_text(old_sub, subscribe@[y - kl]@));
            }
        }
        assert forall|t: Seq<char>| has_text(n, t) <==> self.demanded(t) by {
            if has_text(n, t) {
                let m = choose|m: int| 0 <= m < n.len() && (#[trigger] n[m])@ == t;
                if m < kept@.len() {
                    assert(n[m] == kept@[m]);
                } else {
                    assert(n[m] == subscribe@[m - kept@.len()]);
                }
            }
            if self.demanded(t) {
                let id = choose|id: Seq<char>| self.holds(t, id);
                let k = choose|k: int| 0 <= k < p.len() && p[k] == (t, id);
                assert(p[k].0 == t);
                if has_text(old_sub, t) {
                    let m = choose|m: int| 0 <= m < old_sub.len() && (#[trigger] old_sub[m])@ == t;
                    let q = choose|q: int| 0 <= q < kept@.len() && (#[trigger] kept@[q])@ == old_sub[m]@;
                    assert(n[q] == kept@[q]);
                } else {
                    let q = choose|q: int| 0 <= q < subscribe@.len() && (#[trigger] subscribe@[q])@ == p[k].0;
                    assert(n[kept@.len() + q] == subscribe@[q]);
                }
            }
        }
        assert forall|t: Seq<char>| has_text(subscribe@, t) <==> self.demanded(t) && !has_text(old_sub, t) by {
            if has_text(subscribe@, t) {
                let m = choose|m: int| 0 <= m < subscribe@.len() && (#[trigger] subscribe@[m])@ == t;
            }
            if self.demanded(t) && !has_text(old_sub, t) {
                let id = choose|id: Seq<char>| self.holds(t, id);
                let k = choose|k: int| 0 <= k < p.len() && p[k] == (t, id);
                assert(p[k].0 == t);
            }
        }
        assert forall|t: Seq<char>| has_text(unsubscribe@, t) <==> has_text(old_sub, t) && !self.demanded(t) by {
            if has_text(unsubscribe@, t) {
                let m = choose|m: int| 0 <= m < unsubscribe@.len() && (#[trigger] unsubscribe@[m])@ == t;
            }
            if has_text(old_sub, t) && !self.demanded(t) {
                let m = choose|m: int| 0 <= m < old_sub.len() && (#[trigger] old_sub[m])@ == t;
            }
        }
        *subscribed = next;
        SubscriptionDiff { subscribe, unsubscribe }
    }
}

proof fn lemma_ids_of_contains(p: Seq<Pair>, t: Seq<char>, id: Seq<char>)
    ensures
        ids_of(p, t).contains(id) <==> p.contains((t, id)),
    decreases p.len(),
{
    if p.len() > 0 {
        let r = p.drop_last();
        lemma_ids_of_contains(r, t, id);
        let q = ids_of(r, t);
        if p.contains((t, id)) {
            let k = choose|k: int| 0 <= k < p.len() && p[k] == (t, id);
            if k < p.len() - 1 {
                assert(r[k] == (t, id));
            } else {
                assert(q.push(id)[q.len() as int] == id);
            }
        }
        if r.contains((t, id)) {
            let k = choose|k: int| 0 <= k < r.len() && r[k] == (t, id);
            assert(p[k] == (t, id));
        }
        if p.last().0 == t {
            if q.contains(id) {
                let k = choose|k: int| 0 <= k < q.len() && q[k] == id;
                assert(q.push(p.last().1)[k] == id);
            }
            if q.push(p.last().1).contains(id) {
                let k = choose|k: int| 0 <= k < q.len() + 1 && q.push(p.last().1)[k] == id;
                if k < q.len() {
                    assert(q[k] == id);
                } else {
                    assert(p[p.len() - 1] == (t, id));
                }
            }
        }
    }
}

/// Removing a consumer id takes it out of every topic, and every other
/// registration stays: once removed, no fan-out targets it, whatever the
/// topic, until it subscribes again with a new queue.
pub proof fn removed_consumer_is_never_targeted(
    before: RedisMultiplexed,
    after: RedisMultiplexed,
    id: Seq<char>,
    topic: Seq<char>,
)
    requires
        after.pairs() == drop_ids(before.pairs(), set![id]),
    ensures
        !after.holds(topic, id),
        !after.consumers(topic).contains(id),
        forall|t: Seq<char>, i: Seq<char>| #[trigger] after.holds(t, i) <==> before.holds(t, i) && i != id,
{
    lemma_drop_ids_contains(before.pairs(), set![id], (topic, id));
    lemma_ids_of_contains(after.pairs(), topic, id);
    assert forall|t: Seq<char>, i: Seq<char>| #[trigger] after.holds(t, i) <==> before.holds(t, i) && i != id by {
        lemma_drop_ids_contains(before.pairs(), set![id], (t, i));
    }
}

} // verus!
