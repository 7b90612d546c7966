//! The broadcast hub: the owned registry of live subscribers, each with a
//! bounded outbound queue, and the fan-out of each observation to every open
//! subscriber. A slow subscriber never blocks the others: on overflow its
//! own oldest unsent frame is dropped, and no other queue is touched.
use vstd::prelude::*;
use crate::frame::{frame_text, render_frame};
use crate::observation::Observation;

verus! {

/// Lifecycle of one subscriber connection.
#[derive(Clone, Copy, PartialEq, Eq, Structural, Debug)]
pub enum ConnState {
    Connecting,
    Open,
    Closing,
}

/// One live subscriber: an opaque handle and the outbound FIFO of frames
/// not yet handed to its transport, oldest first.
pub struct Subscriber {
    pub id: u64,
    pub state: ConnState,
    pub queue: Vec<String>,
}

/// The mathematical shape of a subscriber: its queue as a sequence of frame
/// texts, oldest first.
#[verifier::ext_equal]
pub struct SubscriberModel {
    pub id: u64,
    pub state: ConnState,
    pub queue: Seq<Seq<char>>,
}

impl View for Subscriber {
    type V = SubscriberModel;

    open spec fn view(&self) -> SubscriberModel {
        SubscriberModel {
            id: self.id,
            state: self.state,
            queue: self.queue@.map_values(|f: String| f@),
        }
    }
}

/// Appends a frame to a bounded queue: at capacity, the oldest entry leaves
/// first.
pub open spec fn enqueue_bounded(q: Seq<Seq<char>>, f: Seq<char>, cap: nat) -> Seq<Seq<char>> {
    if q.len() < cap {
        q.push(f)
    } else {
        q.drop_first().push(f)
    }
}

/// How one publish changes one subscriber: an open subscriber's queue takes
/// the frame; a connecting or closing subscriber is untouched.
pub open spec fn after_publish(m: SubscriberModel, f: Seq<char>, cap: nat) -> SubscriberModel {
    if m.state == ConnState::Open {
        SubscriberModel { queue: enqueue_bounded(m.queue, f, cap), ..m }
    } else {
        m
    }
}

/// The registry with the subscriber at the first position holding `id`
/// removed; removing an absent id changes nothing.
pub open spec fn without_id(subs: Seq<SubscriberModel>, id: u64) -> Seq<SubscriberModel>
    decreases subs.len(),
{
    if subs.len() == 0 {
        subs
    } else {
        let rest = without_id(subs.drop_last(), id);
        if subs.last().id == id {
            rest
        } else {
            rest.push(subs.last())
        }
    }
}

/// Index of the first subscriber holding `id`, or `subs.len()` if none does.
pub open spec fn first_with_id(subs: Seq<SubscriberModel>, id: u64) -> int
    decreases subs.len(),
{
    if subs.len() == 0 {
        0
    } else if subs[0].id == id {
        0
    } else {
        1 + first_with_id(subs.subrange(1, subs.len() as int), id)
    }
}

/// The broadcast hub. It owns the subscriber registry outright; ids are
/// handed out by the hub and never reused.
pub struct Hub {
    pub subscribers: Vec<Subscriber>,
    pub capacity: usize,
    pub next_id: u64,
}

impl Hub {
    /// The registry as a sequence of subscriber models, in accept order.
    pub open spec fn subs(self) -> Seq<SubscriberModel> {
        self.subscribers@.map_values(|s: Subscriber| s@)
    }

    pub open spec fn wf(self) -> bool {
        &&& 1 <= self.capacity
        &&& forall|i: int|
            0 <= i < self.subs().len() ==> (#[trigger] self.subs()[i]).queue.len()
                <= self.capacity
        &&& forall|i: int| 0 <= i < self.subs().len() ==> (#[trigger] self.subs()[i]).id < self.next_id
        &&& forall|i: int, j: int|
            0 <= i < j < self.subs().len() ==> (#[trigger] self.subs()[i]).id != (
            #[trigger] self.subs()[j]).id
    }

    /// An empty hub whose queues are bounded by `capacity`.
    pub fn new(capacity: usize) -> (r: Hub)
        requires
            1 <= capacity,
        ensures
            r.wf(),
            r.capacity == capacity,
            r.next_id == 0,
            r.subs() == Seq::<SubscriberModel>::empty(),
    {
        let r = Hub { subscribers: Vec::new(), capacity, next_id: 0 };
        proof {
            assert(r.subs() =~~= Seq::<SubscriberModel>::empty());
        }
        r
    }

    /// Registers a new subscriber in state `Open` with an empty queue: a
    /// subscriber never sees a frame published before it connected.
    pub fn accept(&mut self) -> (id: u64)
        requires
            old(self).wf(),
            old(self).next_id < u64::MAX,
        ensures
            final(self).wf(),
            id == old(self).next_id,
            final(self).next_id == old(self).next_id + 1,
            final(self).capacity == old(self).capacity,
            final(self).subs() == old(self).subs().push(
                (SubscriberModel { id: id, state: ConnState::Open, queue: Seq::empty() }),
            ),
    {
        let id = self.next_id;
        self.next_id = id + 1;
        let sub = Subscriber { id, state: ConnState::Open, queue: Vec::new() };
        self.subscribers.push(sub);
        proof {
            assert(self.subs() =~~= old(self).subs().push(
                SubscriberModel { id: id, state: ConnState::Open, queue: Seq::empty() },
            ));
        }
        id
    }

    /// Serializes the observation once and enqueues the frame on every open
    /// subscriber's queue; every subscriber is transformed independently of
    /// all others.
    pub fn publish(&mut self, obs: &Observation)
        requires
            old(self).wf(),
        ensures
            final(self).wf(),
            final(self).capacity == old(self).capacity,
            final(self).next_id == old(self).next_id,
            final(self).subs() == old(self).subs().map_values(
                |m: SubscriberModel| after_publish(m, frame_text(*obs), old(self).capacity as nat),
            ),
    {
        let ghost goal = old(self).subs().map_values(
            |m: SubscriberModel| after_publish(m, frame_text(*obs), old(self).capacity as nat),
        );
        let frame = render_frame(obs);
        let n = self.subscribers.len();
        let mut updated: Vec<Subscriber> = Vec::new();
        let mut i: usize = 0;
        while i < n
            invariant
                0 <= i <= n,
                *self == *old(self),
                self.wf(),
                n == self.subscribers@.len(),
                frame@ == frame_text(*obs),
                goal == old(self).subs().map_values(
                    |m: SubscriberModel| after_publish(
                        m,
                        frame_text(*obs),
                        old(self).capacity as nat,
                    ),
                ),
                updated@.len() == i,
                forall|k: int| 0 <= k < i ==> (#[trigger] updated@[k])@ == goal[k],
            decreases n - i,
        {
            let sub = &self.subscribers[i];
            assert(sub@ == self.subs()[i as int]);
            let nsub = publish_one(sub, &frame, self.capacity);
            updated.push(nsub);
            i += 1;
        }
        self.subscribers = updated;
        proof {
            assert(self.subs() =~~= goal);
        }
    }

    /// Removes every subscriber holding `id`; absent ids are ignored, so the
    /// operation is idempotent. Also the reaction to a send failure.
    pub fn disconnect(&mut self, id: u64)
        requires
            old(self).wf(),
        ensures
            final(self).wf(),
            final(self).capacity == old(self).capacity,
            final(self).next_id == old(self).next_id,
            final(self).subs() == without_id(old(self).subs(), id),
    {
        let n = self.subscribers.len();
        let mut kept: Vec<Subscriber> = Vec::new();
        let mut i: usize = 0;
        while i < n
            invariant
                0 <= i <= n,
                *self == *old(self),
                self.wf(),
                n == self.subscribers@.len(),
                kept@.map_values(|s: Subscriber| s@) == without_id(
                    self.subs().take(i as int),
                    id,
                ),
            decreases n - i,
        {
            let ghost pre = kept@.map_values(|s: Subscriber| s@);
            let sub = &self.subscribers[i];
            assert(sub@ == self.subs()[i as int]);
            if sub.id != id {
                let c = clone_subscriber(sub);
                kept.push(c);
            }
            proof {
                assert(self.subs().take(i + 1).drop_last() =~~= self.subs().take(i as int));
                assert(self.subs().take(i + 1).last() == self.subs()[i as int]);
                if sub.id != id {
                    assert(kept@.map_values(|s: Subscriber| s@) =~~= pre.push(sub@));
                }
            }
            i += 1;
        }
        proof {
            assert(self.subs().take(n as int) =~~= self.subs());
            lemma_without_id_elems(old(self).subs(), id);
            lemma_without_id_distinct(old(self).subs(), id);
        }
        self.subscribers = kept;
        proof {
            assert forall|k: int| 0 <= k < self.subs().len() implies (#[trigger] self.subs()[k]).queue.len()
                <= self.capacity && self.subs()[k].id < self.next_id by {
                let elems = without_id(old(self).subs(), id);
                assert(old(self).subs().contains(elems[k]));
                let j = choose|j: int|
                    0 <= j < old(self).subs().len() && old(self).subs()[j] == elems[k];
                assert(old(self).subs()[j].queue.len() <= old(self).capacity);
            }
        }
    }

    /// Hands out everything queued for subscriber `id`, oldest first, and
    /// leaves its queue empty; no other subscriber is touched. Returns an
    /// empty vector for an absent id.
    pub fn take_frames(&mut self, id: u64) -> (r: Vec<String>)
        requires
            old(self).wf(),
        ensures
            final(self).wf(),
            final(self).capacity == old(self).capacity,
            final(self).next_id == old(self).next_id,
            ({
                let i = first_with_id(old(self).subs(), id);
                if i < old(self).subs().len() {
                    r@.map_values(|f: String| f@) == old(self).subs()[i].queue
                        && final(self).subs() == old(self).subs().update(
                        i,
                        (SubscriberModel { queue: Seq::empty(), ..old(self).subs()[i] }),
                    )
                } else {
                    r@.len() == 0 && final(self).subs() == old(self).subs()
                }
            }),
    {
        let n = self.subscribers.len();
        let mut i: usize = 0;
        while i < n && self.subscribers[i].id != id
            invariant
                0 <= i <= n,
                *self == *old(self),
                n == self.subscribers@.len(),
                forall|j: int| 0 <= j < i ==> (#[trigger] self.subs()[j]).id != id,
            decreases n - i,
        {
            assert(self.subscribers@[i as int]@ == self.subs()[i as int]);
            i += 1;
        }
        proof {
            lemma_first_with_id_is(self.subs(), id, i as int);
        }
        if i == n {
            proof {
                assert(self.subs() =~~= old(self).subs());
            }
            return Vec::new();
        }
        let sub = self.subscribers.remove(i);
        assert(sub@ == old(self).subs()[i as int]);
        let Subscriber { id: sid, state, queue: q } = sub;
        self.subscribers.insert(i, Subscriber { id: sid, state, queue: Vec::new() });
        proof {
            assert(self.subs() =~~= old(self).subs().update(
                i as int,
                SubscriberModel { queue: Seq::empty(), ..old(self).subs()[i as int] },
            ));
            assert(q@.map_values(|f: String| f@) =~~= old(self).subs()[i as int].queue);
        }
        q
    }
}

/// A copy of the queue's tail from `start` on.
fn clone_queue_from(q: &Vec<String>, start: usize) -> (r: Vec<String>)
    requires
        start <= q@.len(),
    ensures
        r@.map_values(|f: String| f@) == q@.map_values(|f: String| f@).subrange(
            start as int,
            q@.len() as int,
        ),
{
    let mut r: Vec<String> = Vec::new();
    let mut i: usize = start;
    while i < q.len()
        invariant
            start <= i <= q@.len(),
            r@.len() == i - start,
            forall|k: int| 0 <= k < i - start ==> (#[trigger] r@[k])@ == q@[start + k]@,
        decreases q@.len() - i,
    {
        let s = q[i].clone();
        assert(s@ == q@[i as int]@);
        r.push(s);
        i += 1;
    }
    proof {
        assert(r@.map_values(|f: String| f@) =~~= q@.map_values(|f: String| f@).subrange(
            start as int,
            q@.len() as int,
        ));
    }
    r
}

/// A copy of one subscriber with the same model.
fn clone_subscriber(sub: &Subscriber) -> (r: Subscriber)
    ensures
        r@ == sub@,
{
    let q = clone_queue_from(&sub.queue, 0);
    let r = Subscriber { id: sub.id, state: sub.state, queue: q };
    proof {
        assert(r@.queue =~~= sub@.queue);
    }
    r
}

/// One subscriber after one publish: open subscribers take the frame under
/// the bounded-queue policy, others are returned unchanged.
fn publish_one(sub: &Subscriber, frame: &String, cap: usize) -> (r: Subscriber)
    requires
        sub@.queue.len() <= cap,
        1 <= cap,
    ensures
        r@ == after_publish(sub@, frame@, cap as nat),
{
    match sub.state {
        ConnState::Open => {
            let full = sub.queue.len() == cap;
            let start: usize = if full {
                1
            } else {
                0
            };
            let mut q = clone_queue_from(&sub.queue, start);
            let ghost cl = q@.map_values(|f: String| f@);
            q.push(frame.clone());
            let r = Subscriber { id: sub.id, state: ConnState::Open, queue: q };
            proof {
                let m = sub@.queue;
                assert(m.len() == sub.queue@.len());
                assert(cl == m.subrange(start as int, m.len() as int));
                assert(r@.queue =~~= cl.push(frame@));
                if full {
                    assert(cl =~~= m.drop_first());
                } else {
                    assert(cl =~~= m);
                }
                assert(r@.queue =~~= enqueue_bounded(m, frame@, cap as nat));
            }
            r
        },
        _ => clone_subscriber(sub),
    }
}

/// Every subscriber kept by `without_id` stood in the registry and does not
/// hold the removed id.
proof fn lemma_without_id_elems(subs: Seq<SubscriberModel>, id: u64)
    ensures
        without_id(subs, id).len() <= subs.len(),
        forall|k: int|
            0 <= k < without_id(subs, id).len() ==> subs.contains(#[trigger] without_id(subs, id)[k]),
        forall|k: int| 0 <= k < without_id(subs, id).len() ==> without_id(subs, id)[k].id != id,
    decreases subs.len(),
{
    if subs.len() > 0 {
        lemma_without_id_elems(subs.drop_last(), id);
        assert forall|k: int| 0 <= k < without_id(subs, id).len() implies subs.contains(
            #[trigger] without_id(subs, id)[k],
        ) && without_id(subs, id)[k].id != id by {
            let rest = without_id(subs.drop_last(), id);
            if k < rest.len() {
                assert(subs.drop_last().contains(rest[k]));
                let j = choose|j: int|
                    0 <= j < subs.drop_last().len() && subs.drop_last()[j] == rest[k];
                assert(subs[j] == rest[k]);
            } else {
                assert(without_id(subs, id)[k] == subs.last());
            }
        }
    }
}

/// Removal keeps the ids pairwise distinct.
proof fn lemma_without_id_distinct(subs: Seq<SubscriberModel>, id: u64)
    requires
        forall|i: int, j: int|
            0 <= i < j < subs.len() ==> (#[trigger] subs[i]).id != (#[trigger] subs[j]).id,
    ensures
        forall|i: int, j: int|
            0 <= i < j < without_id(subs, id).len() ==> (#[trigger] without_id(subs, id)[i]).id != (
            #[trigger] without_id(subs, id)[j]).id,
    decreases subs.len(),
{
    if subs.len() > 0 {
        let dl = subs.drop_last();
        assert(forall|i: int, j: int|
            0 <= i < j < dl.len() ==> (#[trigger] dl[i]).id != (#[trigger] dl[j]).id) by {
            assert(forall|i: int| 0 <= i < dl.len() ==> dl[i] == subs[i]);
        }
        lemma_without_id_distinct(dl, id);
        lemma_without_id_elems(dl, id);
        let rest = without_id(dl, id);
        if subs.last().id != id {
            assert forall|i: int, j: int|
                0 <= i < j < without_id(subs, id).len() implies (#[trigger] without_id(subs, id)[i]).id
                != (#[trigger] without_id(subs, id)[j]).id by {
                if j == rest.len() {
                    assert(without_id(subs, id)[j] == subs.last());
                    assert(without_id(subs, id)[i] == rest[i]);
                    assert(dl.contains(rest[i]));
                    let k = choose|k: int| 0 <= k < dl.len() && dl[k] == rest[i];
                    assert(subs[k] == rest[i]);
                    assert(subs[k].id != subs.last().id);
                } else {
                    assert(without_id(subs, id)[i] == rest[i]);
                    assert(without_id(subs, id)[j] == rest[j]);
                }
            }
        }
    }
}

/// Removing an id twice is the same as removing it once.
pub proof fn lemma_disconnect_idempotent(subs: Seq<SubscriberModel>, id: u64)
    ensures
        without_id(without_id(subs, id), id) == without_id(subs, id),
{
    lemma_without_id_elems(subs, id);
    lemma_without_id_fixpoint(without_id(subs, id), id);
}

/// A registry that holds no subscriber with `id` is unchanged by removal.
proof fn lemma_without_id_fixpoint(subs: Seq<SubscriberModel>, id: u64)
    requires
        forall|k: int| 0 <= k < subs.len() ==> (#[trigger] subs[k]).id != id,
    ensures
        without_id(subs, id) == subs,
    decreases subs.len(),
{
    if subs.len() > 0 {
        let dl = subs.drop_last();
        assert(forall|k: int| 0 <= k < dl.len() ==> (#[trigger] dl[k]).id != id) by {
            assert(forall|k: int| 0 <= k < dl.len() ==> dl[k] == subs[k]);
        }
        lemma_without_id_fixpoint(dl, id);
        assert(without_id(subs, id) =~~= subs);
    }
}

/// The registry after a sequence of observations is published, first one
/// first.
pub open spec fn publish_all(
    subs: Seq<SubscriberModel>,
    observations: Seq<Observation>,
    cap: nat,
) -> Seq<SubscriberModel>
    decreases observations.len(),
{
    if observations.len() == 0 {
        subs
    } else {
        publish_all(
            subs.map_values(|m: SubscriberModel| after_publish(m, frame_text(observations[0]), cap)),
            observations.drop_first(),
            cap,
        )
    }
}

/// Publishing never adds or removes subscribers.
pub proof fn lemma_publish_all_len(
    subs: Seq<SubscriberModel>,
    observations: Seq<Observation>,
    cap: nat,
)
    ensures
        publish_all(subs, observations, cap).len() == subs.len(),
    decreases observations.len(),
{
    if observations.len() > 0 {
        lemma_publish_all_len(
            subs.map_values(|m: SubscriberModel| after_publish(m, frame_text(observations[0]), cap)),
            observations.drop_first(),
            cap,
        );
    }
}

/// An open subscriber whose queue has room for every observation still to
/// come receives all of them, appended in publish order, and keeps its id
/// and state.
pub proof fn lemma_publish_all_open_queue(
    subs: Seq<SubscriberModel>,
    observations: Seq<Observation>,
    cap: nat,
    i: int,
)
    requires
        0 <= i < subs.len(),
        subs[i].state == ConnState::Open,
        subs[i].queue.len() + observations.len() <= cap,
    ensures
        publish_all(subs, observations, cap).len() == subs.len(),
        publish_all(subs, observations, cap)[i].queue == subs[i].queue + observations.map_values(
            |o: Observation| frame_text(o),
        ),
        publish_all(subs, observations, cap)[i].state == ConnState::Open,
        publish_all(subs, observations, cap)[i].id == subs[i].id,
    decreases observations.len(),
{
    lemma_publish_all_len(subs, observations, cap);
    if observations.len() == 0 {
        assert(subs[i].queue + observations.map_values(|o: Observation| frame_text(o)) =~~= subs[i].queue);
    } else {
        let f = frame_text(observations[0]);
        let subs1 = subs.map_values(|m: SubscriberModel| after_publish(m, f, cap));
        assert(subs1[i].queue =~~= subs[i].queue.push(f));
        lemma_publish_all_open_queue(subs1, observations.drop_first(), cap, i);
        assert(publish_all(subs, observations, cap)[i].queue =~~= subs[i].queue
            + observations.map_values(|o: Observation| frame_text(o)));
    }
}

/// A subscriber admitted after earlier observations were published starts
/// with an empty queue, so it holds none of them; every observation
/// published after it connected — up to its queue bound — reaches it in
/// publish order.
pub proof fn lemma_no_replay_in_order(
    subs: Seq<SubscriberModel>,
    observations: Seq<Observation>,
    cap: nat,
    i: int,
)
    requires
        0 <= i < subs.len(),
        subs[i].state == ConnState::Open,
        subs[i].queue.len() == 0,
        observations.len() <= cap,
    ensures
        publish_all(subs, observations, cap).len() == subs.len(),
        publish_all(subs, observations, cap)[i].queue == observations.map_values(
            |o: Observation| frame_text(o),
        ),
    decreases observations.len(),
{
    lemma_publish_all_open_queue(subs, observations, cap, i);
    assert(subs[i].queue + observations.map_values(|o: Observation| frame_text(o))
        =~~= observations.map_values(|o: Observation| frame_text(o)));
}

/// One publish against a full queue drops exactly that subscriber's oldest
/// unsent frame and appends the new one; a queue with room just takes the
/// frame; and every other subscriber's entry is computed from its own state
/// alone, so delivery to it is unaffected.
pub proof fn lemma_overflow_drops_oldest(subs: Seq<SubscriberModel>, f: Seq<char>, cap: nat, i: int)
    requires
        0 <= i < subs.len(),
    ensures
        subs.map_values(|m: SubscriberModel| after_publish(m, f, cap)).len() == subs.len(),
        subs[i].state == ConnState::Open && subs[i].queue.len() >= cap ==> subs.map_values(
            |m: SubscriberModel| after_publish(m, f, cap),
        )[i].queue == subs[i].queue.drop_first().push(f),
        subs[i].state == ConnState::Open && subs[i].queue.len() < cap ==> subs.map_values(
            |m: SubscriberModel| after_publish(m, f, cap),
        )[i].queue == subs[i].queue.push(f),
        subs[i].state != ConnState::Open ==> subs.map_values(
            |m: SubscriberModel| after_publish(m, f, cap),
        )[i] == subs[i],
        forall|j: int|
            0 <= j < subs.len() ==> subs.map_values(|m: SubscriberModel| after_publish(m, f, cap))[j]
                == after_publish(subs[j], f, cap),
{
}

/// The first index holding `id` is pinned by what a scan observes.
proof fn lemma_first_with_id_is(subs: Seq<SubscriberModel>, id: u64, i: int)
    requires
        0 <= i <= subs.len(),
        forall|j: int| 0 <= j < i ==> (#[trigger] subs[j]).id != id,
        i < subs.len() ==> subs[i].id == id,
    ensures
        first_with_id(subs, id) == i,
    decreases subs.len(),
{
    if subs.len() == 0 {
    } else if subs[0].id == id {
    } else {
        let t = subs.subrange(1, subs.len() as int);
        assert(forall|j: int| 0 <= j < i - 1 ==> (#[trigger] t[j]).id != id) by {
            assert(forall|j: int| 0 <= j < t.len() ==> t[j] == subs[j + 1]);
        }
        assert(i - 1 < t.len() ==> t[i - 1] == subs[i]);
        lemma_first_with_id_is(t, id, i - 1);
    }
}

} // verus!
