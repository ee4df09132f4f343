//! Publish/subscribe bus.
//!
//! A `Topic` owns a set of subscriber queues; one dispatch step delivers a
//! message to every live queue, wrapped in a shared read-only handle, and
//! prunes the queues whose subscriber is gone — so one dead or slow consumer
//! never affects another. An `AudioStream` layers a sample-time counter on
//! top: each sent block is stamped with the counter and the counter advances
//! by the block's length, so successive writes cover gap-free, strictly
//! increasing time ranges.
//!
//! These types are the decision core of the bus: what a dispatch step does
//! to the queues, and what stamping does to the counter, stated and proved
//! here; the background dispatch thread and the real channel endpoints
//! around them live outside the library.
use vstd::prelude::*;

use crate::errors::DspError;
use crate::signal::{Signal, MAX_STREAM_SAMPLES};

verus! {

/// Relies on `Arc::clone`: the clone is a handle to the same allocation, so
/// it carries the same value.
#[verifier::external_body]
fn arc_duplicate<T>(a: &std::sync::Arc<T>) -> (r: std::sync::Arc<T>)
    ensures
        r == *a,
{
    std::sync::Arc::clone(a)
}

/// One subscriber's queue: its identity, whether the subscriber is still
/// live, and the messages delivered but not yet drained.
pub struct Subscription<T> {
    pub id: u64,
    pub open: bool,
    pub queue: Vec<std::sync::Arc<T>>,
}

/// The ghost image of a subscription: identity, liveness, pending messages.
#[verifier::ext_equal]
pub struct SubView<T> {
    pub id: u64,
    pub open: bool,
    pub msgs: Seq<T>,
}

impl<T> Subscription<T> {
    /// The messages waiting in this queue, by value.
    pub open spec fn contents(&self) -> Seq<T> {
        Seq::new(self.queue@.len(), |i: int| *self.queue@[i])
    }

    pub open spec fn view_sub(&self) -> SubView<T> {
        SubView { id: self.id, open: self.open, msgs: self.contents() }
    }
}

/// One dispatch step: every closed subscription is pruned, every live one
/// receives the message at the back of its queue.
pub open spec fn spec_publish<T>(subs: Seq<SubView<T>>, msg: T) -> Seq<SubView<T>>
    decreases subs.len(),
{
    if subs.len() == 0 {
        Seq::empty()
    } else {
        let rest = spec_publish(subs.skip(1), msg);
        if subs[0].open {
            seq![SubView { id: subs[0].id, open: true, msgs: subs[0].msgs.push(msg) }] + rest
        } else {
            rest
        }
    }
}

/// A whole sequence of dispatch steps, in order.
pub open spec fn spec_publish_all<T>(subs: Seq<SubView<T>>, msgs: Seq<T>) -> Seq<SubView<T>>
    decreases msgs.len(),
{
    if msgs.len() == 0 {
        subs
    } else {
        spec_publish_all(spec_publish(subs, msgs[0]), msgs.skip(1))
    }
}

/// Dropping a subscriber's handle: the matching subscription is closed, all
/// others are untouched.
pub open spec fn spec_drop<T>(subs: Seq<SubView<T>>, victim: u64) -> Seq<SubView<T>> {
    Seq::new(
        subs.len(),
        |i: int|
            if subs[i].id == victim {
                SubView { id: subs[i].id, open: false, msgs: subs[i].msgs }
            } else {
                subs[i]
            },
    )
}

/// The ghost images of a row of subscriptions, in order.
pub open spec fn views_of<T>(v: Seq<Subscription<T>>) -> Seq<SubView<T>> {
    Seq::new(v.len(), |i: int| v[i].view_sub())
}

/// A single-producer fan-out bus: one queue per subscriber.
pub struct Topic<T> {
    pub subscribers: Vec<Subscription<T>>,
    pub next_id: u64,
}

impl<T> Topic<T> {
    /// The ghost image of all current subscriptions, in order.
    pub open spec fn view_subs(&self) -> Seq<SubView<T>> {
        views_of(self.subscribers@)
    }

    /// A topic with no subscribers yet.
    pub fn new() -> (r: Topic<T>)
        ensures
            r.view_subs() == Seq::<SubView<T>>::empty(),
            r.next_id == 0,
    {
        let r = Topic { subscribers: Vec::new(), next_id: 0 };
        proof {
            assert(r.view_subs() =~= Seq::<SubView<T>>::empty());
        }
        r
    }

    /// Registers a new, live, empty subscriber queue and returns its
    /// identity, as `get_subscriber` does on the original bus.
    pub fn get_subscriber(&mut self) -> (id: u64)
        requires
            old(self).next_id < u64::MAX,
        ensures
            id == old(self).next_id,
            final(self).next_id == old(self).next_id + 1,
            final(self).view_subs() == old(self).view_subs().push(
                SubView { id, open: true, msgs: Seq::empty() },
            ),
    {
        let id = self.next_id;
        let sub = Subscription { id, open: true, queue: Vec::new() };
        proof {
            assert(sub.contents() =~= Seq::<T>::empty());
        }
        self.subscribers.push(sub);
        self.next_id = self.next_id + 1;
        proof {
            assert(final(self).view_subs() =~= old(self).view_subs().push(
                SubView { id, open: true, msgs: Seq::empty() },
            ));
        }
        id
    }

    /// Closes the matching subscriber queue, modelling the drop of its
    /// receiving handle; delivery to it will fail and prune it.
    pub fn drop_subscriber(&mut self, id: u64)
        ensures
            final(self).next_id == old(self).next_id,
            final(self).view_subs() == spec_drop(old(self).view_subs(), id),
    {
        let ghost v0 = self.view_subs();
        let n = self.subscribers.len();
        let mut i: usize = 0;
        while i < n
            invariant
                n == self.subscribers@.len(),
                i <= n,
                self.next_id == old(self).next_id,
                v0 == old(self).view_subs(),
                v0.len() == n,
                forall|j: int|
                    0 <= j < n ==> (#[trigger] self.view_subs()[j]) == (if j < i {
                        spec_drop(v0, id)[j]
                    } else {
                        v0[j]
                    }),
            decreases n - i,
        {
            if self.subscribers[i].id == id {
                let ghost subs0 = self.subscribers@;
                proof {
                    assert(self.view_subs()[i as int] == v0[i as int]);
                    assert(v0[i as int].id == id);
                }
                let mut sub = self.subscribers.remove(i);
                sub.open = false;
                self.subscribers.insert(i, sub);
                proof {
                    assert(self.subscribers@ =~= subs0.update(i as int, sub));
                    assert(sub.contents() =~= v0[i as int].msgs);
                    assert(self.view_subs()[i as int] =~= spec_drop(v0, id)[i as int]);
                    assert(forall|j: int|
                        0 <= j < n && j != i ==> self.subscribers@[j] == subs0[j]);
                    assert(forall|j: int|
                        0 <= j < n && j != i ==> (#[trigger] self.view_subs()[j]) == views_of(
                            subs0,
                        )[j]);
                }
            }
            i = i + 1;
        }
        proof {
            assert(final(self).view_subs() =~= spec_drop(old(self).view_subs(), id));
        }
    }

    /// Delivers one message: wraps it in a shared handle, hands one handle
    /// to every live subscriber queue, and prunes the closed ones.
    pub fn publish(&mut self, msg: T)
        ensures
            final(self).next_id == old(self).next_id,
            final(self).view_subs() == spec_publish(old(self).view_subs(), msg),
    {
        let arc = std::sync::Arc::new(msg);
        let mut rest: Vec<Subscription<T>> = Vec::new();
        core::mem::swap(&mut rest, &mut self.subscribers);
        let ghost v0 = old(self).view_subs();
        proof {
            assert(views_of(rest@) =~= v0);
            assert(self.view_subs() =~= Seq::<SubView<T>>::empty());
            assert(spec_publish(v0, msg) =~= self.view_subs() + spec_publish(
                views_of(rest@),
                msg,
            ));
        }
        while rest.len() > 0
            invariant
                self.next_id == old(self).next_id,
                v0 == old(self).view_subs(),
                *arc == msg,
                spec_publish(v0, msg) == self.view_subs() + spec_publish(views_of(rest@), msg),
            decreases rest@.len(),
        {
            let ghost r0 = views_of(rest@);
            let ghost done = self.view_subs();
            let mut sub = rest.remove(0);
            proof {
                assert(views_of(rest@) =~= r0.skip(1));
                assert(sub.view_sub() == r0[0]);
            }
            if sub.open {
                let ghost c0 = sub.contents();
                sub.queue.push(arc_duplicate(&arc));
                proof {
                    assert(sub.contents() =~= c0.push(msg));
                }
                self.subscribers.push(sub);
                proof {
                    assert(self.view_subs() =~= done.push(sub.view_sub()));
                    assert(spec_publish(r0, msg) == seq![
                        SubView { id: r0[0].id, open: true, msgs: r0[0].msgs.push(msg) },
                    ] + spec_publish(r0.skip(1), msg));
                    assert(sub.view_sub() =~= SubView {
                        id: r0[0].id,
                        open: true,
                        msgs: r0[0].msgs.push(msg),
                    });
                    assert(done.push(sub.view_sub()) + spec_publish(views_of(rest@), msg)
                        =~= done + spec_publish(r0, msg));
                }
            } else {
                proof {
                    assert(spec_publish(r0, msg) == spec_publish(r0.skip(1), msg));
                }
            }
        }
        proof {
            assert(views_of(rest@) =~= Seq::<SubView<T>>::empty());
            assert(spec_publish(views_of(rest@), msg) == Seq::<SubView<T>>::empty());
            assert(final(self).view_subs() =~= final(self).view_subs() + spec_publish(
                views_of(rest@),
                msg,
            ));
        }
    }

    /// Takes the oldest undrained message of the matching subscriber, if
    /// there is one.
    pub fn recv(&mut self, id: u64) -> (r: Option<std::sync::Arc<T>>)
        ensures
            final(self).next_id == old(self).next_id,
            match r {
                Some(m) => exists|i: int|
                    {
                        &&& 0 <= i < old(self).view_subs().len()
                        &&& (#[trigger] old(self).view_subs()[i]).id == id
                        &&& (forall|j: int|
                            0 <= j < i ==> (#[trigger] old(self).view_subs()[j]).id != id)
                        &&& old(self).view_subs()[i].msgs.len() > 0
                        &&& *m == old(self).view_subs()[i].msgs[0]
                        &&& final(self).view_subs() == old(self).view_subs().update(
                            i,
                            SubView {
                                id,
                                open: old(self).view_subs()[i].open,
                                msgs: old(self).view_subs()[i].msgs.skip(1),
                            },
                        )
                    },
                None => {
                    &&& final(self).view_subs() == old(self).view_subs()
                    &&& (forall|j: int|
                        0 <= j < old(self).view_subs().len() ==> (#[trigger] old(
                            self,
                        ).view_subs()[j]).id != id) || (exists|i: int|
                        {
                            &&& 0 <= i < old(self).view_subs().len()
                            &&& (#[trigger] old(self).view_subs()[i]).id == id
                            &&& (forall|j: int|
                                0 <= j < i ==> (#[trigger] old(self).view_subs()[j]).id != id)
                            &&& old(self).view_subs()[i].msgs.len() == 0
                        })
                },
            },
    {
        let ghost v0 = self.view_subs();
        let n = self.subscribers.len();
        let mut i: usize = 0;
        while i < n
            invariant
                old(self) == self,
                n == self.subscribers@.len(),
                i <= n,
                v0 == self.view_subs(),
                forall|j: int| 0 <= j < i ==> (#[trigger] v0[j].id) != id,
            decreases n - i,
        {
            if self.subscribers[i].id == id {
                let mut sub = self.subscribers.remove(i);
                if sub.queue.len() > 0 {
                    let m = sub.queue.remove(0);
                    proof {
                        assert(sub.contents() =~= v0[i as int].msgs.skip(1));
                    }
                    self.subscribers.insert(i, sub);
                    proof {
                        assert(self.view_subs() =~= v0.update(
                            i as int,
                            SubView {
                                id,
                                open: v0[i as int].open,
                                msgs: v0[i as int].msgs.skip(1),
                            },
                        ));
                    }
                    return Some(m);
                } else {
                    self.subscribers.insert(i, sub);
                    proof {
                        assert(self.view_subs() =~= v0);
                    }
                    return None;
                }
            }
            i = i + 1;
        }
        None
    }
}

impl<T> Default for Topic<T> {
    /// A fresh topic, as `new` builds it.
    fn default() -> (r: Topic<T>)
        ensures
            r.view_subs() == Seq::<SubView<T>>::empty(),
            r.next_id == 0,
    {
        Topic::new()
    }
}

/// A time-stamped single-writer stream over a topic of signals.
pub struct AudioStream {
    pub topic: Topic<Signal>,
    pub time: i64,
}

impl AudioStream {
    pub open spec fn wf(&self) -> bool {
        0 <= self.time <= MAX_STREAM_SAMPLES
    }

    /// A stream whose sample-time counter starts at zero.
    pub fn new() -> (r: AudioStream)
        ensures
            r.wf(),
            r.time == 0,
            r.topic.next_id == 0,
            r.topic.view_subs() == Seq::<SubView<Signal>>::empty(),
    {
        AudioStream { topic: Topic::new(), time: 0 }
    }

    /// Registers a new subscriber and returns its identity.
    pub fn get_subscriber(&mut self) -> (id: u64)
        requires
            old(self).wf(),
            old(self).topic.next_id < u64::MAX,
        ensures
            final(self).wf(),
            final(self).time == old(self).time,
            id == old(self).topic.next_id,
            final(self).topic.next_id == old(self).topic.next_id + 1,
            final(self).topic.view_subs() == old(self).topic.view_subs().push(
                SubView { id, open: true, msgs: Seq::empty() },
            ),
    {
        self.topic.get_subscriber()
    }

    /// Closes the matching subscriber queue, as dropping its handle would.
    pub fn drop_subscriber(&mut self, id: u64)
        requires
            old(self).wf(),
        ensures
            final(self).wf(),
            final(self).time == old(self).time,
            final(self).topic.view_subs() == spec_drop(old(self).topic.view_subs(), id),
    {
        self.topic.drop_subscriber(id)
    }

    /// Stamps the block with the current sample-time counter, publishes it,
    /// and advances the counter by the block's length — one indivisible
    /// step, so successive sends carry strictly increasing, gap-free time
    /// ranges.
    pub fn send(&mut self, sig: Signal) -> (r: Result<(), DspError>)
        requires
            old(self).wf(),
            old(self).time + sig@.len() <= MAX_STREAM_SAMPLES,
        ensures
            final(self).wf(),
            r is Ok,
            final(self).time == old(self).time + sig@.len(),
            final(self).topic.view_subs() == spec_publish(
                old(self).topic.view_subs(),
                Signal { time: old(self).time, ..sig },
            ),
    {
        let mut sig = sig;
        sig.time = self.time;
        let advance = sig.len();
        self.topic.publish(sig);
        self.time = self.time + advance as i64;
        Ok(())
    }

    /// Takes the oldest undrained block of the matching subscriber.
    pub fn recv(&mut self, id: u64) -> (r: Option<std::sync::Arc<Signal>>)
        requires
            old(self).wf(),
        ensures
            final(self).wf(),
            final(self).time == old(self).time,
            match r {
                Some(m) => exists|i: int|
                    {
                        &&& 0 <= i < old(self).topic.view_subs().len()
                        &&& (#[trigger] old(self).topic.view_subs()[i]).id == id
                        &&& (forall|j: int|
                            0 <= j < i ==> (#[trigger] old(self).topic.view_subs()[j]).id != id)
                        &&& old(self).topic.view_subs()[i].msgs.len() > 0
                        &&& *m == old(self).topic.view_subs()[i].msgs[0]
                        &&& final(self).topic.view_subs() == old(self).topic.view_subs().update(
                            i,
                            SubView {
                                id,
                                open: old(self).topic.view_subs()[i].open,
                                msgs: old(self).topic.view_subs()[i].msgs.skip(1),
                            },
                        )
                    },
                None => {
                    &&& final(self).topic.view_subs() == old(self).topic.view_subs()
                    &&& (forall|j: int|
                        0 <= j < old(self).topic.view_subs().len() ==> (#[trigger] old(
                            self,
                        ).topic.view_subs()[j]).id != id) || (exists|i: int|
                        {
                            &&& 0 <= i < old(self).topic.view_subs().len()
                            &&& (#[trigger] old(self).topic.view_subs()[i]).id == id
                            &&& (forall|j: int|
                                0 <= j < i ==> (#[trigger] old(self).topic.view_subs()[j]).id
                                    != id)
                            &&& old(self).topic.view_subs()[i].msgs.len() == 0
                        })
                },
            },
    {
        self.topic.recv(id)
    }

    /// The current sample-time counter.
    pub fn time(&self) -> (r: i64)
        ensures
            r == self.time,
    {
        self.time
    }
}

/// The total number of samples in a row of blocks.
pub open spec fn total_len(blocks: Seq<Signal>) -> int
    decreases blocks.len(),
{
    if blocks.len() == 0 {
        0
    } else {
        blocks[0]@.len() + total_len(blocks.skip(1))
    }
}

/// The blocks a series of sends starting at counter `time` publishes: each
/// block stamped with the counter as it stood, the counter advancing by the
/// block's length.
pub open spec fn stamped_blocks(blocks: Seq<Signal>, time: int) -> Seq<Signal>
    decreases blocks.len(),
{
    if blocks.len() == 0 {
        Seq::empty()
    } else {
        seq![Signal { time: time as i64, ..blocks[0] }] + stamped_blocks(
            blocks.skip(1),
            time + blocks[0]@.len(),
        )
    }
}

/// A row of blocks never holds a negative number of samples.
pub proof fn lemma_total_len_nonneg(blocks: Seq<Signal>)
    ensures
        total_len(blocks) >= 0,
    decreases blocks.len(),
{
    if blocks.len() > 0 {
        lemma_total_len_nonneg(blocks.skip(1));
    }
}

/// Stamps of a send series are the running sums of the block lengths: the
/// k-th published block carries the samples of the k-th input block and the
/// stamp `time + total_len(blocks.take(k))` — contiguous, non-overlapping
/// time ranges, strictly increasing wherever blocks are non-empty.
pub proof fn lemma_stamped_blocks_times(blocks: Seq<Signal>, time: int, k: int)
    requires
        0 <= k < blocks.len(),
        0 <= time,
        time + total_len(blocks) <= MAX_STREAM_SAMPLES as int,
    ensures
        stamped_blocks(blocks, time).len() == blocks.len(),
        stamped_blocks(blocks, time)[k]@ == blocks[k]@,
        stamped_blocks(blocks, time)[k].sample_rate == blocks[k].sample_rate,
        stamped_blocks(blocks, time)[k].time == time + total_len(blocks.take(k)),
    decreases blocks.len(),
{
    lemma_stamped_blocks_len(blocks, time);
    lemma_total_len_nonneg(blocks.skip(1));
    if k == 0 {
        assert(blocks.take(0) =~= Seq::<Signal>::empty());
    } else {
        lemma_stamped_blocks_times(blocks.skip(1), time + blocks[0]@.len(), k - 1);
        assert(stamped_blocks(blocks, time)[k] == stamped_blocks(
            blocks.skip(1),
            time + blocks[0]@.len(),
        )[k - 1]);
        assert(blocks.skip(1)[k - 1] == blocks[k]);
        assert(blocks.skip(1).take(k - 1) =~= blocks.take(k).skip(1));
        assert(blocks.take(k)[0] == blocks[0]);
        assert(total_len(blocks.take(k)) == blocks[0]@.len() + total_len(
            blocks.take(k).skip(1),
        ));
    }
}

/// A send series publishes as many blocks as it was given.
pub proof fn lemma_stamped_blocks_len(blocks: Seq<Signal>, time: int)
    ensures
        stamped_blocks(blocks, time).len() == blocks.len(),
    decreases blocks.len(),
{
    if blocks.len() > 0 {
        lemma_stamped_blocks_len(blocks.skip(1), time + blocks[0]@.len());
    }
}

/// Law (bus fan-out over a stream): a series of sends starting at counter
/// `time` delivers to every live subscriber exactly the stamped blocks, in
/// order, appended to what it already held — the identical sequence, with
/// identical stamps, for every live subscriber.
pub proof fn lemma_stream_fanout(
    subs: Seq<SubView<Signal>>,
    blocks: Seq<Signal>,
    time: int,
    i: int,
)
    requires
        0 <= i < subs.len(),
        subs[i].open,
    ensures
        exists|j: int|
            {
                &&& 0 <= j < spec_publish_all(subs, stamped_blocks(blocks, time)).len()
                &&& (#[trigger] spec_publish_all(subs, stamped_blocks(blocks, time))[j])
                    =~= SubView {
                    id: subs[i].id,
                    open: true,
                    msgs: subs[i].msgs + stamped_blocks(blocks, time),
                }
            },
{
    lemma_fanout_equivalence(subs, stamped_blocks(blocks, time), i);
}

/// After one dispatch step, a live subscriber is still present, still live,
/// and has received exactly the published message.
pub proof fn lemma_publish_one_delivers<T>(subs: Seq<SubView<T>>, m: T, i: int)
    requires
        0 <= i < subs.len(),
        subs[i].open,
    ensures
        exists|j: int|
            {
                &&& 0 <= j < spec_publish(subs, m).len()
                &&& (#[trigger] spec_publish(subs, m)[j]) =~= SubView {
                    id: subs[i].id,
                    open: true,
                    msgs: subs[i].msgs.push(m),
                }
            },
    decreases subs.len(),
{
    if i == 0 {
        assert(spec_publish(subs, m)[0] =~= SubView {
            id: subs[0].id,
            open: true,
            msgs: subs[0].msgs.push(m),
        });
    } else {
        lemma_publish_one_delivers(subs.skip(1), m, i - 1);
        let rest = spec_publish(subs.skip(1), m);
        let j0 = choose|j: int|
            0 <= j < rest.len() && (#[trigger] rest[j]) =~= SubView {
                id: subs.skip(1)[i - 1].id,
                open: true,
                msgs: subs.skip(1)[i - 1].msgs.push(m),
            };
        if subs[0].open {
            assert(spec_publish(subs, m)[j0 + 1] =~= SubView {
                id: subs[i].id,
                open: true,
                msgs: subs[i].msgs.push(m),
            });
        } else {
            assert(spec_publish(subs, m)[j0] =~= SubView {
                id: subs[i].id,
                open: true,
                msgs: subs[i].msgs.push(m),
            });
        }
    }
}

/// Law (fan-out equivalence): after any sequence of published messages,
/// every subscriber that was live observes exactly that sequence, in
/// publication order, appended to what it already held — identically for
/// every live subscriber, regardless of the others.
pub proof fn lemma_fanout_equivalence<T>(subs: Seq<SubView<T>>, msgs: Seq<T>, i: int)
    requires
        0 <= i < subs.len(),
        subs[i].open,
    ensures
        exists|j: int|
            {
                &&& 0 <= j < spec_publish_all(subs, msgs).len()
                &&& (#[trigger] spec_publish_all(subs, msgs)[j]) =~= SubView {
                    id: subs[i].id,
                    open: true,
                    msgs: subs[i].msgs + msgs,
                }
            },
    decreases msgs.len(),
{
    if msgs.len() == 0 {
        assert(spec_publish_all(subs, msgs)[i] =~= SubView {
            id: subs[i].id,
            open: true,
            msgs: subs[i].msgs + msgs,
        });
    } else {
        lemma_publish_one_delivers(subs, msgs[0], i);
        let once = spec_publish(subs, msgs[0]);
        let j0 = choose|j: int|
            0 <= j < once.len() && (#[trigger] once[j]) =~= SubView {
                id: subs[i].id,
                open: true,
                msgs: subs[i].msgs.push(msgs[0]),
            };
        lemma_fanout_equivalence(once, msgs.skip(1), j0);
        let fin = spec_publish_all(once, msgs.skip(1));
        let j1 = choose|j: int|
            0 <= j < fin.len() && (#[trigger] fin[j]) =~= SubView {
                id: once[j0].id,
                open: true,
                msgs: once[j0].msgs + msgs.skip(1),
            };
        assert(subs[i].msgs.push(msgs[0]) + msgs.skip(1) =~= subs[i].msgs + msgs);
        assert(spec_publish_all(subs, msgs)[j1] =~= SubView {
            id: subs[i].id,
            open: true,
            msgs: subs[i].msgs + msgs,
        });
    }
}

/// Law (dead-subscriber resilience): dropping one subscriber's handle at
/// any point changes nothing for any other live subscriber — after the same
/// published messages it holds exactly the same queue as it would have had
/// without the drop.
pub proof fn lemma_dead_subscriber_resilience<T>(
    subs: Seq<SubView<T>>,
    msgs: Seq<T>,
    victim: u64,
    i: int,
)
    requires
        0 <= i < subs.len(),
        subs[i].open,
        subs[i].id != victim,
    ensures
        exists|j: int|
            {
                &&& 0 <= j < spec_publish_all(spec_drop(subs, victim), msgs).len()
                &&& (#[trigger] spec_publish_all(spec_drop(subs, victim), msgs)[j]) =~= SubView {
                    id: subs[i].id,
                    open: true,
                    msgs: subs[i].msgs + msgs,
                }
            },
        exists|j: int|
            {
                &&& 0 <= j < spec_publish_all(subs, msgs).len()
                &&& (#[trigger] spec_publish_all(subs, msgs)[j]) =~= SubView {
                    id: subs[i].id,
                    open: true,
                    msgs: subs[i].msgs + msgs,
                }
            },
{
    let dropped = spec_drop(subs, victim);
    assert(dropped[i] == subs[i]);
    lemma_fanout_equivalence(dropped, msgs, i);
    lemma_fanout_equivalence(subs, msgs, i);
}

} // verus!
