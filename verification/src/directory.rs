//! The topic directory (router): the single owner of the map from topic to
//! fan-out worker. Every change event and every registration passes through
//! it; workers are created lazily, on the first registration for their
//! topic, and an event alone never creates one.

use vstd::prelude::*;

use crate::decode::ChangeEvent;
use crate::decode::EventKind;
use crate::render::Message;
use crate::worker::Delivery;
use crate::worker::TopicWorker;

verus! {

/// Why a subscription attempt failed. Surfaced to the caller of the
/// subscription gateway, never swallowed: the viewer sees that live
/// updates are unavailable rather than a silently empty feed.
#[derive(Debug, Clone, Copy, PartialEq, Eq, Structural)]
pub enum SubscribeError {
    /// The registration request could not be handed to the router.
    RegistrationChannelClosed,
    /// The router took the request but the delivery channel never came
    /// back.
    ResponseNotReceived,
}

/// The directory of fan-out workers, one per topic ever subscribed to.
pub struct TopicDirectory {
    /// The running workers; channel identifiers are unique across them.
    pub workers: Vec<TopicWorker>,
}

impl TopicDirectory {
    /// Every worker is well formed and no two serve the same channel, so a
    /// channel determines its worker.
    pub open spec fn wf(&self) -> bool {
        (forall|i: int| 0 <= i < self.workers@.len() ==> (#[trigger] self.workers@[i]).wf())
            && (forall|i: int, j: int|
            0 <= i < j < self.workers@.len() ==> (#[trigger] self.workers@[i]).channel_id != (
            #[trigger] self.workers@[j]).channel_id)
    }

    /// Whether a worker exists for the topic.
    pub open spec fn has_topic(&self, topic_id: u128) -> bool {
        exists|i: int|
            0 <= i < self.workers@.len() && (#[trigger] self.workers@[i]).channel_id == topic_id
    }

    /// A directory with no topics yet.
    pub fn new() -> (d: TopicDirectory)
        ensures
            d.workers@.len() == 0,
            d.wf(),
    {
        TopicDirectory { workers: Vec::new() }
    }

    /// Route a change event: the index of its topic's worker, or nothing.
    ///
    /// When no worker exists the event is dropped — routing an event never
    /// creates a worker, since no subscriber can exist for the topic yet.
    pub fn route_event(&self, event: &ChangeEvent) -> (r: Option<usize>)
        ensures
            r is Some <==> self.has_topic(event.topic_id),
            r is Some ==> r->Some_0 < self.workers@.len() && self.workers@[
                r->Some_0 as int
            ].channel_id == event.topic_id,
    {
        self.find_topic(event.topic_id)
    }

    /// The index of the worker serving a channel, if one runs.
    fn find_topic(&self, channel_id: u128) -> (r: Option<usize>)
        ensures
            r is Some <==> self.has_topic(channel_id),
            r is Some ==> r->Some_0 < self.workers@.len() && self.workers@[
                r->Some_0 as int
            ].channel_id == channel_id,
    {
        let n = self.workers.len();
        let mut i: usize = 0;
        while i < n
            invariant
                0 <= i <= n,
                n == self.workers@.len(),
                forall|j: int| 0 <= j < i ==> (#[trigger] self.workers@[j]).channel_id != channel_id,
            decreases n - i,
        {
            if self.workers[i].channel_id == channel_id {
                return Some(i);
            }
            i += 1;
        }
        None
    }

    /// Route a registration: find the topic's worker, creating it first
    /// when absent, then record the subscriber with it. Returns the
    /// worker's index.
    ///
    /// For a topic already present the worker keeps the identifiers it was
    /// created with; for a new topic the worker takes the ones given here.
    pub fn route_registration(
        &mut self,
        channel_id: u128,
        server_id: u128,
        subscriber_id: u128,
    ) -> (idx: usize)
        requires
            old(self).wf(),
        ensures
            final(self).wf(),
            idx < final(self).workers@.len(),
            final(self).workers@[idx as int].channel_id == channel_id,
            final(self).has_topic(channel_id),
            forall|t: u128|
                #[trigger] final(self).has_topic(t) <==> (old(self).has_topic(t) || t
                    == channel_id),
            forall|j: int|
                0 <= j < old(self).workers@.len() && j != idx ==> final(self).workers@[j] == old(
                    self,
                ).workers@[j],
            old(self).has_topic(channel_id) ==> {
                &&& final(self).workers@.len() == old(self).workers@.len()
                &&& idx < old(self).workers@.len()
                &&& final(self).workers@[idx as int].server_id == old(self).workers@[
                    idx as int
                ].server_id
                &&& (forall|x: u128|
                    #[trigger] final(self).workers@[idx as int].subscribers@.contains(x) <==> (old(
                        self,
                    ).workers@[idx as int].subscribers@.contains(x) || x == subscriber_id))
            },
            !old(self).has_topic(channel_id) ==> {
                &&& final(self).workers@.len() == old(self).workers@.len() + 1
                &&& idx == old(self).workers@.len()
                &&& final(self).workers@[idx as int].server_id == server_id
                &&& (forall|x: u128|
                    #[trigger] final(self).workers@[idx as int].subscribers@.contains(x) <==> x
                        == subscriber_id)
            },
    {
        let n = self.workers.len();
        if let Some(i) = self.find_topic(channel_id) {
            let mut w = self.workers.remove(i);
            w.register(subscriber_id);
            let ghost w2 = w;
            self.workers.insert(i, w);
            proof {
                let s0 = old(self).workers@;
                s0.remove_ensures(i as int);
                s0.remove(i as int).insert_ensures(i as int, w2);
                assert(self.workers@ =~= s0.update(i as int, w2));
                assert forall|p: int, q: int|
                    0 <= p < q < self.workers@.len() implies (#[trigger] self.workers@[p]).channel_id
                    != (#[trigger] self.workers@[q]).channel_id by {
                    assert(self.workers@[p].channel_id == s0[p].channel_id);
                    assert(self.workers@[q].channel_id == s0[q].channel_id);
                }
                assert forall|t: u128|
                    self.has_topic(t) <==> (old(self).has_topic(t) || t == channel_id) by {
                    if self.has_topic(t) {
                        let j = choose|j: int|
                            0 <= j < self.workers@.len() && (#[trigger] self.workers@[j]).channel_id
                                == t;
                        assert(s0[j].channel_id == t);
                    }
                    if old(self).has_topic(t) {
                        let j = choose|j: int|
                            0 <= j < s0.len() && (#[trigger] s0[j]).channel_id == t;
                        assert(self.workers@[j].channel_id == t);
                    }
                    if t == channel_id {
                        assert(self.workers@[i as int].channel_id == t);
                    }
                }
            }
            i
        } else {
            let mut w = TopicWorker::new(channel_id, server_id);
            w.register(subscriber_id);
            let ghost w2 = w;
            self.workers.push(w);
            proof {
                let s0 = old(self).workers@;
                assert(self.workers@ =~= s0.push(w2));
                assert forall|p: int, q: int|
                    0 <= p < q < self.workers@.len() implies (#[trigger] self.workers@[p]).channel_id
                    != (#[trigger] self.workers@[q]).channel_id by {
                    if q < s0.len() {
                        assert(self.workers@[p].channel_id == s0[p].channel_id);
                        assert(self.workers@[q].channel_id == s0[q].channel_id);
                    } else {
                        assert(self.workers@[q].channel_id == channel_id);
                        assert(self.workers@[p].channel_id == s0[p].channel_id);
                    }
                }
                assert forall|t: u128|
                    self.has_topic(t) <==> (old(self).has_topic(t) || t == channel_id) by {
                    if self.has_topic(t) {
                        let j = choose|j: int|
                            0 <= j < self.workers@.len() && (#[trigger] self.workers@[j]).channel_id
                                == t;
                        if j < s0.len() {
                            assert(s0[j].channel_id == t);
                        }
                    }
                    if old(self).has_topic(t) {
                        let j = choose|j: int|
                            0 <= j < s0.len() && (#[trigger] s0[j]).channel_id == t;
                        assert(self.workers@[j].channel_id == t);
                    }
                    if t == channel_id {
                        assert(self.workers@[s0.len() as int].channel_id == t);
                    }
                }
            }
            n
        }
    }

    /// The worker at an index of the directory.
    pub fn worker(&self, idx: usize) -> (w: &TopicWorker)
        requires
            idx < self.workers@.len(),
        ensures
            *w == self.workers@[idx as int],
    {
        &self.workers[idx]
    }

    /// Compute the deliveries of one event through the directory: the
    /// event's topic must have a worker (the caller routed the event
    /// first).
    pub fn deliveries_at(
        &self,
        idx: usize,
        kind: EventKind,
        message_id: u128,
        entity: Option<&Message>,
        now_ms: i64,
    ) -> (r: Vec<Delivery>)
        requires
            idx < self.workers@.len(),
        ensures
            r@.map_values(|d: Delivery| d@) == crate::worker::spec_deliveries(
                self.workers@[idx as int].subscribers@,
                kind,
                message_id,
                crate::worker::opt_entity(entity),
                self.workers@[idx as int].channel_id,
                self.workers@[idx as int].server_id,
                now_ms,
            ),
    {
        self.workers[idx].deliveries_at(kind, message_id, entity, now_ms)
    }

    /// Prune the stale subscribers of one topic after a delivery pass.
    pub fn prune_topic(&mut self, idx: usize, stale: &Vec<u128>)
        requires
            old(self).wf(),
            idx < old(self).workers@.len(),
        ensures
            final(self).wf(),
            final(self).workers@.len() == old(self).workers@.len(),
            forall|t: u128| #[trigger] final(self).has_topic(t) <==> old(self).has_topic(t),
            forall|j: int|
                0 <= j < old(self).workers@.len() && j != idx ==> final(self).workers@[j] == old(
                    self,
                ).workers@[j],
            final(self).workers@[idx as int].channel_id == old(self).workers@[
                idx as int
            ].channel_id,
            final(self).workers@[idx as int].server_id == old(self).workers@[idx as int].server_id,
            forall|x: u128|
                #[trigger] final(self).workers@[idx as int].subscribers@.contains(x) <==> (old(
                    self,
                ).workers@[idx as int].subscribers@.contains(x) && !stale@.contains(x)),
    {
        let ghost s0 = self.workers@;
        let mut w = self.workers.remove(idx);
        let ghost w0 = w;
        w.prune(stale);
        let ghost w2 = w;
        proof {
            assert(w0 == s0[idx as int]);
            assert(forall|x: u128|
                w2.subscribers@.contains(x) <==> (w0.subscribers@.contains(x) && !stale@.contains(
                    x,
                )));
        }
        self.workers.insert(idx, w);
        proof {
            s0.remove_ensures(idx as int);
            s0.remove(idx as int).insert_ensures(idx as int, w2);
            assert(self.workers@ =~= s0.update(idx as int, w2));
            assert(self.workers@[idx as int] == w2);
            assert forall|x: u128|
                self.workers@[idx as int].subscribers@.contains(x) <==> (s0[
                    idx as int
                ].subscribers@.contains(x) && !stale@.contains(x)) by {
                assert(w2.subscribers@.contains(x) <==> (s0[idx as int].subscribers@.contains(x)
                    && !stale@.contains(x)));
            }
            assert forall|p: int, q: int|
                0 <= p < q < self.workers@.len() implies (#[trigger] self.workers@[p]).channel_id
                != (#[trigger] self.workers@[q]).channel_id by {
                assert(self.workers@[p].channel_id == s0[p].channel_id);
                assert(self.workers@[q].channel_id == s0[q].channel_id);
            }
            assert forall|t: u128| self.has_topic(t) <==> old(self).has_topic(t) by {
                if self.has_topic(t) {
                    let j = choose|j: int|
                        0 <= j < self.workers@.len() && (#[trigger] self.workers@[j]).channel_id
                            == t;
                    assert(s0[j].channel_id == t);
                }
                if old(self).has_topic(t) {
                    let j = choose|j: int| 0 <= j < s0.len() && (#[trigger] s0[j]).channel_id == t;
                    assert(self.workers@[j].channel_id == t);
                }
            }
        }
    }
}

} // verus!
