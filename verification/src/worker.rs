//! The fan-out worker: one per active topic, sole owner of that topic's
//! live subscriber set. On a change event it renders one fragment per
//! subscriber and hands the deliveries back; subscribers whose transport is
//! gone are pruned only after a full delivery pass.

use vstd::prelude::*;
use vstd::seq_lib::group_filter_ensures;
use vstd::seq_lib::group_seq_properties;

use crate::clock;
use crate::decode::EventKind;
use crate::render;
use crate::render::Message;

verus! {

/// One rendered event addressed to one subscriber.
pub struct Delivery {
    /// The subscriber whose delivery channel receives the fragment.
    pub subscriber_id: u128,
    /// The rendered fragment.
    pub data: String,
}

impl View for Delivery {
    type V = (u128, Seq<char>);

    open spec fn view(&self) -> (u128, Seq<char>) {
        (self.subscriber_id, self.data@)
    }
}

/// A strictly ascending sequence: the key order of the subscriber set.
pub open spec fn sorted_strict(s: Seq<u128>) -> bool {
    forall|i: int, j: int| 0 <= i < j < s.len() ==> s[i] < s[j]
}

/// The entity argument as a mathematical option.
pub open spec fn opt_entity(entity: Option<&Message>) -> Option<Message> {
    match entity {
        Option::Some(m) => Option::Some(*m),
        Option::None => Option::None,
    }
}

/// What a worker delivers for one event: for a deletion, the same
/// instruction to every subscriber; for an insert or update with a fetched
/// message whose identifier carries a creation time, one fragment per
/// subscriber reflecting that subscriber's own identity; otherwise
/// nothing.
pub open spec fn spec_deliveries(
    subs: Seq<u128>,
    kind: EventKind,
    message_id: u128,
    entity: Option<Message>,
    channel_id: u128,
    server_id: u128,
    now: i64,
) -> Seq<(u128, Seq<char>)> {
    if kind is Delete {
        Seq::new(subs.len(), |i: int| (subs[i], render::spec_render_deleted(message_id)))
    } else {
        match entity {
            Option::Some(m) => if crate::ids::has_creation_time(m.id) {
                Seq::new(
                    subs.len(),
                    |i: int|
                        (
                            subs[i],
                            render::spec_render_message(
                                m,
                                subs[i],
                                channel_id,
                                server_id,
                                kind is Update,
                                now,
                            ),
                        ),
                )
            } else {
                Seq::empty()
            },
            Option::None => Seq::empty(),
        }
    }
}

/// The fan-out worker for one topic. The topic is a chat channel together
/// with its owning server, whose identifier the rendered links need.
pub struct TopicWorker {
    /// The channel this worker serves.
    pub channel_id: u128,
    /// The server owning that channel.
    pub server_id: u128,
    /// The live subscriber set, in ascending order without repeats.
    pub subscribers: Vec<u128>,
}

impl TopicWorker {
    /// The subscriber set is kept in strictly ascending order, so
    /// membership determines the whole sequence.
    pub open spec fn wf(&self) -> bool {
        sorted_strict(self.subscribers@)
    }

    /// A worker for a topic nobody subscribes to yet.
    pub fn new(channel_id: u128, server_id: u128) -> (w: TopicWorker)
        ensures
            w.channel_id == channel_id,
            w.server_id == server_id,
            w.subscribers@ == Seq::<u128>::empty(),
            w.wf(),
    {
        TopicWorker { channel_id, server_id, subscribers: Vec::new() }
    }

    /// Record a subscriber's interest. Registering a subscriber already
    /// present leaves the set as it was: the caller replaces that
    /// subscriber's delivery channel.
    pub fn register(&mut self, user_id: u128)
        requires
            old(self).wf(),
        ensures
            final(self).wf(),
            final(self).channel_id == old(self).channel_id,
            final(self).server_id == old(self).server_id,
            forall|x: u128|
                #[trigger] final(self).subscribers@.contains(x) <==> (old(
                    self,
                ).subscribers@.contains(x) || x == user_id),
            old(self).subscribers@.contains(user_id) ==> final(self).subscribers@ == old(
                self,
            ).subscribers@,
            !old(self).subscribers@.contains(user_id) ==> final(self).subscribers@.len() == old(
                self,
            ).subscribers@.len() + 1,
    {
        let n = self.subscribers.len();
        let mut i: usize = 0;
        while i < n && self.subscribers[i] < user_id
            invariant
                0 <= i <= n,
                n == self.subscribers@.len(),
                *self == *old(self),
                forall|j: int| 0 <= j < i ==> self.subscribers@[j] < user_id,
            decreases n - i,
        {
            i += 1;
        }
        if i < n && self.subscribers[i] == user_id {
            proof {
                assert(old(self).subscribers@.contains(user_id)) by {
                    assert(old(self).subscribers@[i as int] == user_id);
                }
            }
            return ;
        }
        proof {
            assert(!old(self).subscribers@.contains(user_id)) by {
                assert forall|j: int|
                    0 <= j < old(self).subscribers@.len() implies old(self).subscribers@[j]
                    != user_id by {
                    if j >= i {
                        assert(old(self).subscribers@[j] >= old(self).subscribers@[i as int]);
                    }
                }
            }
        }
        self.subscribers.insert(i, user_id);
        proof {
            old(self).subscribers@.insert_ensures(i as int, user_id);
            assert forall|p: int, q: int|
                0 <= p < q < self.subscribers@.len() implies self.subscribers@[p]
                < self.subscribers@[q] by {
                let s = old(self).subscribers@;
                if q < i {
                } else if p > i {
                    assert(self.subscribers@[p] == s[p - 1]);
                    assert(self.subscribers@[q] == s[q - 1]);
                } else if p < i && q == i {
                    assert(self.subscribers@[p] == s[p]);
                } else if p == i {
                    assert(self.subscribers@[q] == s[q - 1]);
                    assert(s[q - 1] >= s[i as int]);
                } else {
                    assert(p < i && q > i);
                    assert(self.subscribers@[p] == s[p]);
                    assert(self.subscribers@[q] == s[q - 1]);
                    assert(s[q - 1] >= s[i as int]);
                }
            }
            assert forall|x: u128|
                self.subscribers@.contains(x) <==> (old(self).subscribers@.contains(x) || x
                    == user_id) by {
                let s = old(self).subscribers@;
                if self.subscribers@.contains(x) {
                    let k = choose|k: int|
                        0 <= k < self.subscribers@.len() && self.subscribers@[k] == x;
                    if k < i {
                        assert(s[k] == x);
                    } else if k == i {
                    } else {
                        assert(s[k - 1] == x);
                    }
                }
                if s.contains(x) {
                    let k = choose|k: int| 0 <= k < s.len() && s[k] == x;
                    if k < i {
                        assert(self.subscribers@[k] == x);
                    } else {
                        assert(self.subscribers@[k + 1] == x);
                    }
                }
                if x == user_id {
                    assert(self.subscribers@[i as int] == x);
                }
            }
        }
    }

    /// Compute the deliveries for one event at a given moment.
    ///
    /// A deletion needs no fetched entity and is delivered identically to
    /// every subscriber. An insert or update renders the fetched message
    /// once per subscriber, each fragment reflecting whether that
    /// subscriber authored it; when no entity is given (the fetch failed)
    /// or the message's identifier carries no creation time, nothing is
    /// delivered and no subscriber is removed.
    pub fn deliveries_at(
        &self,
        kind: EventKind,
        message_id: u128,
        entity: Option<&Message>,
        now_ms: i64,
    ) -> (r: Vec<Delivery>)
        ensures
            r@.map_values(|d: Delivery| d@) == spec_deliveries(
                self.subscribers@,
                kind,
                message_id,
                opt_entity(entity),
                self.channel_id,
                self.server_id,
                now_ms,
            ),
    {
        let ghost expected = spec_deliveries(
            self.subscribers@,
            kind,
            message_id,
            opt_entity(entity),
            self.channel_id,
            self.server_id,
            now_ms,
        );
        let mut out: Vec<Delivery> = Vec::new();
        match kind {
            EventKind::Delete => {
                let n = self.subscribers.len();
                let mut i: usize = 0;
                while i < n
                    invariant
                        0 <= i <= n,
                        n == self.subscribers@.len(),
                        expected == spec_deliveries(
                            self.subscribers@,
                            kind,
                            message_id,
                            opt_entity(entity),
                            self.channel_id,
                            self.server_id,
                            now_ms,
                        ),
                        kind is Delete,
                        out@.len() == i,
                        forall|j: int| 0 <= j < i ==> out@.map_values(|d: Delivery| d@)[j] == expected[j],
                    decreases n - i,
                {
                    let data = render::render_deleted(message_id);
                    out.push(Delivery { subscriber_id: self.subscribers[i], data });
                    i += 1;
                }
                assert(out@.map_values(|d: Delivery| d@) =~= expected);
            },
            EventKind::Insert | EventKind::Update => {
                match entity {
                    None => {
                        assert(out@.map_values(|d: Delivery| d@) =~= expected);
                    },
                    Some(msg) => {
                        let swap_oob = match kind {
                            EventKind::Update => true,
                            _ => false,
                        };
                        let n = self.subscribers.len();
                        let mut i: usize = 0;
                        while i < n
                            invariant
                                0 <= i <= n,
                                n == self.subscribers@.len(),
                                expected == spec_deliveries(
                                    self.subscribers@,
                                    kind,
                                    message_id,
                                    opt_entity(entity),
                                    self.channel_id,
                                    self.server_id,
                                    now_ms,
                                ),
                                kind is Insert || kind is Update,
                                swap_oob == kind is Update,
                                opt_entity(entity) == Option::Some(*msg),
                                crate::ids::has_creation_time(msg.id) ==> out@.len() == i && forall|
                                    j: int,
                                |
                                    0 <= j < i ==> out@.map_values(|d: Delivery| d@)[j]
                                        == expected[j],
                                !crate::ids::has_creation_time(msg.id) ==> out@.len() == 0,
                            decreases n - i,
                        {
                            match render::render_message(
                                msg,
                                self.subscribers[i],
                                self.channel_id,
                                self.server_id,
                                swap_oob,
                                now_ms,
                            ) {
                                Ok(data) => {
                                    out.push(
                                        Delivery { subscriber_id: self.subscribers[i], data },
                                    );
                                },
                                Err(_) => {},
                            }
                            i += 1;
                        }
                        assert(out@.map_values(|d: Delivery| d@) =~= expected);
                    },
                }
            },
        }
        out
    }

    /// Handle one event now: render against the clock of this moment.
    ///
    /// Whatever moment the clock reads, the result is the deliveries for
    /// that moment.
    pub fn handle_message_event(
        &self,
        kind: EventKind,
        message_id: u128,
        entity: Option<&Message>,
    ) -> (r: Vec<Delivery>)
        ensures
            exists|now: i64|
                r@.map_values(|d: Delivery| d@) == spec_deliveries(
                    self.subscribers@,
                    kind,
                    message_id,
                    opt_entity(entity),
                    self.channel_id,
                    self.server_id,
                    now,
                ),
    {
        let now = clock::now_unix_ms();
        let r = self.deliveries_at(kind, message_id, entity, now);
        proof {
            assert(r@.map_values(|d: Delivery| d@) == spec_deliveries(
                self.subscribers@,
                kind,
                message_id,
                opt_entity(entity),
                self.channel_id,
                self.server_id,
                now,
            ));
        }
        r
    }

    /// Remove the subscribers whose delivery attempt showed the receiving
    /// side gone. Called after a full delivery pass, never while one is
    /// under way.
    pub fn prune(&mut self, stale: &Vec<u128>)
        requires
            old(self).wf(),
        ensures
            final(self).wf(),
            final(self).channel_id == old(self).channel_id,
            final(self).server_id == old(self).server_id,
            forall|x: u128|
                #[trigger] final(self).subscribers@.contains(x) <==> (old(
                    self,
                ).subscribers@.contains(x) && !stale@.contains(x)),
    {
        let ghost keep = |x: u128| !stale@.contains(x);
        let mut kept: Vec<u128> = Vec::new();
        let n = self.subscribers.len();
        let mut i: usize = 0;
        while i < n
            invariant
                0 <= i <= n,
                n == self.subscribers@.len(),
                *self == *old(self),
                keep == (|x: u128| !stale@.contains(x)),
                kept@ == self.subscribers@.subrange(0, i as int).filter(keep),
            decreases n - i,
        {
            let ghost prefix = self.subscribers@.subrange(0, i as int);
            let x = self.subscribers[i];
            if !vec_contains(stale, x) {
                kept.push(x);
            }
            proof {
                assert(self.subscribers@.subrange(0, i + 1) =~= prefix.push(x));
                reveal(Seq::filter);
                assert(prefix.push(x).drop_last() =~= prefix);
                assert(prefix.push(x).filter(keep) == if keep(x) {
                    prefix.filter(keep).push(x)
                } else {
                    prefix.filter(keep)
                });
            }
            i += 1;
        }
        proof {
            assert(self.subscribers@.subrange(0, n as int) =~= self.subscribers@);
        }
        self.subscribers = kept;
        proof {
            broadcast use group_filter_ensures;

            let s = old(self).subscribers@;
            lemma_sorted_filter(s, keep);
            assert forall|x: u128|
                self.subscribers@.contains(x) <==> (s.contains(x) && !stale@.contains(x)) by {
                if self.subscribers@.contains(x) {
                    let k = self.subscribers@.lemma_contains_to_index(x);
                    assert(keep(self.subscribers@[k]));
                    s.lemma_filter_contains_rev(keep, x);
                }
                if s.contains(x) && !stale@.contains(x) {
                    let k = s.lemma_contains_to_index(x);
                    assert(keep(s[k]));
                    s.lemma_filter_contains(keep, k);
                }
            }
        }
    }
}

/// Whether a plain vector holds a value.
fn vec_contains(v: &Vec<u128>, x: u128) -> (r: bool)
    ensures
        r == v@.contains(x),
{
    let n = v.len();
    let mut i: usize = 0;
    while i < n
        invariant
            0 <= i <= n,
            n == v@.len(),
            forall|j: int| 0 <= j < i ==> v@[j] != x,
        decreases n - i,
    {
        if v[i] == x {
            return true;
        }
        i += 1;
    }
    false
}

/// Filtering keeps a strictly ascending sequence strictly ascending.
proof fn lemma_sorted_filter(s: Seq<u128>, p: spec_fn(u128) -> bool)
    requires
        sorted_strict(s),
    ensures
        sorted_strict(s.filter(p)),
    decreases s.len(),
{
    broadcast use group_filter_ensures;
    broadcast use group_seq_properties;

    reveal(Seq::filter);
    if s.len() > 0 {
        let rest = s.drop_last();
        let last = s.last();
        assert(sorted_strict(rest));
        lemma_sorted_filter(rest, p);
        if p(last) {
            assert(s.filter(p) == rest.filter(p).push(last));
            assert forall|i: int, j: int|
                0 <= i < j < s.filter(p).len() implies s.filter(p)[i] < s.filter(p)[j] by {
                if j == s.filter(p).len() - 1 {
                    let e = rest.filter(p)[i];
                    assert(rest.filter(p).contains(e));
                    rest.lemma_filter_contains_rev(p, e);
                    let k = rest.lemma_contains_to_index(e);
                    assert(s[k] < last);
                }
            }
        }
    }
}

} // verus!
