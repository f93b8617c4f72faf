//! The laws of the fan-out engine, stated over the same specifications
//! that the executable functions' contracts use, and proved once for all
//! inputs.

use vstd::prelude::*;

use crate::decode::EventKind;
use crate::ids;
use crate::render;
use crate::render::Message;
use crate::worker::sorted_strict;
use crate::worker::spec_deliveries;

verus! {

/// The fragments delivered to one subscriber by a delivery pass, in the
/// order the pass produced them.
pub open spec fn delivered_to(d: Seq<(u128, Seq<char>)>, s: u128) -> Seq<Seq<char>>
    decreases d.len(),
{
    if d.len() == 0 {
        Seq::empty()
    } else {
        let rest = delivered_to(d.drop_last(), s);
        if d.last().0 == s {
            rest.push(d.last().1)
        } else {
            rest
        }
    }
}

/// A delivery pass whose addressees never include `s` delivers nothing to
/// `s`.
proof fn lemma_delivered_to_none(d: Seq<(u128, Seq<char>)>, s: u128)
    requires
        forall|i: int| 0 <= i < d.len() ==> (#[trigger] d[i]).0 != s,
    ensures
        delivered_to(d, s) == Seq::<Seq<char>>::empty(),
    decreases d.len(),
{
    if d.len() > 0 {
        lemma_delivered_to_none(d.drop_last(), s);
    }
}

/// A delivery pass that addresses `s` at exactly one position delivers
/// exactly that fragment to `s`.
proof fn lemma_delivered_to_single(d: Seq<(u128, Seq<char>)>, s: u128, k: int)
    requires
        0 <= k < d.len(),
        d[k].0 == s,
        forall|i: int| 0 <= i < d.len() && i != k ==> (#[trigger] d[i]).0 != s,
    ensures
        delivered_to(d, s) == seq![d[k].1],
    decreases d.len(),
{
    if k == d.len() - 1 {
        lemma_delivered_to_none(d.drop_last(), s);
        assert(delivered_to(d, s) =~= seq![d[k].1]);
    } else {
        lemma_delivered_to_single(d.drop_last(), s, k);
        assert(d.drop_last()[k] == d[k]);
    }
}

/// In a strictly ascending subscriber set each subscriber stands at
/// exactly one position.
proof fn lemma_unique_position(subs: Seq<u128>, s: u128) -> (k: int)
    requires
        sorted_strict(subs),
        subs.contains(s),
    ensures
        0 <= k < subs.len(),
        subs[k] == s,
        forall|i: int| 0 <= i < subs.len() && i != k ==> subs[i] != s,
{
    let k = subs.lemma_contains_to_index(s);
    assert forall|i: int| 0 <= i < subs.len() && i != k implies subs[i] != s by {
        if i < k {
            assert(subs[i] < subs[k]);
        } else {
            assert(subs[k] < subs[i]);
        }
    }
    k
}

/// Delivering an insert or update to a topic with several subscribers
/// reaches each current subscriber exactly once, and the fragment each
/// receives is the one rendered against that subscriber's own identity —
/// in particular, two subscribers of the same topic each receive their own
/// fragment, never the other's.
pub proof fn lemma_each_subscriber_delivered_once(
    subs: Seq<u128>,
    s: u128,
    kind: EventKind,
    msg: Message,
    message_id: u128,
    channel_id: u128,
    server_id: u128,
    now: i64,
)
    requires
        sorted_strict(subs),
        subs.contains(s),
        kind is Insert || kind is Update,
        ids::has_creation_time(msg.id),
    ensures
        ({
            let d = spec_deliveries(
                subs,
                kind,
                message_id,
                Some(msg),
                channel_id,
                server_id,
                now,
            );
            delivered_to(d, s) == seq![
                render::spec_render_message(
                    msg,
                    s,
                    channel_id,
                    server_id,
                    kind is Update,
                    now,
                ),
            ]
        }),
{
    let d = spec_deliveries(subs, kind, message_id, Some(msg), channel_id, server_id, now);
    let k = lemma_unique_position(subs, s);
    assert(d[k].0 == subs[k]);
    assert forall|i: int| 0 <= i < d.len() && i != k implies (#[trigger] d[i]).0 != s by {
        assert(d[i].0 == subs[i]);
    }
    lemma_delivered_to_single(d, s, k);
}

/// A subscriber pruned after a failed delivery is absent from the set the
/// next event sees and receives nothing from it, while every remaining
/// subscriber still receives its own fragment.
pub proof fn lemma_pruned_subscriber_silent(
    subs_before: Seq<u128>,
    subs_after: Seq<u128>,
    stale: Seq<u128>,
    s1: u128,
    s2: u128,
    kind: EventKind,
    msg: Message,
    message_id: u128,
    channel_id: u128,
    server_id: u128,
    now: i64,
)
    requires
        sorted_strict(subs_before),
        sorted_strict(subs_after),
        forall|x: u128|
            #[trigger] subs_after.contains(x) <==> (subs_before.contains(x) && !stale.contains(
                x,
            )),
        stale.contains(s1),
        subs_before.contains(s2),
        !stale.contains(s2),
        kind is Insert || kind is Update,
        ids::has_creation_time(msg.id),
    ensures
        !subs_after.contains(s1),
        subs_after.contains(s2),
        ({
            let d = spec_deliveries(
                subs_after,
                kind,
                message_id,
                Some(msg),
                channel_id,
                server_id,
                now,
            );
            &&& delivered_to(d, s1) == Seq::<Seq<char>>::empty()
            &&& delivered_to(d, s2) == seq![
                render::spec_render_message(
                    msg,
                    s2,
                    channel_id,
                    server_id,
                    kind is Update,
                    now,
                ),
            ]
        }),
{
    let d = spec_deliveries(subs_after, kind, message_id, Some(msg), channel_id, server_id, now);
    assert forall|i: int| 0 <= i < d.len() implies (#[trigger] d[i]).0 != s1 by {
        assert(d[i].0 == subs_after[i]);
        assert(subs_after.contains(subs_after[i]));
    }
    lemma_delivered_to_none(d, s1);
    lemma_each_subscriber_delivered_once(
        subs_after,
        s2,
        kind,
        msg,
        message_id,
        channel_id,
        server_id,
        now,
    );
}

/// Two events arriving in order are delivered to every current subscriber
/// in that order: across the two passes a subscriber's stream is the first
/// event's fragment and then the second's.
pub proof fn lemma_events_delivered_in_order(
    subs: Seq<u128>,
    s: u128,
    m1: Message,
    m2: Message,
    mid1: u128,
    mid2: u128,
    channel_id: u128,
    server_id: u128,
    now1: i64,
    now2: i64,
)
    requires
        sorted_strict(subs),
        subs.contains(s),
        ids::has_creation_time(m1.id),
        ids::has_creation_time(m2.id),
    ensures
        ({
            let d1 = spec_deliveries(
                subs,
                EventKind::Insert,
                mid1,
                Some(m1),
                channel_id,
                server_id,
                now1,
            );
            let d2 = spec_deliveries(
                subs,
                EventKind::Insert,
                mid2,
                Some(m2),
                channel_id,
                server_id,
                now2,
            );
            delivered_to(d1, s) + delivered_to(d2, s) == seq![
                render::spec_render_message(m1, s, channel_id, server_id, false, now1),
                render::spec_render_message(m2, s, channel_id, server_id, false, now2),
            ]
        }),
{
    lemma_each_subscriber_delivered_once(
        subs,
        s,
        EventKind::Insert,
        m1,
        mid1,
        channel_id,
        server_id,
        now1,
    );
    lemma_each_subscriber_delivered_once(
        subs,
        s,
        EventKind::Insert,
        m2,
        mid2,
        channel_id,
        server_id,
        now2,
    );
    let d1 = spec_deliveries(subs, EventKind::Insert, mid1, Some(m1), channel_id, server_id, now1);
    let d2 = spec_deliveries(subs, EventKind::Insert, mid2, Some(m2), channel_id, server_id, now2);
    assert(delivered_to(d1, s) + delivered_to(d2, s) =~= seq![
        render::spec_render_message(m1, s, channel_id, server_id, false, now1),
        render::spec_render_message(m2, s, channel_id, server_id, false, now2),
    ]);
}

/// A deletion needs no fetched entity: whatever the fetch would have
/// returned, the pass is the same, and it hands every current subscriber
/// the identical instruction.
pub proof fn lemma_delete_uniform(
    subs: Seq<u128>,
    message_id: u128,
    entity: Option<Message>,
    channel_id: u128,
    server_id: u128,
    now: i64,
)
    ensures
        spec_deliveries(subs, EventKind::Delete, message_id, entity, channel_id, server_id, now)
            == spec_deliveries(
            subs,
            EventKind::Delete,
            message_id,
            None,
            channel_id,
            server_id,
            now,
        ),
        ({
            let d = spec_deliveries(
                subs,
                EventKind::Delete,
                message_id,
                entity,
                channel_id,
                server_id,
                now,
            );
            &&& d.len() == subs.len()
            &&& forall|i: int|
                0 <= i < d.len() ==> #[trigger] d[i] == (
                    subs[i],
                    render::spec_render_deleted(message_id),
                )
        }),
{
}

} // verus!
