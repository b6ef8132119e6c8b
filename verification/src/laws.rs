//! Properties of the server that span several operations.

use vstd::prelude::*;
use crate::collections::string_set;
use crate::handlers::{
    Delivery, PingAction, ping_decision, ping_outcome, publish_event, publish_target, subscribe_channel, to_one,
    unsubscribe_channel,
};
use crate::models::{Event, JsonNumber, JsonValue, Packet};
use crate::state::AppState;

verus! {

/// Every packet the server sends in answer to a packet goes to connected
/// sockets only.
pub proof fn law_deliveries_reach_connected_sockets<T>(
    pre: AppState<T>,
    post: AppState<T>,
    id: Seq<char>,
    p: Packet,
    out: Seq<Delivery>,
)
    requires
        pre.wf(),
        pre.packet_effect(post, id, p, out),
    ensures
        forall|k: int, r: Seq<char>|
            0 <= k < out.len() && #[trigger] string_set(out[k].recipients@).contains(r)
            ==> pre.socket_ids().contains(r),
{
    assert forall|k: int, r: Seq<char>|
        0 <= k < out.len() && #[trigger] string_set(out[k].recipients@).contains(r)
        implies pre.socket_ids().contains(r) by {
        let j = choose|j: int| 0 <= j < out[k].recipients@.len() && out[k].recipients@[j]@ == r;
        match publish_target(p) {
            Some((c, m)) => {
                if pre.channels().contains_key(c) && k == 0 && p.event == Some(Event::Publish) {
                    assert(string_set(out[0].recipients@).contains(r));
                } else if p.event == Some(Event::Publish) {
                    let kk: int = if pre.channels().contains_key(c) { 1 } else { 0 };
                    assert(out.skip(kk)[k - kk] == out[k]);
                }
            },
            None => {},
        }
    }
}

/// Every answer the server sends to a packet goes to the sender alone and
/// carries the packet's `cid` as its `rid`; the only other packets it sends
/// are publish events.
pub proof fn law_answers_carry_the_request_cid<T>(
    pre: AppState<T>,
    post: AppState<T>,
    id: Seq<char>,
    p: Packet,
    out: Seq<Delivery>,
)
    requires
        pre.wf(),
        pre.packet_effect(post, id, p, out),
    ensures
        forall|k: int| 0 <= k < out.len() ==> {
            ||| (#[trigger] out[k]).packet == Packet::reply_to(p.cid) && to_one(out[k], id)
            ||| out[k].packet.event == Some(Event::Publish)
        },
{
    assert forall|k: int| 0 <= k < out.len() implies {
        ||| (#[trigger] out[k]).packet == Packet::reply_to(p.cid) && to_one(out[k], id)
        ||| out[k].packet.event == Some(Event::Publish)
    } by {
        if p.event == Some(Event::Publish) {
            match publish_target(p) {
                Some((c, m)) => {
                    let kk: int = if pre.channels().contains_key(c) { 1 } else { 0 };
                    if k >= kk {
                        assert(out.skip(kk)[k - kk] == out[k]);
                    }
                },
                None => {},
            }
        }
    }
}

/// A connected socket that subscribes to a channel receives what is then
/// published to that channel, whoever publishes it.
pub proof fn law_subscriber_receives_publications<T>(
    s0: AppState<T>,
    s1: AppState<T>,
    id: Seq<char>,
    subscription: Packet,
    answer: Seq<Delivery>,
    publisher: Seq<char>,
    publication: Packet,
    out: Seq<Delivery>,
)
    requires
        s0.wf(),
        s0.socket_ids().contains(id),
        s0.subscribe_effect(s1, id, subscription, answer),
        subscribe_channel(subscription) is Some,
        publish_target(publication) is Some,
        (publish_target(publication)->0).0 == subscribe_channel(subscription)->0,
        s1.publish_effect(publisher, publication, out),
    ensures
        out.len() >= 1,
        string_set(out[0].recipients@).contains(id),
        out[0].packet == publish_event((publish_target(publication)->0).1),
{
    let c = subscribe_channel(subscription)->0;
    assert(s1.channels().contains_key(c));
    assert(s1.subscribers(c).contains(id));
    assert(s1.subscribers(c).intersect(s1.socket_ids()).contains(id));
}

/// A socket that unsubscribes from a channel is not among the subscribers
/// that what is then published to that channel reaches (where the channel
/// is unknown, publishing reaches no subscriber at all).
pub proof fn law_unsubscribed_socket_receives_nothing<T>(
    s0: AppState<T>,
    s1: AppState<T>,
    id: Seq<char>,
    unsubscription: Packet,
    answer: Seq<Delivery>,
    publisher: Seq<char>,
    publication: Packet,
    out: Seq<Delivery>,
)
    requires
        s0.wf(),
        s0.unsubscribe_effect(s1, id, unsubscription, answer),
        unsubscribe_channel(unsubscription) is Some,
        publish_target(publication) is Some,
        (publish_target(publication)->0).0 == unsubscribe_channel(unsubscription)->0,
        s1.publish_effect(publisher, publication, out),
    ensures
        s1.channels().contains_key(unsubscribe_channel(unsubscription)->0)
            ==> !string_set(out[0].recipients@).contains(id),
{
    let c = unsubscribe_channel(unsubscription)->0;
    if s1.channels().contains_key(c) {
        assert(s0.channels().contains_key(c));
        assert(!s1.subscribers(c).contains(id));
    }
}

/// Subscribing to a channel and unsubscribing from it again leaves the
/// subscribers of every channel as they were, for a socket that was not
/// subscribed to it.
pub proof fn law_unsubscribe_undoes_subscribe<T>(
    s0: AppState<T>,
    s1: AppState<T>,
    s2: AppState<T>,
    id: Seq<char>,
    subscription: Packet,
    answer1: Seq<Delivery>,
    unsubscription: Packet,
    answer2: Seq<Delivery>,
)
    requires
        s0.wf(),
        s1.wf(),
        subscribe_channel(subscription) is Some,
        unsubscribe_channel(unsubscription) == subscribe_channel(subscription),
        !s0.subscribers(subscribe_channel(subscription)->0).contains(id),
        s0.subscribe_effect(s1, id, subscription, answer1),
        s1.unsubscribe_effect(s2, id, unsubscription, answer2),
    ensures
        forall|c: Seq<char>| #[trigger] s2.subscribers(c) == s0.subscribers(c),
        s2.sockets@ == s0.sockets@,
{
    let ch = subscribe_channel(subscription)->0;
    assert forall|c: Seq<char>| #[trigger] s2.subscribers(c) == s0.subscribers(c) by {
        if c == ch {
            assert(s2.subscribers(c) =~= s0.subscribers(c));
        } else {
            assert(s2.channels().contains_key(c) == s0.channels().contains_key(c));
            if s0.channels().contains_key(c) {
                assert(s2.channels()[c] == s0.channels()[c]);
            }
        }
    }
}

/// Subscribing twice to a channel is the same as subscribing once.
pub proof fn law_subscribe_is_idempotent<T>(
    s0: AppState<T>,
    s1: AppState<T>,
    s2: AppState<T>,
    id: Seq<char>,
    subscription: Packet,
    answer1: Seq<Delivery>,
    answer2: Seq<Delivery>,
)
    requires
        s0.wf(),
        subscribe_channel(subscription) is Some,
        s0.subscribe_effect(s1, id, subscription, answer1),
        s1.subscribe_effect(s2, id, subscription, answer2),
    ensures
        s2.channels() == s1.channels(),
        s2.sockets@ == s1.sockets@,
{
    let c = subscribe_channel(subscription)->0;
    assert(s1.subscribers(c).insert(id) =~= s1.subscribers(c));
    assert(s2.channels() =~= s1.channels());
}

/// A disconnected socket is gone from the registry and from every channel,
/// so nothing published afterwards reaches it.
pub proof fn law_disconnected_socket_receives_nothing<T>(
    s0: AppState<T>,
    s1: AppState<T>,
    id: Seq<char>,
    publisher: Seq<char>,
    publication: Packet,
    out: Seq<Delivery>,
)
    requires
        s0.wf(),
        s0.disconnect_effect(s1, id),
        s1.publish_effect(publisher, publication, out),
    ensures
        !s1.socket_ids().contains(id),
        forall|c: Seq<char>| !(#[trigger] s1.subscribers(c)).contains(id),
        forall|k: int| 0 <= k < out.len() ==> !(#[trigger] string_set(out[k].recipients@)).contains(id),
{
    assert forall|c: Seq<char>| !(#[trigger] s1.subscribers(c)).contains(id) by {
        if s1.channels().contains_key(c) {
            assert(s1.channels()[c] == s0.channels()[c].remove(id));
        }
    }
    assert forall|k: int| 0 <= k < out.len() implies !(#[trigger] string_set(out[k].recipients@)).contains(id) by {
        match publish_target(publication) {
            Some((c, m)) => {
                let kk: int = if s1.channels().contains_key(c) { 1 } else { 0 };
                if k >= kk {
                    assert(out.skip(kk)[k - kk] == out[k]);
                }
            },
            None => {},
        }
    }
}

/// A publish packet, whoever sends it (subscribed to the channel or not),
/// sends the message to exactly the connected subscribers of a known
/// channel, each once, changes nothing, and is then answered with the
/// `cid` where it has one and the sender is connected.
pub proof fn law_publish_reaches_all_connected_subscribers<T>(
    pre: AppState<T>,
    post: AppState<T>,
    id: Seq<char>,
    p: Packet,
    out: Seq<Delivery>,
    c: Seq<char>,
    m: JsonValue,
)
    requires
        pre.wf(),
        p.event == Some(Event::Publish),
        publish_target(p) == Some((c, m)),
        pre.channels().contains_key(c),
        pre.packet_effect(post, id, p, out),
    ensures
        post.sockets@ == pre.sockets@,
        post.channels() == pre.channels(),
        out.len() >= 1,
        crate::collections::distinct_strings(out[0].recipients@),
        forall|r: Seq<char>| #[trigger] string_set(out[0].recipients@).contains(r)
            <==> (pre.subscribers(c).contains(r) && pre.socket_ids().contains(r)),
        out[0].packet.event == Some(Event::Publish),
        out[0].packet.data == Some(m),
        out[0].packet.cid is None && out[0].packet.rid is None && out[0].packet.error is None,
        (p.cid is Some && pre.socket_ids().contains(id)) ==> {
            &&& out.len() == 2
            &&& out[1].recipients@.len() == 1
            &&& out[1].recipients@[0]@ == id
            &&& out[1].packet.rid == p.cid
            &&& out[1].packet.event is None && out[1].packet.data is None
            &&& out[1].packet.cid is None && out[1].packet.error is None
        },
        !(p.cid is Some && pre.socket_ids().contains(id)) ==> out.len() == 1,
{
    assert(out.skip(1).len() == out.len() - 1);
    if p.cid is Some && pre.socket_ids().contains(id) {
        assert(out.skip(1)[0] == out[1]);
    }
}

/// An unsubscribe packet naming channel `c` takes the sender out of `c`
/// only: every other channel keeps its subscribers, `c` (where known)
/// keeps all but the sender, the sockets stay, and the sender is answered
/// with the `cid` where it has one and is connected.
pub proof fn law_unsubscribe_leaves_other_channels<T>(
    pre: AppState<T>,
    post: AppState<T>,
    id: Seq<char>,
    p: Packet,
    out: Seq<Delivery>,
    c: Seq<char>,
)
    requires
        pre.wf(),
        p.event == Some(Event::Unsubscribe),
        unsubscribe_channel(p) == Some(c),
        pre.packet_effect(post, id, p, out),
    ensures
        post.sockets@ == pre.sockets@,
        forall|c2: Seq<char>| c2 != c ==> #[trigger] post.subscribers(c2) == pre.subscribers(c2),
        forall|c2: Seq<char>| c2 != c ==> (#[trigger] post.channels().contains_key(c2) <==> pre.channels().contains_key(c2)),
        pre.channels().contains_key(c) ==> post.subscribers(c) == pre.subscribers(c).remove(id),
        !pre.channels().contains_key(c) ==> post.channels() == pre.channels(),
        (p.cid is Some && pre.socket_ids().contains(id)) ==> {
            &&& out.len() == 1
            &&& out[0].recipients@.len() == 1
            &&& out[0].recipients@[0]@ == id
            &&& out[0].packet == Packet::reply_to(p.cid)
        },
        !(p.cid is Some && pre.socket_ids().contains(id)) ==> out.len() == 0,
{
    assert forall|c2: Seq<char>| c2 != c implies #[trigger] post.subscribers(c2) == pre.subscribers(c2) by {
        if pre.channels().contains_key(c) {
            assert(post.channels() == pre.channels().insert(c, pre.subscribers(c).remove(id)));
        }
    }
    if pre.channels().contains_key(c) {
        assert(post.channels().contains_key(c));
        assert(post.channels()[c] == pre.subscribers(c).remove(id));
    }
}

/// A subscribe packet with a `cid` from a connected socket is always
/// answered, to that socket alone, with that `cid` as `rid`, whether or not
/// the socket was already subscribed; the socket is then a subscriber of
/// the channel.
pub proof fn law_subscribe_is_always_confirmed<T>(
    pre: AppState<T>,
    post: AppState<T>,
    id: Seq<char>,
    p: Packet,
    out: Seq<Delivery>,
    c: Seq<char>,
)
    requires
        pre.wf(),
        p.event == Some(Event::Subscribe),
        subscribe_channel(p) == Some(c),
        p.cid is Some,
        pre.socket_ids().contains(id),
        pre.packet_effect(post, id, p, out),
    ensures
        out.len() == 1,
        out[0].recipients@.len() == 1,
        out[0].recipients@[0]@ == id,
        out[0].packet.rid == p.cid,
        out[0].packet.event is None && out[0].packet.data is None,
        out[0].packet.cid is None && out[0].packet.error is None,
        post.subscribers(c).contains(id),
        forall|r: Seq<char>| r != id ==> (#[trigger] post.subscribers(c).contains(r) <==> pre.subscribers(c).contains(r)),
        post.sockets@ == pre.sockets@,
{
    assert(post.channels().contains_key(c));
    assert(post.channels()[c] == pre.subscribers(c).insert(id));
}

/// The handshake answer tells the socket its whole id, character for
/// character, together with its authentication and the ping timeout.
pub proof fn law_handshake_answer_tells_the_whole_id<T>(
    pre: AppState<T>,
    id: Seq<char>,
    p: Packet,
    ping_timeout_ms: u64,
    authenticated: bool,
    out: Seq<Delivery>,
)
    requires
        pre.wf(),
        pre.socket_ids().contains(id),
        p.cid is Some,
        pre.handshake_effect(id, p, ping_timeout_ms, authenticated, out),
    ensures
        out.len() == 1,
        out[0].recipients@.len() == 1,
        out[0].recipients@[0]@ == id,
        out[0].packet.rid == p.cid,
        out[0].packet.data matches Some(JsonValue::Object(members)) && {
            &&& members@.len() == 3
            &&& members@[0].1 matches JsonValue::String(t) && t@ == id && t@.len() == id.len()
            &&& members@[1].1 == JsonValue::Bool(authenticated)
            &&& members@[2].1 == JsonValue::Number(JsonNumber::PosInt(ping_timeout_ms))
        },
{
}

/// A rejected connection takes its own socket out of the registry and
/// nothing else: every other socket stays registered with its data, and
/// every channel keeps its subscribers.
pub proof fn law_rejection_drops_only_the_rejected_socket<T>(pre: AppState<T>, post: AppState<T>, id: Seq<char>)
    requires
        pre.wf(),
        pre.removed_effect(post, id),
    ensures
        post.socket_ids() == pre.socket_ids().remove(id),
        forall|k: Seq<char>| k != id && #[trigger] pre.sockets@.contains_key(k) ==>
            post.sockets@.contains_key(k) && post.sockets@[k] == pre.sockets@[k],
        forall|c: Seq<char>| #[trigger] post.subscribers(c) == pre.subscribers(c),
{
}

/// What the ping cycle of one socket observes at a tick: whether the
/// socket is in the registry, how long ago its last pong came, and whether
/// a ping sent at that tick goes out.
pub struct PingTick {
    /// The socket is in the registry.
    pub connected: bool,
    /// Nanoseconds since the socket's last pong.
    pub elapsed_ns: u128,
    /// A ping sent at this tick goes out.
    pub sent: bool,
}

/// Where a tick leaves the ping cycle: the decision, and after a ping the
/// outcome of sending it.
pub open spec fn tick_action(t: PingTick, timeout_ns: u128) -> PingAction {
    let d = ping_decision(t.connected, t.elapsed_ns, timeout_ns);
    if d == PingAction::SendPing {
        ping_outcome(t.sent)
    } else {
        d
    }
}

/// How many pings the cycle sends over the ticks `ticks`: one at each
/// tick that decides to ping, up to and including the tick that ends the
/// cycle.
pub open spec fn pings_sent(ticks: Seq<PingTick>, timeout_ns: u128) -> nat
    decreases ticks.len(),
{
    if ticks.len() == 0 {
        0
    } else {
        let here: nat = if ping_decision(ticks[0].connected, ticks[0].elapsed_ns, timeout_ns)
            == PingAction::SendPing { 1 } else { 0 };
        if tick_action(ticks[0], timeout_ns) == PingAction::Wait {
            here + pings_sent(ticks.drop_first(), timeout_ns)
        } else {
            here
        }
    }
}

/// The ping cycle goes on while the socket stays connected and answers in
/// time: over ticks at which it is in the registry, its last pong is no
/// older than the timeout and every ping goes out, each tick sends one
/// ping and the cycle never ends.
pub proof fn law_healthy_socket_is_pinged_every_tick(ticks: Seq<PingTick>, timeout_ns: u128)
    requires
        forall|k: int| 0 <= k < ticks.len() ==> (#[trigger] ticks[k]).connected
            && ticks[k].elapsed_ns <= timeout_ns && ticks[k].sent,
    ensures
        forall|k: int| 0 <= k < ticks.len() ==> tick_action(#[trigger] ticks[k], timeout_ns) == PingAction::Wait,
        pings_sent(ticks, timeout_ns) == ticks.len(),
    decreases ticks.len(),
{
    if ticks.len() > 0 {
        let rest = ticks.drop_first();
        assert forall|k: int| 0 <= k < rest.len() implies (#[trigger] rest[k]).connected
            && rest[k].elapsed_ns <= timeout_ns && rest[k].sent by {
            assert(rest[k] == ticks[k + 1]);
        }
        law_healthy_socket_is_pinged_every_tick(rest, timeout_ns);
        assert(ticks[0].connected);
    }
}

/// A socket that stays silent past the timeout is disconnected at the
/// first tick that sees it so, without a ping at that tick; one that has
/// left the registry stops the cycle.
pub proof fn law_silent_socket_is_disconnected(t: PingTick, timeout_ns: u128)
    ensures
        t.connected && t.elapsed_ns > timeout_ns ==> tick_action(t, timeout_ns) == PingAction::Disconnect
            && pings_sent(seq![t], timeout_ns) == 0,
        !t.connected ==> tick_action(t, timeout_ns) == PingAction::Stop
            && pings_sent(seq![t], timeout_ns) == 0,
        t.connected && t.elapsed_ns <= timeout_ns && !t.sent ==> tick_action(t, timeout_ns) == PingAction::Disconnect,
{
}

} // verus!
