//! What the server does with each packet a client sends, and with pings
//! and pongs: the changes to the registries and the packets it answers.

use vstd::prelude::*;
use crate::collections::{distinct_strings, string_set};
use crate::models::{Event, JsonNumber, JsonValue, Packet};
use crate::state::{AppState, SocketId};

verus! {

/// A packet to send, and the sockets to send it to.
#[derive(Debug)]
pub struct Delivery {
    /// The ids of the sockets that receive the packet, each once.
    pub recipients: Vec<SocketId>,
    /// The packet.
    pub packet: Packet,
}

/// `d` goes to the one socket `id`.
pub open spec fn to_one(d: Delivery, id: Seq<char>) -> bool {
    d.recipients@.len() == 1 && d.recipients@[0]@ == id
}

/// The channel a subscribe packet names: the string member `channel` of
/// its data.
pub open spec fn subscribe_channel(p: Packet) -> Option<Seq<char>> {
    match p.data {
        Some(d) => match d.field("channel"@) {
            Some(JsonValue::String(c)) => Some(c@),
            _ => None,
        },
        None => None,
    }
}

/// The channel an unsubscribe packet names: its data, a string.
pub open spec fn unsubscribe_channel(p: Packet) -> Option<Seq<char>> {
    match p.data {
        Some(JsonValue::String(c)) => Some(c@),
        _ => None,
    }
}

/// The channel and the message of a publish packet: its data is an
/// object whose member `channel` is a string and which has a member `data`.
pub open spec fn publish_target(p: Packet) -> Option<(Seq<char>, JsonValue)> {
    match p.data {
        Some(d) => match (d.field("channel"@), d.field("data"@)) {
            (Some(JsonValue::String(c)), Some(m)) => Some((c@, m)),
            _ => None,
        },
        None => None,
    }
}

/// The event packet that carries `message` to the subscribers of a channel.
pub open spec fn publish_event(message: JsonValue) -> Packet {
    Packet { event: Some(Event::Publish), data: Some(message), ..Packet::empty() }
}

/// `p` answers a handshake with client id `cid` from socket `id`: its data
/// tells the socket its id, whether it is authenticated and the ping
/// timeout in milliseconds.
pub open spec fn is_handshake_reply(p: Packet, cid: u64, id: Seq<char>, authenticated: bool, ping_timeout_ms: u64) -> bool {
    &&& p.event is None
    &&& p.cid is None
    &&& p.error is None
    &&& p.rid == Some(cid)
    &&& p.data matches Some(JsonValue::Object(members)) && {
        &&& members@.len() == 3
        &&& members@[0].0@ == "id"@
        &&& members@[0].1.is_string_value(id)
        &&& members@[1].0@ == "isAuthenticated"@
        &&& members@[1].1 == JsonValue::Bool(authenticated)
        &&& members@[2].0@ == "pingTimeout"@
        &&& members@[2].1 == JsonValue::Number(JsonNumber::PosInt(ping_timeout_ms))
    }
}

/// What the periodic ping of a socket does next.
#[derive(Debug, PartialEq, Eq, Clone, Copy)]
pub enum PingAction {
    /// The socket is gone: stop pinging it.
    Stop,
    /// The socket missed its pong: disconnect it and stop pinging.
    Disconnect,
    /// Send the ping text to the socket.
    SendPing,
    /// Wait for the next tick.
    Wait,
}

/// What a tick of the ping of a socket decides: stop for a socket that is
/// gone, disconnect one silent for longer than the timeout, ping any other.
pub open spec fn ping_decision(connected: bool, elapsed_ns: u128, timeout_ns: u128) -> PingAction {
    if !connected {
        PingAction::Stop
    } else if elapsed_ns > timeout_ns {
        PingAction::Disconnect
    } else {
        PingAction::SendPing
    }
}

/// What follows the sending of a ping: wait for the next tick, or
/// disconnect where the send failed.
pub open spec fn ping_outcome(sent: bool) -> PingAction {
    if sent {
        PingAction::Wait
    } else {
        PingAction::Disconnect
    }
}

/// The text of a ping the server sends.
pub fn ping_text() -> (s: &'static str)
    ensures
        s@ == "#1"@,
{
    "#1"
}

/// Whether `text` is a client's pong (`#2`).
pub fn is_pong_text(text: &String) -> (r: bool)
    ensures
        r == (text@ == "#2"@),
{
    crate::models::string_eq_str(text, "#2")
}

/// After sending a ping: a failed send disconnects the socket.
pub fn ping_sent(sent: bool) -> (a: PingAction)
    ensures
        a == ping_outcome(sent),
{
    if sent {
        PingAction::Wait
    } else {
        PingAction::Disconnect
    }
}

impl<T> AppState<T> {
    /// `post` is `self` with the registries and configuration untouched.
    pub open spec fn unchanged(self, post: Self) -> bool {
        &&& post.sockets@ == self.sockets@
        &&& post.channels() == self.channels()
        &&& post.config == self.config
    }

    /// The answer `rid = cid` to socket `id`, where it is connected.
    pub open spec fn reply_effect(self, id: Seq<char>, cid: Option<u64>, out: Seq<Delivery>) -> bool {
        if self.socket_ids().contains(id) {
            out.len() == 1 && to_one(out[0], id) && out[0].packet == Packet::reply_to(cid)
        } else {
            out.len() == 0
        }
    }

    /// The answer `rid = cid` to socket `id`, where `cid` is set and the
    /// socket is connected.
    pub open spec fn optional_reply_effect(self, id: Seq<char>, cid: Option<u64>, out: Seq<Delivery>) -> bool {
        if cid is Some && self.socket_ids().contains(id) {
            out.len() == 1 && to_one(out[0], id) && out[0].packet == Packet::reply_to(cid)
        } else {
            out.len() == 0
        }
    }

    /// What a handshake packet `p` from socket `id` sends: where the socket
    /// is connected and `p` has a `cid`, the handshake answer.
    pub open spec fn handshake_effect(
        self,
        id: Seq<char>,
        p: Packet,
        ping_timeout_ms: u64,
        authenticated: bool,
        out: Seq<Delivery>,
    ) -> bool {
        if self.socket_ids().contains(id) && p.cid is Some {
            &&& out.len() == 1
            &&& to_one(out[0], id)
            &&& is_handshake_reply(out[0].packet, p.cid->0, id, authenticated, ping_timeout_ms)
        } else {
            out.len() == 0
        }
    }

    /// `post` is `self` with the socket `id` dropped from the socket
    /// registry only.
    pub open spec fn removed_effect(self, post: Self, id: Seq<char>) -> bool {
        &&& post.sockets@ == self.sockets@.remove(id)
        &&& post.channels() == self.channels()
        &&& post.config == self.config
    }

    /// `post` is `self` after the disconnect of socket `id`: it is dropped
    /// from the socket registry and from every channel.
    pub open spec fn disconnect_effect(self, post: Self, id: Seq<char>) -> bool {
        &&& post.sockets@ == self.sockets@.remove(id)
        &&& post.channels() == self.channels().map_values(|s: Set<Seq<char>>| s.remove(id))
        &&& post.config == self.config
    }

    /// What a subscribe packet `p` from socket `id` does.
    pub open spec fn subscribe_effect(self, post: Self, id: Seq<char>, p: Packet, out: Seq<Delivery>) -> bool {
        match subscribe_channel(p) {
            Some(c) => {
                &&& post.sockets@ == self.sockets@
                &&& post.config == self.config
                &&& post.channels() == self.channels().insert(c, self.subscribers(c).insert(id))
                &&& self.optional_reply_effect(id, p.cid, out)
            },
            None => self.unchanged(post) && out.len() == 0,
        }
    }

    /// What an unsubscribe packet `p` from socket `id` does.
    pub open spec fn unsubscribe_effect(self, post: Self, id: Seq<char>, p: Packet, out: Seq<Delivery>) -> bool {
        match unsubscribe_channel(p) {
            Some(c) => {
                &&& post.sockets@ == self.sockets@
                &&& post.config == self.config
                &&& post.channels() == if self.channels().contains_key(c) {
                    self.channels().insert(c, self.subscribers(c).remove(id))
                } else {
                    self.channels()
                }
                &&& self.optional_reply_effect(id, p.cid, out)
            },
            None => self.unchanged(post) && out.len() == 0,
        }
    }

    /// What a publish packet `p` from socket `id` sends: the message to
    /// every connected subscriber of the channel (where the channel has
    /// ever been subscribed to), then the answer to the publisher.
    pub open spec fn publish_effect(self, id: Seq<char>, p: Packet, out: Seq<Delivery>) -> bool {
        match publish_target(p) {
            Some((c, m)) => {
                let k: int = if self.channels().contains_key(c) { 1 } else { 0 };
                &&& out.len() >= k
                &&& self.channels().contains_key(c) ==> {
                    &&& distinct_strings(out[0].recipients@)
                    &&& string_set(out[0].recipients@) == self.subscribers(c).intersect(self.socket_ids())
                    &&& out[0].packet == publish_event(m)
                }
                &&& self.optional_reply_effect(id, p.cid, out.skip(k))
            },
            None => out.len() == 0,
        }
    }

    /// What a packet `p` from socket `id`, past the handshake, does.
    pub open spec fn packet_effect(self, post: Self, id: Seq<char>, p: Packet, out: Seq<Delivery>) -> bool {
        match p.event {
            Some(Event::Subscribe) => self.subscribe_effect(post, id, p, out),
            Some(Event::Unsubscribe) => self.unsubscribe_effect(post, id, p, out),
            Some(Event::Publish) => self.unchanged(post) && self.publish_effect(id, p, out),
            _ => self.unchanged(post) && out.len() == 0,
        }
    }

    /// The answer `rid = cid` to socket `id`, where it is connected.
    fn reply(&self, socket_id: &SocketId, cid: Option<u64>) -> (out: Vec<Delivery>)
        requires
            self.wf(),
        ensures
            self.reply_effect(socket_id@, cid, out@),
    {
        let mut out = Vec::new();
        if self.is_connected(socket_id) {
            let mut recipients = Vec::new();
            recipients.push(socket_id.clone());
            let mut packet = Packet::default();
            packet.rid = cid;
            out.push(Delivery { recipients, packet });
        }
        out
    }

    /// Answers the handshake packet `packet` of socket `socket_id`: where
    /// the socket is connected and the packet has a `cid`, the socket is
    /// told its id, whether it is authenticated and the ping timeout.
    pub fn handle_handshake(
        &self,
        socket_id: &SocketId,
        packet: &Packet,
        ping_timeout_ms: u64,
        is_authenticated: bool,
    ) -> (out: Vec<Delivery>)
        requires
            self.wf(),
        ensures
            self.handshake_effect(socket_id@, *packet, ping_timeout_ms, is_authenticated, out@),
    {
        let mut out = Vec::new();
        if self.is_connected(socket_id) {
            if let Some(cid) = packet.cid {
                let mut members: Vec<(String, JsonValue)> = Vec::new();
                members.push(("id".to_owned(), JsonValue::String(socket_id.clone())));
                members.push(("isAuthenticated".to_owned(), JsonValue::Bool(is_authenticated)));
                members.push(("pingTimeout".to_owned(), JsonValue::Number(JsonNumber::PosInt(ping_timeout_ms))));
                let mut reply = Packet::default();
                reply.rid = Some(cid);
                reply.data = Some(JsonValue::Object(members));
                let mut recipients = Vec::new();
                recipients.push(socket_id.clone());
                out.push(Delivery { recipients, packet: reply });
            }
        }
        out
    }

    /// Handles a subscribe packet of socket `socket_id`: the socket joins
    /// the channel named by the string member `channel` of the data, and
    /// is answered where the packet has a `cid`.
    pub fn handle_subscribe(&mut self, socket_id: &SocketId, packet: Packet) -> (out: Vec<Delivery>)
        requires
            old(self).wf(),
        ensures
            final(self).wf(),
            old(self).subscribe_effect(*final(self), socket_id@, packet, out@),
    {
        let channel = match &packet.data {
            Some(d) => match d.get("channel") {
                Some(JsonValue::String(c)) => Some(c.clone()),
                _ => None,
            },
            None => None,
        };
        match channel {
            Some(c) => {
                self.subscribe(socket_id.clone(), c);
                if packet.cid.is_some() {
                    self.reply(socket_id, packet.cid)
                } else {
                    Vec::new()
                }
            },
            None => Vec::new(),
        }
    }

    /// Handles an unsubscribe packet of socket `socket_id`: the socket
    /// leaves the channel its data names, and is answered where the packet
    /// has a `cid`.
    pub fn handle_unsubscribe(&mut self, socket_id: &SocketId, packet: Packet) -> (out: Vec<Delivery>)
        requires
            old(self).wf(),
        ensures
            final(self).wf(),
            old(self).unsubscribe_effect(*final(self), socket_id@, packet, out@),
    {
        match &packet.data {
            Some(JsonValue::String(c)) => {
                self.unsubscribe(socket_id, c);
                if packet.cid.is_some() {
                    self.reply(socket_id, packet.cid)
                } else {
                    Vec::new()
                }
            },
            _ => Vec::new(),
        }
    }

    /// Handles a publish packet of socket `socket_id`: the message goes to
    /// the connected subscribers of the channel, and the publisher is
    /// answered where the packet has a `cid`.
    pub fn handle_publish(&self, socket_id: &SocketId, packet: Packet) -> (out: Vec<Delivery>)
        requires
            self.wf(),
        ensures
            self.publish_effect(socket_id@, packet, out@),
    {
        let cid = packet.cid;
        let data = match packet.data {
            Some(d) => d,
            None => return Vec::new(),
        };
        let channel = match data.get("channel") {
            Some(JsonValue::String(c)) => c.clone(),
            _ => return Vec::new(),
        };
        let message = match data.into_field("data") {
            Some(m) => m,
            None => return Vec::new(),
        };
        let mut out: Vec<Delivery> = Vec::new();
        match self.connected_subscribers(&channel) {
            Some(recipients) => {
                let mut event = Packet::default();
                event.event = Some(Event::Publish);
                event.data = Some(message);
                out.push(Delivery { recipients, packet: event });
            },
            None => {},
        }
        let ghost first = out@;
        if cid.is_some() {
            let mut replies = self.reply(socket_id, cid);
            out.append(&mut replies);
        }
        assert(out@.skip(first.len() as int) =~= out@.subrange(first.len() as int, out@.len() as int));
        out
    }

    /// Handles a packet of socket `socket_id` past the handshake, by its
    /// event; other events (custom ones among them) change nothing and are
    /// not answered.
    pub fn handle_packet(&mut self, socket_id: &SocketId, packet: Packet) -> (out: Vec<Delivery>)
        requires
            old(self).wf(),
        ensures
            final(self).wf(),
            old(self).packet_effect(*final(self), socket_id@, packet, out@),
    {
        match &packet.event {
            Some(Event::Subscribe) => self.handle_subscribe(socket_id, packet),
            Some(Event::Publish) => self.handle_publish(socket_id, packet),
            Some(Event::Unsubscribe) => self.handle_unsubscribe(socket_id, packet),
            _ => Vec::new(),
        }
    }

    /// Whether a client's pong from socket `socket_id` is recorded (as the
    /// time of its last pong): only for a connected socket.
    pub fn handle_pong(&self, socket_id: &SocketId) -> (r: bool)
        requires
            self.wf(),
        ensures
            r == self.socket_ids().contains(socket_id@),
    {
        self.is_connected(socket_id)
    }

    /// Answers a WebSocket ping frame of socket `socket_id`: the payload
    /// goes back in a pong frame, where the socket is connected.
    pub fn handle_ws_ping(&self, socket_id: &SocketId, payload: Vec<u8>) -> (r: Option<Vec<u8>>)
        requires
            self.wf(),
        ensures
            match r {
                Some(p) => self.socket_ids().contains(socket_id@) && p == payload,
                None => !self.socket_ids().contains(socket_id@),
            },
    {
        if self.is_connected(socket_id) {
            Some(payload)
        } else {
            None
        }
    }

    /// One tick of the periodic ping of socket `socket_id`, `elapsed_ns`
    /// nanoseconds after its last pong: a socket that is gone stops the
    /// pinging, one that has been silent longer than the timeout is
    /// disconnected, any other is pinged.
    pub fn ping_socket(&self, socket_id: &SocketId, elapsed_ns: u128, timeout_ns: u128) -> (a: PingAction)
        requires
            self.wf(),
        ensures
            a == ping_decision(self.socket_ids().contains(socket_id@), elapsed_ns, timeout_ns),
    {
        if !self.is_connected(socket_id) {
            PingAction::Stop
        } else if elapsed_ns > timeout_ns {
            PingAction::Disconnect
        } else {
            PingAction::SendPing
        }
    }
}

} // verus!
