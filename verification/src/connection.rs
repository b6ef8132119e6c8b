//! The life of one client connection: the handshake, then the frames the
//! client sends until the connection ends.
//!
//! The embedding program reads each frame from the socket and hands it to
//! the connection; the connection updates the application state and says
//! what to do next (parse a text, run the middleware, send packets, ...).
//! The program does it and reports back where a step asks for it.

use vstd::prelude::*;
use crate::handlers::{Delivery, is_pong_text};
use crate::models::{Event, Packet};
use crate::state::{AppState, SocketId};

verus! {

/// What the receiving half of a socket yields.
#[derive(Debug)]
pub enum Frame {
    /// A text frame.
    Text(String),
    /// A binary frame.
    Binary,
    /// A WebSocket ping frame, with its payload.
    Ping(Vec<u8>),
    /// A WebSocket pong frame.
    Pong,
    /// A close frame.
    Close,
    /// A receive error.
    Error,
    /// The end of the stream.
    End,
}

/// Where a connection stands.
#[derive(Debug, PartialEq, Eq, Clone, Copy)]
pub enum Phase {
    /// Waiting for the client's handshake, which must be its first frame.
    AwaitingHandshake,
    /// Handshake done: handling the client's packets.
    Open,
    /// The connection is over.
    Closed,
}

/// What to do next for a connection.
#[derive(Debug)]
pub enum Step {
    /// Parse the text as a packet and report it with `on_parsed`.
    Parse(String),
    /// Run the middleware on the packet and report with `on_filtered`.
    Filter(Packet),
    /// Send the deliveries.
    Deliver(Vec<Delivery>),
    /// The handshake is accepted: send the deliveries and start pinging the
    /// socket.
    Opened(Vec<Delivery>),
    /// Send a pong frame with this payload; report a failure with
    /// `on_pong_failed`.
    SendPong(Vec<u8>),
    /// Record now as the time of the socket's last pong.
    RecordPong,
    /// Nothing to do.
    Ignore,
    /// The handshake failed: the socket has left the registry; stop.
    Rejected,
    /// The connection ended: the socket is disconnected; stop.
    Closed,
}

/// One client connection.
pub struct Connection {
    /// The id of the connection's socket.
    pub socket_id: SocketId,
    /// The ping timeout, in milliseconds, told to the client at handshake.
    pub ping_timeout_ms: u64,
    /// Where the connection stands.
    pub phase: Phase,
}

impl Connection {
    /// A connection of socket `socket_id`, waiting for its handshake.
    pub fn new(socket_id: SocketId, ping_timeout_ms: u64) -> (c: Connection)
        ensures
            c.socket_id == socket_id,
            c.ping_timeout_ms == ping_timeout_ms,
            c.phase == Phase::AwaitingHandshake,
    {
        Connection { socket_id, ping_timeout_ms, phase: Phase::AwaitingHandshake }
    }

    /// The handshake failed: the socket leaves the socket registry.
    fn reject<T>(&mut self, state: &mut AppState<T>) -> (s: Step)
        requires
            old(state).wf(),
        ensures
            final(state).wf(),
            old(state).removed_effect(*final(state), old(self).socket_id@),
            final(self).socket_id == old(self).socket_id,
            final(self).ping_timeout_ms == old(self).ping_timeout_ms,
            final(self).phase == Phase::Closed,
            s is Rejected,
    {
        state.remove_socket(&self.socket_id);
        self.phase = Phase::Closed;
        Step::Rejected
    }

    /// The connection ended: the socket is disconnected.
    fn close<T>(&mut self, state: &mut AppState<T>) -> (s: Step)
        requires
            old(state).wf(),
        ensures
            final(state).wf(),
            old(state).disconnect_effect(*final(state), old(self).socket_id@),
            final(self).socket_id == old(self).socket_id,
            final(self).ping_timeout_ms == old(self).ping_timeout_ms,
            final(self).phase == Phase::Closed,
            s is Closed,
    {
        state.handle_disconnect(&self.socket_id);
        self.phase = Phase::Closed;
        Step::Closed
    }

    /// Handles a frame from the client.
    ///
    /// Before the handshake, a text frame is parsed and anything else
    /// rejects the connection.  After it, `#2` is a pong, other texts are
    /// parsed, a ping frame is answered with a pong frame, and a close
    /// frame, a receive error or the end of the stream end the connection.
    pub fn on_frame<T>(&mut self, state: &mut AppState<T>, frame: Frame) -> (s: Step)
        requires
            old(state).wf(),
        ensures
            final(state).wf(),
            final(self).socket_id == old(self).socket_id,
            final(self).ping_timeout_ms == old(self).ping_timeout_ms,
            s is Rejected ==> final(state).sockets@ == old(state).sockets@.remove(old(self).socket_id@)
                && final(state).channels() == old(state).channels(),
            ({
                let id = old(self).socket_id@;
                let connected = old(state).socket_ids().contains(id);
                match old(self).phase {
                    Phase::AwaitingHandshake => match frame {
                        Frame::Text(t) => s == Step::Parse(t) && old(state).unchanged(*final(state))
                            && final(self).phase == Phase::AwaitingHandshake,
                        _ => s is Rejected && old(state).removed_effect(*final(state), id)
                            && final(self).phase == Phase::Closed,
                    },
                    Phase::Open => match frame {
                        Frame::Text(t) => old(state).unchanged(*final(state)) && final(self).phase == Phase::Open
                            && if t@ == "#2"@ {
                                if connected { s is RecordPong } else { s is Ignore }
                            } else {
                                s == Step::Parse(t)
                            },
                        Frame::Ping(p) => old(state).unchanged(*final(state)) && final(self).phase == Phase::Open
                            && if connected { s == Step::SendPong(p) } else { s is Ignore },
                        Frame::Binary | Frame::Pong => s is Ignore && old(state).unchanged(*final(state))
                            && final(self).phase == Phase::Open,
                        Frame::Close | Frame::Error | Frame::End => s is Closed
                            && old(state).disconnect_effect(*final(state), id)
                            && final(self).phase == Phase::Closed,
                    },
                    Phase::Closed => s is Ignore && old(state).unchanged(*final(state))
                        && final(self).phase == Phase::Closed,
                }
            }),
    {
        match self.phase {
            Phase::AwaitingHandshake => match frame {
                Frame::Text(t) => Step::Parse(t),
                _ => self.reject(state),
            },
            Phase::Open => match frame {
                Frame::Text(t) => {
                    if is_pong_text(&t) {
                        if state.handle_pong(&self.socket_id) {
                            Step::RecordPong
                        } else {
                            Step::Ignore
                        }
                    } else {
                        Step::Parse(t)
                    }
                },
                Frame::Ping(p) => match state.handle_ws_ping(&self.socket_id, p) {
                    Some(p) => Step::SendPong(p),
                    None => Step::Ignore,
                },
                Frame::Binary | Frame::Pong => Step::Ignore,
                Frame::Close | Frame::Error | Frame::End => self.close(state),
            },
            Phase::Closed => Step::Ignore,
        }
    }

    /// Handles the outcome of parsing a text: `None` where it is no packet;
    /// `middleware_count` is how many middleware the server applies.
    ///
    /// Before the handshake, anything but a handshake packet rejects the
    /// connection; after it, a text that is no packet is dropped.  A packet
    /// passes only if every middleware was applied to it and accepted it.
    /// The middleware run against the socket's registered data, so for a
    /// socket that is not in the registry they cannot run: with no
    /// middleware the packet passes at once, and with some it does not (it
    /// rejects the connection before the handshake and is dropped after it).
    pub fn on_parsed<T>(&mut self, state: &mut AppState<T>, parsed: Option<Packet>, middleware_count: usize) -> (s: Step)
        requires
            old(state).wf(),
        ensures
            final(state).wf(),
            final(self).socket_id == old(self).socket_id,
            final(self).ping_timeout_ms == old(self).ping_timeout_ms,
            s is Rejected ==> final(state).sockets@ == old(state).sockets@.remove(old(self).socket_id@)
                && final(state).channels() == old(state).channels(),
            ({
                let id = old(self).socket_id@;
                let connected = old(state).socket_ids().contains(id);
                match old(self).phase {
                    Phase::AwaitingHandshake => match parsed {
                        Some(p) if p.event == Some(Event::Handshake) && connected => {
                            s == Step::Filter(p) && old(state).unchanged(*final(state))
                                && final(self).phase == Phase::AwaitingHandshake
                        },
                        Some(p) if p.event == Some(Event::Handshake) && middleware_count == 0 => {
                            s matches Step::Opened(out) && out@.len() == 0
                                && old(state).unchanged(*final(state)) && final(self).phase == Phase::Open
                        },
                        _ => s is Rejected && old(state).removed_effect(*final(state), id)
                            && final(self).phase == Phase::Closed,
                    },
                    Phase::Open => final(self).phase == Phase::Open && match parsed {
                        Some(p) if connected => s == Step::Filter(p) && old(state).unchanged(*final(state)),
                        Some(p) if middleware_count == 0 => s matches Step::Deliver(out)
                            && old(state).packet_effect(*final(state), id, p, out@),
                        _ => s is Ignore && old(state).unchanged(*final(state)),
                    },
                    Phase::Closed => s is Ignore && old(state).unchanged(*final(state))
                        && final(self).phase == Phase::Closed,
                }
            }),
    {
        match self.phase {
            Phase::AwaitingHandshake => match parsed {
                Some(p) => {
                    let is_handshake = match &p.event {
                        Some(Event::Handshake) => true,
                        _ => false,
                    };
                    if !is_handshake {
                        self.reject(state)
                    } else if state.is_connected(&self.socket_id) {
                        Step::Filter(p)
                    } else if middleware_count == 0 {
                        self.on_filtered(state, p, true, false)
                    } else {
                        self.reject(state)
                    }
                },
                None => self.reject(state),
            },
            Phase::Open => match parsed {
                Some(p) => {
                    if state.is_connected(&self.socket_id) {
                        Step::Filter(p)
                    } else if middleware_count == 0 {
                        self.on_filtered(state, p, true, false)
                    } else {
                        Step::Ignore
                    }
                },
                None => Step::Ignore,
            },
            Phase::Closed => Step::Ignore,
        }
    }

    /// Handles a packet back from the middleware, with their verdict and
    /// whether the socket is authenticated.
    ///
    /// Before the handshake, a rejected packet rejects the connection and
    /// an accepted one opens it, with the handshake answer; after it, an
    /// accepted packet is handled and a rejected one dropped.
    pub fn on_filtered<T>(&mut self, state: &mut AppState<T>, packet: Packet, accepted: bool, is_authenticated: bool) -> (s: Step)
        requires
            old(state).wf(),
        ensures
            final(state).wf(),
            final(self).socket_id == old(self).socket_id,
            final(self).ping_timeout_ms == old(self).ping_timeout_ms,
            s is Rejected ==> final(state).sockets@ == old(state).sockets@.remove(old(self).socket_id@)
                && final(state).channels() == old(state).channels(),
            ({
                let id = old(self).socket_id@;
                match old(self).phase {
                    Phase::AwaitingHandshake => if accepted {
                        &&& s matches Step::Opened(out) && old(state).handshake_effect(
                            id, packet, old(self).ping_timeout_ms, is_authenticated, out@)
                        &&& old(state).unchanged(*final(state))
                        &&& final(self).phase == Phase::Open
                    } else {
                        s is Rejected && old(state).removed_effect(*final(state), id)
                            && final(self).phase == Phase::Closed
                    },
                    Phase::Open => final(self).phase == Phase::Open && if accepted {
                        s matches Step::Deliver(out) && old(state).packet_effect(*final(state), id, packet, out@)
                    } else {
                        s is Ignore && old(state).unchanged(*final(state))
                    },
                    Phase::Closed => s is Ignore && old(state).unchanged(*final(state))
                        && final(self).phase == Phase::Closed,
                }
            }),
    {
        match self.phase {
            Phase::AwaitingHandshake => {
                if accepted {
                    let out = state.handle_handshake(&self.socket_id, &packet, self.ping_timeout_ms, is_authenticated);
                    self.phase = Phase::Open;
                    Step::Opened(out)
                } else {
                    self.reject(state)
                }
            },
            Phase::Open => {
                if accepted {
                    Step::Deliver(state.handle_packet(&self.socket_id, packet))
                } else {
                    Step::Ignore
                }
            },
            Phase::Closed => Step::Ignore,
        }
    }

    /// Sending a pong frame failed: the connection ends.
    pub fn on_pong_failed<T>(&mut self, state: &mut AppState<T>) -> (s: Step)
        requires
            old(state).wf(),
        ensures
            final(state).wf(),
            final(self).socket_id == old(self).socket_id,
            final(self).ping_timeout_ms == old(self).ping_timeout_ms,
            old(self).phase == Phase::Open ==> {
                &&& s is Closed
                &&& old(state).disconnect_effect(*final(state), old(self).socket_id@)
                &&& final(self).phase == Phase::Closed
            },
            old(self).phase != Phase::Open ==> {
                &&& s is Ignore
                &&& old(state).unchanged(*final(state))
                &&& final(self).phase == old(self).phase
            },
    {
        match self.phase {
            Phase::Open => self.close(state),
            _ => Step::Ignore,
        }
    }
}

} // verus!
