//! Application state: the registry of connected sockets and of channel
//! subscriptions, with the server configuration.

use vstd::prelude::*;
use crate::collections::{StringMap, StringSet, distinct_strings, string_set};
use crate::config::ServerConfig;

verus! {

/// Socket identifiers are strings.
pub type SocketId = String;

/// Channel names are strings.
pub type Channel = String;

/// `uuid::Uuid::new_v4` written out with `to_string`: a random version-4
/// UUID in its hyphenated lower-case form, which is 36 characters long.
/// Which UUID comes out is chance; nothing else is claimed of it.
#[verifier::external_body]
fn new_socket_id() -> (id: String)
    ensures
        id@.len() == 36,
{
    uuid::Uuid::new_v4().to_string()
}

/// Represents the global application state.
///
/// `T` is what the server keeps for each connected socket (its sender and
/// authentication data, in a running server).
pub struct AppState<T> {
    /// All active socket connections, by socket id.
    pub sockets: StringMap<T>,
    /// For each channel, the ids of the sockets subscribed to it.
    pub subscriptions: StringMap<StringSet>,
    /// Server configuration.
    pub config: ServerConfig,
}

impl<T> AppState<T> {
    /// The registries are well formed.
    pub open spec fn wf(&self) -> bool {
        &&& self.sockets.wf()
        &&& self.subscriptions.wf()
        &&& self.subscriptions.sets_wf()
    }

    /// The ids of the connected sockets.
    pub open spec fn socket_ids(&self) -> Set<Seq<char>> {
        self.sockets@.dom()
    }

    /// Each channel that has been subscribed to, with its subscribers.
    pub open spec fn channels(&self) -> Map<Seq<char>, Set<Seq<char>>> {
        self.subscriptions.set_view()
    }

    /// The subscribers of `channel` (none for a channel never subscribed to).
    pub open spec fn subscribers(&self, channel: Seq<char>) -> Set<Seq<char>> {
        self.subscriptions.set_at(channel)
    }

    /// Creates a new `AppState` with no socket and no subscription.
    pub fn new(config: ServerConfig) -> (s: AppState<T>)
        ensures
            s.wf(),
            s.sockets@ == Map::<Seq<char>, T>::empty(),
            s.channels() == Map::<Seq<char>, Set<Seq<char>>>::empty(),
            s.config == config,
    {
        let s = AppState { sockets: StringMap::new(), subscriptions: StringMap::new(), config };
        assert(s.channels() =~= Map::<Seq<char>, Set<Seq<char>>>::empty());
        s
    }

    /// Registers `data` as the socket `id`, replacing what that id held;
    /// hands back the replaced data.
    pub fn insert_socket(&mut self, id: SocketId, data: T) -> (r: Option<T>)
        requires
            old(self).wf(),
        ensures
            final(self).wf(),
            final(self).sockets@ == old(self).sockets@.insert(id@, data),
            final(self).channels() == old(self).channels(),
            final(self).config == old(self).config,
            match r {
                Some(w) => old(self).sockets@.contains_key(id@) && old(self).sockets@[id@] == w,
                None => !old(self).sockets@.contains_key(id@),
            },
    {
        self.sockets.insert(id, data)
    }

    /// Registers `data` as the socket `id` where that id is free, and hands
    /// the id back; where it is taken, nothing changes and `data` comes back.
    pub fn add_socket_with_id(&mut self, id: SocketId, data: T) -> (r: Result<SocketId, T>)
        requires
            old(self).wf(),
        ensures
            final(self).wf(),
            final(self).channels() == old(self).channels(),
            final(self).config == old(self).config,
            match r {
                Ok(given) => {
                    &&& given == id
                    &&& !old(self).socket_ids().contains(id@)
                    &&& final(self).sockets@ == old(self).sockets@.insert(id@, data)
                },
                Err(d) => {
                    &&& d == data
                    &&& old(self).socket_ids().contains(id@)
                    &&& final(self).sockets@ == old(self).sockets@
                },
            },
    {
        if self.sockets.contains_key(&id) {
            Err(data)
        } else {
            let given = id.clone();
            self.sockets.insert(id, data);
            Ok(given)
        }
    }

    /// Registers `data` under a fresh random socket id and hands out the
    /// id; where the random id is already taken, nothing changes and
    /// `data` comes back (the caller draws again).
    pub fn try_add_socket(&mut self, data: T) -> (r: Result<SocketId, T>)
        requires
            old(self).wf(),
        ensures
            final(self).wf(),
            final(self).channels() == old(self).channels(),
            final(self).config == old(self).config,
            match r {
                Ok(id) => {
                    &&& !old(self).socket_ids().contains(id@)
                    &&& id@.len() == 36
                    &&& final(self).sockets@ == old(self).sockets@.insert(id@, data)
                },
                Err(d) => {
                    &&& d == data
                    &&& final(self).sockets@ == old(self).sockets@
                    &&& exists|k: Seq<char>| old(self).socket_ids().contains(k) && k.len() == 36
                },
            },
    {
        let id = new_socket_id();
        let ghost drawn = id@;
        let r = self.add_socket_with_id(id, data);
        proof {
            if r is Err {
                assert(old(self).socket_ids().contains(drawn) && drawn.len() == 36);
            }
        }
        r
    }

    /// Whether the socket `id` is connected.
    pub fn is_connected(&self, id: &SocketId) -> (r: bool)
        requires
            self.wf(),
        ensures
            r == self.socket_ids().contains(id@),
    {
        self.sockets.contains_key(id)
    }

    /// The data kept for the socket `id`.
    pub fn socket(&self, id: &SocketId) -> (r: Option<&T>)
        requires
            self.wf(),
        ensures
            match r {
                Some(d) => self.sockets@.contains_key(id@) && self.sockets@[id@] == *d,
                None => !self.sockets@.contains_key(id@),
            },
    {
        self.sockets.get(id)
    }

    /// Drops the socket `id` from the socket registry only (its
    /// subscriptions stay); hands back its data.
    pub fn remove_socket(&mut self, id: &SocketId) -> (r: Option<T>)
        requires
            old(self).wf(),
        ensures
            final(self).wf(),
            final(self).sockets@ == old(self).sockets@.remove(id@),
            final(self).channels() == old(self).channels(),
            final(self).config == old(self).config,
            match r {
                Some(w) => old(self).sockets@.contains_key(id@) && old(self).sockets@[id@] == w,
                None => !old(self).sockets@.contains_key(id@),
            },
    {
        self.sockets.remove(id)
    }

    /// Adds the socket `id` to the subscribers of `channel`.
    pub fn subscribe(&mut self, id: SocketId, channel: Channel)
        requires
            old(self).wf(),
        ensures
            final(self).wf(),
            final(self).sockets@ == old(self).sockets@,
            final(self).channels() == old(self).channels().insert(
                channel@,
                old(self).subscribers(channel@).insert(id@),
            ),
            final(self).config == old(self).config,
    {
        self.subscriptions.add_to_set(channel, id);
    }

    /// Removes the socket `id` from the subscribers of `channel`; tells
    /// whether the channel was known.  A known channel stays known, with
    /// one subscriber less.
    pub fn unsubscribe(&mut self, id: &SocketId, channel: &Channel) -> (r: bool)
        requires
            old(self).wf(),
        ensures
            final(self).wf(),
            final(self).sockets@ == old(self).sockets@,
            final(self).config == old(self).config,
            r == old(self).channels().contains_key(channel@),
            r ==> final(self).channels() == old(self).channels().insert(
                channel@,
                old(self).subscribers(channel@).remove(id@),
            ),
            !r ==> final(self).channels() == old(self).channels(),
    {
        self.subscriptions.remove_from_set(channel, id)
    }

    /// The connected subscribers of `channel`, each once; `None` for a
    /// channel never subscribed to.
    pub fn connected_subscribers(&self, channel: &Channel) -> (r: Option<Vec<SocketId>>)
        requires
            self.wf(),
        ensures
            match r {
                Some(v) => {
                    &&& self.channels().contains_key(channel@)
                    &&& distinct_strings(v@)
                    &&& string_set(v@) == self.subscribers(channel@).intersect(self.socket_ids())
                },
                None => !self.channels().contains_key(channel@),
            },
    {
        match self.subscriptions.get(channel) {
            None => None,
            Some(set) => {
                let members = set.as_vec();
                let n = members.len();
                let mut out: Vec<SocketId> = Vec::new();
                let mut i: usize = 0;
                while i < n
                    invariant
                        self.wf(),
                        n == members@.len(),
                        i <= n,
                        distinct_strings(members@),
                        distinct_strings(out@),
                        forall|j: int| 0 <= j < out@.len() ==> #[trigger] self.socket_ids().contains(out@[j]@),
                        string_set(out@) == string_set(members@.take(i as int)).intersect(self.socket_ids()),
                        forall|a: int, b: int| 0 <= a < out@.len() && i <= b < n ==> (#[trigger] out@[a])@ != (#[trigger] members@[b])@,
                    decreases n - i,
                {
                    let ghost before = out@;
                    if self.sockets.contains_key(&members[i]) {
                        out.push(members[i].clone());
                    }
                    proof {
                        let t0 = members@.take(i as int);
                        let t1 = members@.take(i + 1);
                        let ids = self.socket_ids();
                        assert(t1 =~= t0.push(members@[i as int]));
                        assert forall|x: Seq<char>| #[trigger] string_set(out@).contains(x) implies
                            string_set(t1).intersect(ids).contains(x) by {
                            let j = choose|j: int| 0 <= j < out@.len() && out@[j]@ == x;
                            if j < before.len() {
                                assert(out@[j] == before[j]);
                                assert(string_set(before).contains(x));
                                let k = choose|k: int| 0 <= k < t0.len() && t0[k]@ == x;
                                assert(t1[k] == t0[k]);
                            } else {
                                assert(t1[i as int] == members@[i as int]);
                            }
                        }
                        assert forall|x: Seq<char>| #[trigger] string_set(t1).intersect(ids).contains(x)
                            implies string_set(out@).contains(x) by {
                            let k = choose|k: int| 0 <= k < t1.len() && t1[k]@ == x;
                            if k < i {
                                assert(t0[k] == t1[k]);
                                assert(string_set(t0).intersect(ids).contains(x));
                                assert(string_set(before).contains(x));
                                let j = choose|j: int| 0 <= j < before.len() && before[j]@ == x;
                                assert(out@[j] == before[j]);
                            } else {
                                assert(out@[before.len() as int]@ == x);
                            }
                        }
                        assert(string_set(out@) =~= string_set(t1).intersect(ids));
                    }
                    i = i + 1;
                }
                assert(members@.take(n as int) =~= members@);
                assert(self.subscriptions@[channel@]@ == string_set(members@));
                Some(out)
            },
        }
    }

    /// Handles the disconnect of the socket `id`: drops it from the socket
    /// registry and from the subscribers of every channel, and hands back
    /// its data.  No disconnect event reaches the socket: it is looked up
    /// for that only after it has left the registry.
    pub fn handle_disconnect(&mut self, id: &SocketId) -> (r: Option<T>)
        requires
            old(self).wf(),
        ensures
            final(self).wf(),
            final(self).sockets@ == old(self).sockets@.remove(id@),
            final(self).channels() == old(self).channels().map_values(|s: Set<Seq<char>>| s.remove(id@)),
            final(self).config == old(self).config,
            match r {
                Some(w) => old(self).sockets@.contains_key(id@) && old(self).sockets@[id@] == w,
                None => !old(self).sockets@.contains_key(id@),
            },
    {
        let r = self.sockets.remove(id);
        self.subscriptions.remove_from_every_set(id);
        r
    }
}

/// Creates a new `AppState` for the SocketCluster server, with no socket
/// and no subscription.
pub fn create_socketcluster_state<T>(config: ServerConfig) -> (s: AppState<T>)
    ensures
        s.wf(),
        s.sockets@ == Map::<Seq<char>, T>::empty(),
        s.channels() == Map::<Seq<char>, Set<Seq<char>>>::empty(),
        s.config == config,
{
    AppState::new(config)
}

} // verus!
