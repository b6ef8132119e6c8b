//! Data models of the protocol: events, JSON payloads and packets.

use vstd::prelude::*;

verus! {

/// Represents different types of events in the WebSocket communication.
#[derive(Debug)]
pub enum Event {
    /// Handshake event for establishing a connection (`#handshake`).
    Handshake,
    /// Subscribe event for joining a channel (`#subscribe`).
    Subscribe,
    /// Publish event for sending a message to a channel (`#publish`).
    Publish,
    /// Unsubscribe event for leaving a channel (`#unsubscribe`).
    Unsubscribe,
    /// Authenticate event for user authentication (`#authenticate`);
    /// the server does not act on it.
    Authenticate,
    /// Disconnect event for closing the connection (`#disconnect`).
    Disconnect,
    /// Custom event for application-specific purposes.
    Custom(String),
}

impl Event {
    /// Two events are equal when they are the same variant and, for
    /// custom events, carry the same name.
    pub open spec fn same_event(&self, other: &Event) -> bool {
        match (self, other) {
            (Event::Handshake, Event::Handshake) => true,
            (Event::Subscribe, Event::Subscribe) => true,
            (Event::Publish, Event::Publish) => true,
            (Event::Unsubscribe, Event::Unsubscribe) => true,
            (Event::Authenticate, Event::Authenticate) => true,
            (Event::Disconnect, Event::Disconnect) => true,
            (Event::Custom(a), Event::Custom(b)) => a@ == b@,
            _ => false,
        }
    }
}

impl Clone for Event {
    fn clone(&self) -> (r: Event)
        ensures
            r == *self,
    {
        match self {
            Event::Handshake => Event::Handshake,
            Event::Subscribe => Event::Subscribe,
            Event::Publish => Event::Publish,
            Event::Unsubscribe => Event::Unsubscribe,
            Event::Authenticate => Event::Authenticate,
            Event::Disconnect => Event::Disconnect,
            Event::Custom(c) => Event::Custom(c.clone()),
        }
    }
}

impl PartialEq for Event {
    fn eq(&self, other: &Self) -> (r: bool) {
        match (self, other) {
            (Event::Handshake, Event::Handshake) => true,
            (Event::Subscribe, Event::Subscribe) => true,
            (Event::Publish, Event::Publish) => true,
            (Event::Unsubscribe, Event::Unsubscribe) => true,
            (Event::Authenticate, Event::Authenticate) => true,
            (Event::Disconnect, Event::Disconnect) => true,
            (Event::Custom(a), Event::Custom(b)) => a.eq(b),
            _ => false,
        }
    }
}

impl vstd::std_specs::cmp::PartialEqSpecImpl for Event {
    open spec fn obeys_eq_spec() -> bool {
        true
    }

    open spec fn eq_spec(&self, other: &Event) -> bool {
        self.same_event(other)
    }
}

/// A JSON number as the protocol carries it: a non-negative integer, a
/// negative integer, or a floating-point number kept in its decimal text.
#[derive(Debug, PartialEq)]
pub enum JsonNumber {
    /// An integer `>= 0`.
    PosInt(u64),
    /// An integer `< 0`.
    NegInt(i64),
    /// Any other number, in the shortest decimal text that reads back to it.
    Float(String),
}

impl Clone for JsonNumber {
    fn clone(&self) -> (r: JsonNumber)
        ensures
            r == *self,
    {
        match self {
            JsonNumber::PosInt(n) => JsonNumber::PosInt(*n),
            JsonNumber::NegInt(n) => JsonNumber::NegInt(*n),
            JsonNumber::Float(t) => JsonNumber::Float(t.clone()),
        }
    }
}

/// A JSON value.  Objects keep their members in order; a lookup by key
/// finds the first member with that key.
#[derive(Debug, PartialEq)]
pub enum JsonValue {
    Null,
    Bool(bool),
    Number(JsonNumber),
    String(String),
    Array(Vec<JsonValue>),
    Object(Vec<(String, JsonValue)>),
}

/// A JSON value as a mathematical value: strings by their characters,
/// arrays and objects by the values of their elements and members.
pub ghost enum JsonView {
    Null,
    Bool(bool),
    Number(JsonNumber),
    String(Seq<char>),
    Array(Seq<JsonView>),
    Object(Seq<(Seq<char>, JsonView)>),
}

/// The mathematical value of `v`.
pub open spec fn json_view(v: JsonValue) -> JsonView
    decreases v,
{
    match v {
        JsonValue::Null => JsonView::Null,
        JsonValue::Bool(b) => JsonView::Bool(b),
        JsonValue::Number(n) => JsonView::Number(n),
        JsonValue::String(t) => JsonView::String(t@),
        JsonValue::Array(items) => {
            proof {
                broadcast use vstd::std_specs::vec::axiom_vec_decreases_to_view;
                assert(decreases_to!(v => items@));
            }
            JsonView::Array(items_view(items@))
        },
        JsonValue::Object(members) => {
            proof {
                broadcast use vstd::std_specs::vec::axiom_vec_decreases_to_view;
                assert(decreases_to!(v => members@));
            }
            JsonView::Object(members_view(members@))
        },
    }
}

/// The mathematical values of the elements of `s`, in order.
pub open spec fn items_view(s: Seq<JsonValue>) -> Seq<JsonView>
    decreases s,
{
    if s.len() == 0 {
        Seq::empty()
    } else {
        proof {
            assert(decreases_to!(s => s[s.len() - 1]));
            assert(decreases_to!(s => s.subrange(0, s.len() - 1)));
        }
        items_view(s.subrange(0, s.len() - 1)).push(json_view(s[s.len() - 1]))
    }
}

/// The keys and the mathematical values of the members `s`, in order.
pub open spec fn members_view(s: Seq<(String, JsonValue)>) -> Seq<(Seq<char>, JsonView)>
    decreases s,
{
    if s.len() == 0 {
        Seq::empty()
    } else {
        proof {
            assert(decreases_to!(s => s[s.len() - 1]));
            assert(decreases_to!(s[s.len() - 1] => s[s.len() - 1].1));
            assert(decreases_to!(s => s.subrange(0, s.len() - 1)));
        }
        members_view(s.subrange(0, s.len() - 1)).push((s[s.len() - 1].0@, json_view(s[s.len() - 1].1)))
    }
}

/// The mathematical value of an optional JSON value.
pub open spec fn optional_json_view(v: Option<JsonValue>) -> Option<JsonView> {
    match v {
        Some(j) => Some(json_view(j)),
        None => None,
    }
}

impl Clone for JsonValue {
    /// A copy: the same JSON value.
    fn clone(&self) -> (r: JsonValue)
        ensures
            json_view(r) == json_view(*self),
        decreases self,
    {
        match self {
            JsonValue::Null => JsonValue::Null,
            JsonValue::Bool(b) => JsonValue::Bool(*b),
            JsonValue::Number(n) => JsonValue::Number(n.clone()),
            JsonValue::String(s) => JsonValue::String(s.clone()),
            JsonValue::Array(items) => {
                let mut out: Vec<JsonValue> = Vec::new();
                let n = items.len();
                let mut i: usize = 0;
                assert(items_view(out@) =~= items_view(items@.take(0)));
                while i < n
                    invariant
                        n == items@.len(),
                        *self == JsonValue::Array(*items),
                        i <= n,
                        items_view(out@) == items_view(items@.take(i as int)),
                    decreases n - i,
                {
                    proof {
                        broadcast use vstd::std_specs::vec::axiom_vec_decreases_to_view;
                        assert(decreases_to!(*self => self->Array_0));
                        assert(self->Array_0 == *items);
                        assert(decreases_to!(*items => items@));
                        assert(decreases_to!(items@ => items@[i as int]));
                        assert(decreases_to!(*self => items@[i as int]));
                    }
                    let ghost before = out@;
                    let value = items[i].clone();
                    out.push(value);
                    proof {
                        let next = items@.take(i + 1);
                        assert(out@.subrange(0, out@.len() - 1) =~= before);
                        assert(next.subrange(0, next.len() - 1) =~= items@.take(i as int));
                        assert(next[next.len() - 1] == items@[i as int]);
                        assert(items_view(out@) == items_view(before).push(json_view(value)));
                        assert(items_view(next) == items_view(items@.take(i as int)).push(json_view(items@[i as int])));
                    }
                    i = i + 1;
                }
                assert(items@.take(n as int) =~= items@);
                JsonValue::Array(out)
            },
            JsonValue::Object(members) => {
                let mut out: Vec<(String, JsonValue)> = Vec::new();
                let n = members.len();
                let mut i: usize = 0;
                assert(members_view(out@) =~= members_view(members@.take(0)));
                while i < n
                    invariant
                        n == members@.len(),
                        *self == JsonValue::Object(*members),
                        i <= n,
                        members_view(out@) == members_view(members@.take(i as int)),
                    decreases n - i,
                {
                    proof {
                        broadcast use vstd::std_specs::vec::axiom_vec_decreases_to_view;
                        assert(decreases_to!(*self => self->Object_0));
                        assert(self->Object_0 == *members);
                        assert(decreases_to!(*members => members@));
                        assert(decreases_to!(members@ => members@[i as int]));
                        assert(decreases_to!(members@[i as int] => members@[i as int].1));
                        assert(decreases_to!(*self => members@[i as int].1));
                    }
                    let ghost before = out@;
                    let key = members[i].0.clone();
                    let value = members[i].1.clone();
                    out.push((key, value));
                    proof {
                        let next = members@.take(i + 1);
                        assert(out@.subrange(0, out@.len() - 1) =~= before);
                        assert(next.subrange(0, next.len() - 1) =~= members@.take(i as int));
                        assert(next[next.len() - 1] == members@[i as int]);
                        assert(members_view(out@) == members_view(before).push((key@, json_view(value))));
                        assert(members_view(next) == members_view(members@.take(i as int)).push(
                            (members@[i as int].0@, json_view(members@[i as int].1))));
                    }
                    i = i + 1;
                }
                assert(members@.take(n as int) =~= members@);
                JsonValue::Object(out)
            },
        }
    }
}

/// The value of the first member of `members` whose key is `key`.
pub open spec fn member_value(members: Seq<(String, JsonValue)>, key: Seq<char>) -> Option<JsonValue>
    decreases members.len(),
{
    if members.len() == 0 {
        None
    } else if members[0].0@ == key {
        Some(members[0].1)
    } else {
        member_value(members.drop_first(), key)
    }
}

impl JsonValue {
    /// What `value[key]` reads: the member `key` of an object, nothing for
    /// any other kind of value.
    pub open spec fn field(self, key: Seq<char>) -> Option<JsonValue> {
        match self {
            JsonValue::Object(members) => member_value(members@, key),
            _ => None,
        }
    }

    /// Whether this value is a JSON string with the characters `s`.
    pub open spec fn is_string_value(self, s: Seq<char>) -> bool {
        self matches JsonValue::String(t) && t@ == s
    }

    /// Looks up the member `key` of an object; `None` for a missing member
    /// and for values that are not objects.
    pub fn get(&self, key: &str) -> (r: Option<&JsonValue>)
        ensures
            match r {
                Some(v) => self.field(key@) == Some(*v),
                None => self.field(key@) is None,
            },
    {
        match self {
            JsonValue::Object(members) => {
                let n = members.len();
                let mut i: usize = 0;
                assert(members@.skip(0) =~= members@);
                while i < n
                    invariant
                        n == members@.len(),
                        i <= n,
                        self.field(key@) == member_value(members@, key@),
                        member_value(members@, key@) == member_value(members@.skip(i as int), key@),
                    decreases n - i,
                {
                    assert(members@.skip(i as int).drop_first() =~= members@.skip(i + 1));
                    assert(members@.skip(i as int)[0] == members@[i as int]);
                    if string_eq_str(&members[i].0, key) {
                        assert(member_value(members@.skip(i as int), key@) == Some(members@[i as int].1));
                        return Some(&members[i].1);
                    }
                    i = i + 1;
                }
                None
            },
            _ => None,
        }
    }

    /// Consumes an object and hands out the value of its member `key`;
    /// `None` for a missing member and for values that are not objects.
    pub fn into_field(self, key: &str) -> (r: Option<JsonValue>)
        ensures
            r == self.field(key@),
    {
        match self {
            JsonValue::Object(members) => {
                let ghost all = members@;
                let mut members = members;
                let n = members.len();
                let mut i: usize = 0;
                assert(all.skip(0) =~= all);
                while i < n
                    invariant
                        n == members@.len(),
                        members@ == all,
                        i <= n,
                        self.field(key@) == member_value(all, key@),
                        member_value(all, key@) == member_value(all.skip(i as int), key@),
                    decreases n - i,
                {
                    assert(all.skip(i as int).drop_first() =~= all.skip(i + 1));
                    assert(all.skip(i as int)[0] == all[i as int]);
                    if string_eq_str(&members[i].0, key) {
                        assert(member_value(all.skip(i as int), key@) == Some(all[i as int].1));
                        let (_, v) = members.remove(i);
                        return Some(v);
                    }
                    i = i + 1;
                }
                None
            },
            _ => None,
        }
    }
}

/// Whether the string `s` holds exactly the characters of `t`.
pub fn string_eq_str(s: &String, t: &str) -> (r: bool)
    ensures
        r == (s@ == t@),
{
    let a = s.as_str();
    let n = a.unicode_len();
    let m = t.unicode_len();
    if n != m {
        return false;
    }
    let mut i: usize = 0;
    while i < n
        invariant
            n == a@.len(),
            n == t@.len(),
            a@ == s@,
            i <= n,
            forall|j: int| 0 <= j < i ==> a@[j] == t@[j],
        decreases n - i,
    {
        if a.get_char(i) != t.get_char(i) {
            return false;
        }
        i = i + 1;
    }
    assert(a@ =~= t@);
    true
}

/// Represents a packet of data exchanged in the WebSocket communication.
#[derive(Debug, PartialEq)]
pub struct Packet {
    /// The type of event associated with this packet.
    pub event: Option<Event>,
    /// The main payload of the packet.
    pub data: Option<JsonValue>,
    /// Client-generated ID for the packet.
    pub cid: Option<u64>,
    /// Server-generated ID for the response packet. Should match the `cid` of the request packet.
    pub rid: Option<u64>,
    /// Error information, if any.
    pub error: Option<JsonValue>,
}

impl Packet {
    /// The packet with no field set.
    pub open spec fn empty() -> Packet {
        Packet { event: None, data: None, cid: None, rid: None, error: None }
    }

    /// The answer to a request with client id `cid`: only `rid` is set, to `cid`.
    pub open spec fn reply_to(cid: Option<u64>) -> Packet {
        Packet { rid: cid, ..Packet::empty() }
    }
}

impl Clone for Packet {
    fn clone(&self) -> (r: Packet)
        ensures
            r.event == self.event,
            optional_json_view(r.data) == optional_json_view(self.data),
            r.cid == self.cid,
            r.rid == self.rid,
            optional_json_view(r.error) == optional_json_view(self.error),
    {
        Packet {
            event: match &self.event {
                Some(e) => Some(e.clone()),
                None => None,
            },
            data: match &self.data {
                Some(d) => Some(d.clone()),
                None => None,
            },
            cid: self.cid,
            rid: self.rid,
            error: match &self.error {
                Some(d) => Some(d.clone()),
                None => None,
            },
        }
    }
}

impl Default for Packet {
    fn default() -> (p: Packet)
        ensures
            p == Packet::empty(),
    {
        Packet { event: None, data: None, cid: None, rid: None, error: None }
    }
}

} // verus!
