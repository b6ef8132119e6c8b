// Client sessions played against the server core: each client sends its
// texts and expects the texts the server sends it, in order.

use socketcluster_server::{
    AppState, Connection, Event, Frame, JsonNumber, JsonValue, MiddlewareRun, Packet, PingAction,
    ServerConfig, Step,
};
use std::collections::VecDeque;
use std::time::Duration;

enum Msg {
    Send(&'static str),
    Expect(&'static str),
}

fn to_json(v: &JsonValue) -> serde_json::Value {
    match v {
        JsonValue::Null => serde_json::Value::Null,
        JsonValue::Bool(b) => serde_json::Value::Bool(*b),
        JsonValue::Number(JsonNumber::PosInt(n)) => serde_json::Value::Number((*n).into()),
        JsonValue::Number(JsonNumber::NegInt(n)) => serde_json::Value::Number((*n).into()),
        JsonValue::Number(JsonNumber::Float(s)) => {
            serde_json::Value::Number(s.parse::<serde_json::Number>().unwrap())
        }
        JsonValue::String(s) => serde_json::Value::String(s.clone()),
        JsonValue::Array(items) => serde_json::Value::Array(items.iter().map(to_json).collect()),
        JsonValue::Object(members) => {
            let mut m = serde_json::Map::new();
            for (k, v) in members {
                m.insert(k.clone(), to_json(v));
            }
            serde_json::Value::Object(m)
        }
    }
}

fn from_json(v: &serde_json::Value) -> JsonValue {
    match v {
        serde_json::Value::Null => JsonValue::Null,
        serde_json::Value::Bool(b) => JsonValue::Bool(*b),
        serde_json::Value::Number(n) => {
            if let Some(u) = n.as_u64() {
                JsonValue::Number(JsonNumber::PosInt(u))
            } else if let Some(i) = n.as_i64() {
                JsonValue::Number(JsonNumber::NegInt(i))
            } else {
                JsonValue::Number(JsonNumber::Float(n.to_string()))
            }
        }
        serde_json::Value::String(s) => JsonValue::String(s.clone()),
        serde_json::Value::Array(items) => JsonValue::Array(items.iter().map(from_json).collect()),
        serde_json::Value::Object(m) => {
            JsonValue::Object(m.iter().map(|(k, v)| (k.clone(), from_json(v))).collect())
        }
    }
}

fn event_name(e: &Event) -> serde_json::Value {
    let name = match e {
        Event::Handshake => "#handshake",
        Event::Subscribe => "#subscribe",
        Event::Publish => "#publish",
        Event::Unsubscribe => "#unsubscribe",
        Event::Authenticate => "#authenticate",
        Event::Disconnect => "#disconnect",
        Event::Custom(c) => {
            let mut m = serde_json::Map::new();
            m.insert("Custom".to_string(), serde_json::Value::String(c.clone()));
            return serde_json::Value::Object(m);
        }
    };
    serde_json::Value::String(name.to_string())
}

fn parse_event(v: &serde_json::Value) -> Option<Event> {
    match v {
        serde_json::Value::String(s) => match s.as_str() {
            "#handshake" => Some(Event::Handshake),
            "#subscribe" => Some(Event::Subscribe),
            "#publish" => Some(Event::Publish),
            "#unsubscribe" => Some(Event::Unsubscribe),
            "#authenticate" => Some(Event::Authenticate),
            "#disconnect" => Some(Event::Disconnect),
            _ => None,
        },
        serde_json::Value::Object(m) if m.len() == 1 => match m.get("Custom") {
            Some(serde_json::Value::String(c)) => Some(Event::Custom(c.clone())),
            _ => None,
        },
        _ => None,
    }
}

fn parse_id(v: Option<&serde_json::Value>) -> Result<Option<u64>, ()> {
    match v {
        None | Some(serde_json::Value::Null) => Ok(None),
        Some(n) => n.as_u64().map(Some).ok_or(()),
    }
}

fn parse_packet(text: &str) -> Option<Packet> {
    let v: serde_json::Value = serde_json::from_str(text).ok()?;
    let m = v.as_object()?;
    let event = match m.get("event") {
        None | Some(serde_json::Value::Null) => None,
        Some(e) => Some(parse_event(e)?),
    };
    let data = match m.get("data") {
        None | Some(serde_json::Value::Null) => None,
        Some(d) => Some(from_json(d)),
    };
    let error = match m.get("error") {
        None | Some(serde_json::Value::Null) => None,
        Some(d) => Some(from_json(d)),
    };
    let cid = parse_id(m.get("cid")).ok()?;
    let rid = parse_id(m.get("rid")).ok()?;
    Some(Packet { event, data, cid, rid, error })
}

fn packet_text(p: &Packet) -> String {
    let mut parts: Vec<String> = Vec::new();
    if let Some(e) = &p.event {
        parts.push(format!("\"event\":{}", event_name(e)));
    }
    if let Some(d) = &p.data {
        parts.push(format!("\"data\":{}", to_json(d)));
    }
    if let Some(c) = p.cid {
        parts.push(format!("\"cid\":{}", c));
    }
    if let Some(r) = p.rid {
        parts.push(format!("\"rid\":{}", r));
    }
    if let Some(e) = &p.error {
        parts.push(format!("\"error\":{}", to_json(e)));
    }
    format!("{{{}}}", parts.join(","))
}

fn test_config() -> ServerConfig {
    ServerConfig {
        ping_interval: Duration::from_millis(1000),
        ping_timeout: Duration::from_secs(10),
        port: 8000,
        host: "localhost".into(),
        jwt_secret: "secret".into(),
    }
}

struct Client {
    id: String,
    conn: Connection,
    script: Vec<Msg>,
    pos: usize,
    inbox: VecDeque<String>,
    done: bool,
}

fn deliver(clients: &mut Vec<Client>, deliveries: Vec<socketcluster_server::Delivery>) {
    for d in deliveries {
        let text = packet_text(&d.packet);
        for r in &d.recipients {
            for c in clients.iter_mut() {
                if &c.id == r {
                    c.inbox.push_back(text.clone());
                }
            }
        }
    }
}

fn feed(state: &mut AppState<()>, clients: &mut Vec<Client>, who: usize, frame: Frame) {
    let mut step = clients[who].conn.on_frame(state, frame);
    loop {
        step = match step {
            Step::Parse(text) => clients[who].conn.on_parsed(state, parse_packet(&text), 0),
            Step::Filter(packet) => {
                let run = MiddlewareRun::new(0);
                assert_eq!(run.next_middleware(), None);
                let passed = run.passed();
                clients[who].conn.on_filtered(state, packet, passed, false)
            }
            Step::Deliver(ds) | Step::Opened(ds) => {
                deliver(clients, ds);
                return;
            }
            _ => return,
        };
    }
}

fn run_multi_client_test(client_messages: Vec<(&str, Vec<Msg>)>) {
    let config = test_config();
    let timeout_ms = config.ping_timeout.as_millis() as u64;
    let timeout_ns = config.ping_timeout.as_nanos();
    let mut state: AppState<()> = socketcluster_server::create_socketcluster_state(config);
    let mut clients: Vec<Client> = Vec::new();
    for (id, script) in client_messages {
        state.insert_socket(id.to_string(), ());
        clients.push(Client {
            id: id.to_string(),
            conn: Connection::new(id.to_string(), timeout_ms),
            script,
            pos: 0,
            inbox: VecDeque::new(),
            done: false,
        });
    }
    loop {
        let mut progress = false;
        for who in 0..clients.len() {
            if clients[who].done {
                continue;
            }
            if clients[who].pos == clients[who].script.len() {
                feed(&mut state, &mut clients, who, Frame::End);
                clients[who].done = true;
                progress = true;
                continue;
            }
            match clients[who].script[clients[who].pos] {
                Msg::Send(text) => {
                    clients[who].pos += 1;
                    feed(&mut state, &mut clients, who, Frame::Text(text.to_string()));
                    progress = true;
                }
                Msg::Expect(expected) => {
                    if let Some(actual) = clients[who].inbox.pop_front() {
                        assert_eq!(expected, actual, "client {} received unexpected message", clients[who].id);
                        clients[who].pos += 1;
                        progress = true;
                    }
                }
            }
        }
        if clients.iter().all(|c| c.done) {
            break;
        }
        if !progress {
            // Every client waits: a ping interval elapses.
            let mut pinged = false;
            for c in clients.iter_mut() {
                if !c.done {
                    if state.ping_socket(&c.id, 1_000_000_000, timeout_ns) == PingAction::SendPing {
                        c.inbox.push_back(socketcluster_server::handlers::ping_text().to_string());
                        pinged = true;
                    }
                }
            }
            assert!(pinged, "clients wait for messages that never come");
        }
    }
    for c in &clients {
        assert!(!state.is_connected(&c.id), "Not all sockets were removed from state after disconnection");
    }
}

#[test]
fn test_handle_socket_handshake_success() {
    run_multi_client_test(vec![(
        "test_socket",
        vec![
            Msg::Send("{\"event\":\"#handshake\",\"data\":{\"authToken\":null},\"cid\":1, \"pingTimeout\":10000}"),
            Msg::Expect("{\"data\":{\"id\":\"test_socket\",\"isAuthenticated\":false,\"pingTimeout\":10000},\"rid\":1}"),
            Msg::Expect("#1"),
            Msg::Send("#2"),
        ],
    )]);
}

#[test]
fn test_multiple_clients_subscribe_and_publish() {
    run_multi_client_test(vec![
        (
            "client1",
            vec![
                Msg::Send("{\"event\":\"#handshake\",\"data\":{\"authToken\":null},\"cid\":1}"),
                Msg::Expect("{\"data\":{\"id\":\"client1\",\"isAuthenticated\":false,\"pingTimeout\":10000},\"rid\":1}"),
                Msg::Send("{\"event\":\"#subscribe\",\"data\":{\"channel\":\"test-channel\"},\"cid\":2}"),
                Msg::Expect("{\"rid\":2}"),
                Msg::Send("{\"event\":\"#publish\",\"data\":{\"channel\":\"test-channel\",\"data\":\"Hello from client1\"},\"cid\":3}"),
                Msg::Expect("{\"event\":\"#publish\",\"data\":\"Hello from client1\"}"),
                Msg::Expect("{\"rid\":3}"),
            ],
        ),
        (
            "client2",
            vec![
                Msg::Send("{\"event\":\"#handshake\",\"data\":{\"authToken\":null},\"cid\":1}"),
                Msg::Expect("{\"data\":{\"id\":\"client2\",\"isAuthenticated\":false,\"pingTimeout\":10000},\"rid\":1}"),
                Msg::Send("{\"event\":\"#subscribe\",\"data\":{\"channel\":\"test-channel\"},\"cid\":2}"),
                Msg::Expect("{\"rid\":2}"),
                Msg::Expect("{\"event\":\"#publish\",\"data\":\"Hello from client1\"}"),
            ],
        ),
    ]);
}

#[test]
fn test_unsubscribe() {
    run_multi_client_test(vec![(
        "client1",
        vec![
            Msg::Send("{\"event\":\"#handshake\",\"data\":{\"authToken\":null},\"cid\":1}"),
            Msg::Expect("{\"data\":{\"id\":\"client1\",\"isAuthenticated\":false,\"pingTimeout\":10000},\"rid\":1}"),
            Msg::Send("{\"event\":\"#subscribe\",\"data\":{\"channel\":\"test-channel\"},\"cid\":2}"),
            Msg::Expect("{\"rid\":2}"),
            Msg::Send("{\"event\":\"#unsubscribe\",\"data\":\"test-channel\",\"cid\":3}"),
            Msg::Expect("{\"rid\":3}"),
            Msg::Send("{\"event\":\"#publish\",\"data\":{\"channel\":\"test-channel\",\"data\":\"Hello\"},\"cid\":4}"),
            Msg::Expect("{\"rid\":4}"),
        ],
    )]);
}

#[test]
fn test_multiple_channels() {
    run_multi_client_test(vec![
        (
            "client1",
            vec![
                Msg::Send("{\"event\":\"#handshake\",\"data\":{\"authToken\":null},\"cid\":1}"),
                Msg::Expect("{\"data\":{\"id\":\"client1\",\"isAuthenticated\":false,\"pingTimeout\":10000},\"rid\":1}"),
                Msg::Send("{\"event\":\"#subscribe\",\"data\":{\"channel\":\"channel1\"},\"cid\":2}"),
                Msg::Expect("{\"rid\":2}"),
                Msg::Send("{\"event\":\"#subscribe\",\"data\":{\"channel\":\"channel2\"},\"cid\":3}"),
                Msg::Expect("{\"rid\":3}"),
                Msg::Send("{\"event\":\"#publish\",\"data\":{\"channel\":\"channel1\",\"data\":\"Hello channel1\"},\"cid\":4}"),
                Msg::Expect("{\"event\":\"#publish\",\"data\":\"Hello channel1\"}"),
                Msg::Expect("{\"rid\":4}"),
                Msg::Send("{\"event\":\"#publish\",\"data\":{\"channel\":\"channel2\",\"data\":\"Hello channel2\"},\"cid\":5}"),
                Msg::Expect("{\"event\":\"#publish\",\"data\":\"Hello channel2\"}"),
                Msg::Expect("{\"rid\":5}"),
            ],
        ),
        (
            "client2",
            vec![
                Msg::Send("{\"event\":\"#handshake\",\"data\":{\"authToken\":null},\"cid\":1}"),
                Msg::Expect("{\"data\":{\"id\":\"client2\",\"isAuthenticated\":false,\"pingTimeout\":10000},\"rid\":1}"),
                Msg::Send("{\"event\":\"#subscribe\",\"data\":{\"channel\":\"channel1\"},\"cid\":2}"),
                Msg::Expect("{\"rid\":2}"),
                Msg::Expect("{\"event\":\"#publish\",\"data\":\"Hello channel1\"}"),
            ],
        ),
    ]);
}

#[test]
fn test_subscribe_unsubscribe_resubscribe() {
    run_multi_client_test(vec![(
        "client1",
        vec![
            Msg::Send("{\"event\":\"#handshake\",\"data\":{\"authToken\":null},\"cid\":1}"),
            Msg::Expect("{\"data\":{\"id\":\"client1\",\"isAuthenticated\":false,\"pingTimeout\":10000},\"rid\":1}"),
            Msg::Send("{\"event\":\"#subscribe\",\"data\":{\"channel\":\"test-channel\"},\"cid\":2}"),
            Msg::Expect("{\"rid\":2}"),
            Msg::Send("{\"event\":\"#publish\",\"data\":{\"channel\":\"test-channel\",\"data\":\"Message 1\"},\"cid\":3}"),
            Msg::Expect("{\"event\":\"#publish\",\"data\":\"Message 1\"}"),
            Msg::Expect("{\"rid\":3}"),
            Msg::Send("{\"event\":\"#unsubscribe\",\"data\":\"test-channel\",\"cid\":4}"),
            Msg::Expect("{\"rid\":4}"),
            Msg::Send("{\"event\":\"#publish\",\"data\":{\"channel\":\"test-channel\",\"data\":\"Message 2\"},\"cid\":5}"),
            Msg::Expect("{\"rid\":5}"),
            Msg::Send("{\"event\":\"#subscribe\",\"data\":{\"channel\":\"test-channel\"},\"cid\":6}"),
            Msg::Expect("{\"rid\":6}"),
            Msg::Send("{\"event\":\"#publish\",\"data\":{\"channel\":\"test-channel\",\"data\":\"Message 3\"},\"cid\":7}"),
            Msg::Expect("{\"event\":\"#publish\",\"data\":\"Message 3\"}"),
            Msg::Expect("{\"rid\":7}"),
        ],
    )]);
}
