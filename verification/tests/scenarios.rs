use tcptalk::app::{App, Event};
use tcptalk::connection::{Broadcast, ConnEvent, ConnState, Connection, Outbound};
use tcptalk::input_widget::{Key, KeyCode};
use tcptalk::registry::Registry;

fn plain(code: KeyCode) -> Key {
    Key { code, ctrl: false, alt: false }
}

fn connect(registry: &mut Registry, id: u64) -> Connection {
    let mut c = Connection::new(id);
    let out = c.on_event(registry, ConnEvent::Accepted);
    assert_eq!(out.reply, Some("Enter your username: ".to_string()));
    c
}

fn say(c: &mut Connection, registry: &mut Registry, text: &str) -> Outbound {
    c.on_event(registry, ConnEvent::Read(text.as_bytes().to_vec()))
}

/// Writes a broadcast to every recipient but those in `broken`, and drops those.
fn deliver(b: &Broadcast, sender: u64, registry: &mut Registry, broken: &[u64]) -> Vec<(u64, String)> {
    let text = String::from_utf8_lossy(&b.payload).to_string();
    let mut delivered = Vec::new();
    let mut failed = Vec::new();
    let mut ids = registry.recipients(sender, b.include_sender);
    ids.sort();
    for id in ids {
        if broken.contains(&id) {
            failed.push(id);
        } else {
            delivered.push((id, text.clone()));
        }
    }
    registry.prune(&failed);
    delivered
}

#[test]
fn two_clients_exchange_a_line() {
    let mut registry = Registry::new();
    let mut a = connect(&mut registry, 1);
    let mut b = connect(&mut registry, 2);
    let joined = say(&mut a, &mut registry, "alice\n").broadcast.unwrap();
    assert_eq!(deliver(&joined, 1, &mut registry, &[]), vec![(1, "alice has joined the chat\n".to_string())]);
    let joined = say(&mut b, &mut registry, "bob\n").broadcast.unwrap();
    assert_eq!(
        deliver(&joined, 2, &mut registry, &[]),
        vec![(1, "bob has joined the chat\n".to_string()), (2, "bob has joined the chat\n".to_string())]
    );

    let mut app_a = App::new("alice".to_string(), "127.0.0.1".to_string());
    let mut app_b = App::new("bob".to_string(), "127.0.0.1".to_string());
    app_a.handle_event(Event::Input(plain(KeyCode::Char('h'))));
    app_a.handle_event(Event::Input(plain(KeyCode::Char('i'))));
    let line = app_a.handle_event(Event::Input(plain(KeyCode::Enter))).unwrap();
    assert_eq!(line, "hi\n");
    assert_eq!(app_a.messages.len(), 1);
    assert_eq!(app_a.messages[0].author, "alice");
    assert_eq!(app_a.messages[0].content, "hi");

    let relay = say(&mut a, &mut registry, &line).broadcast.unwrap();
    let delivered = deliver(&relay, 1, &mut registry, &[]);
    assert_eq!(delivered, vec![(2, "alice: hi\n".to_string())]);

    app_b.handle_event(Event::ServerMessage(delivered[0].1.clone()));
    assert_eq!(app_b.messages.len(), 1);
    assert_eq!(app_b.messages[0].author, "alice");
    assert_eq!(app_b.messages[0].content, "hi");
    assert_eq!(app_a.messages.len(), 1);
}

#[test]
fn third_client_retries_after_a_taken_name() {
    let mut registry = Registry::new();
    let mut a = connect(&mut registry, 1);
    let mut b = connect(&mut registry, 2);
    say(&mut a, &mut registry, "alice\n");
    say(&mut b, &mut registry, "bob\n");

    let mut c = connect(&mut registry, 3);
    let out = say(&mut c, &mut registry, "alice\n");
    assert_eq!(
        out.reply,
        Some("Username is already taken. Please choose another.\nEnter your username: ".to_string())
    );
    assert!(out.broadcast.is_none());
    assert!(matches!(c.state, ConnState::Handshaking));
    assert_eq!(registry.len(), 2);

    let out = say(&mut c, &mut registry, "alice2\n");
    assert!(out.reply.is_none());
    assert!(matches!(&c.state, ConnState::Active { username } if username == "alice2"));
    let joined = out.broadcast.unwrap();
    let delivered = deliver(&joined, 3, &mut registry, &[]);
    let text = "alice2 has joined the chat\n".to_string();
    assert_eq!(delivered, vec![(1, text.clone()), (2, text.clone()), (3, text)]);
}

#[test]
fn a_broken_peer_is_dropped_and_the_others_still_served() {
    let mut registry = Registry::new();
    let mut conns = Vec::new();
    let names = ["alice", "bob", "carol", "dave"];
    for (i, name) in names.iter().enumerate() {
        let mut c = connect(&mut registry, i as u64 + 1);
        say(&mut c, &mut registry, name);
        conns.push(c);
    }
    let relay = say(&mut conns[0], &mut registry, "hello\n").broadcast.unwrap();
    let delivered = deliver(&relay, 1, &mut registry, &[3]);
    assert_eq!(
        delivered,
        vec![(2, "alice: hello\n".to_string()), (4, "alice: hello\n".to_string())]
    );
    assert!(!registry.contains(3));
    assert!(registry.contains(1) && registry.contains(2) && registry.contains(4));
    assert_eq!(registry.validate("carol"), Ok("carol".to_string()));
}

#[test]
fn a_leaving_client_is_announced_to_the_others_only() {
    let mut registry = Registry::new();
    let mut a = connect(&mut registry, 1);
    let mut b = connect(&mut registry, 2);
    say(&mut a, &mut registry, "alice\n");
    say(&mut b, &mut registry, "bob\n");
    let bye = say(&mut a, &mut registry, "").broadcast.unwrap();
    assert_eq!(deliver(&bye, 1, &mut registry, &[]), vec![(2, "alice has left the chat\n".to_string())]);
    a.on_event(&mut registry, ConnEvent::Delivered);
    assert!(a.is_closed());
    assert_eq!(registry.len(), 1);
    assert_eq!(registry.validate("alice"), Ok("alice".to_string()));
}
