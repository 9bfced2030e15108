use bonzo_relay::server::bonzoendpoint::BonzoEndpoint;
use bonzo_relay::server::registry::{Attempt, ConnectionRegistry};
use futures_channel::mpsc::UnboundedReceiver;
use tungstenite::protocol::Message;

fn address(path: &str) -> BonzoEndpoint {
    BonzoEndpoint::parse_resource(path).unwrap()
}

fn text(content: &str) -> Message {
    Message::Text(String::from(content))
}

fn drain(inbox: &mut UnboundedReceiver<Message>) -> Vec<Message> {
    let mut received = Vec::new();
    while let Ok(message) = inbox.try_recv() {
        received.push(message);
    }
    received
}

fn sorted_ids(registry: &ConnectionRegistry, sender: &BonzoEndpoint, exclude: u64) -> Vec<u64> {
    let mut ids: Vec<u64> = registry
        .eligible_peers(sender, exclude)
        .iter()
        .map(|peer| peer.0)
        .collect();
    ids.sort();
    ids
}

#[test]
fn new_registry_is_empty() {
    let registry = ConnectionRegistry::new();
    assert!(!registry.is_registered(0));
    assert!(registry.eligible_peers(&address("/room"), 0).is_empty());
    assert!(registry.broadcast(&address("/room"), 0, &text("x")).is_empty());
}

#[test]
fn register_then_deregister() {
    let mut registry = ConnectionRegistry::new();
    let _inbox = registry.register(7, address("/room"));
    assert!(registry.is_registered(7));
    assert!(!registry.is_registered(8));
    registry.deregister(7);
    assert!(!registry.is_registered(7));
}

#[test]
fn deregister_unknown_connection_changes_nothing() {
    let mut registry = ConnectionRegistry::new();
    let _inbox = registry.register(1, address("/room"));
    registry.deregister(2);
    registry.deregister(2);
    assert!(registry.is_registered(1));
    assert_eq!(sorted_ids(&registry, &address("/room"), 0), vec![1]);
}

#[test]
fn register_again_replaces_address_and_channel() {
    let mut registry = ConnectionRegistry::new();
    let mut old_inbox = registry.register(1, address("/room/alice"));
    let mut new_inbox = registry.register(1, address("/room"));
    let sender = address("/room/bob");
    assert_eq!(sorted_ids(&registry, &sender, 9), vec![1]);
    let attempts = registry.broadcast(&sender, 9, &text("hello"));
    assert_eq!(attempts, vec![Attempt { peer: 1, accepted: true }]);
    assert_eq!(drain(&mut new_inbox), vec![text("hello")]);
    assert!(drain(&mut old_inbox).is_empty());
}

#[test]
fn eligible_peers_follow_the_routing_rule() {
    let mut registry = ConnectionRegistry::new();
    let _a = registry.register(1, address("/room/alice"));
    let _b = registry.register(2, address("/room"));
    let _c = registry.register(3, address("/room/bob"));
    let _d = registry.register(4, address("/other"));
    let _e = registry.register(5, address("/room/alice"));
    assert_eq!(sorted_ids(&registry, &address("/room/alice"), 1), vec![2, 5]);
    assert_eq!(sorted_ids(&registry, &address("/room/bob"), 3), vec![2]);
    assert_eq!(sorted_ids(&registry, &address("/room"), 2), Vec::<u64>::new());
    assert_eq!(sorted_ids(&registry, &address("/room"), 99), vec![2]);
    assert_eq!(sorted_ids(&registry, &address("/other/x"), 99), vec![4]);
    assert_eq!(sorted_ids(&registry, &BonzoEndpoint::empty(), 99), Vec::<u64>::new());
}

#[test]
fn eligible_peers_exclude_the_given_connection() {
    let mut registry = ConnectionRegistry::new();
    let _a = registry.register(1, address("/room"));
    let _b = registry.register(2, address("/room"));
    assert_eq!(sorted_ids(&registry, &address("/room"), 1), vec![2]);
    assert_eq!(sorted_ids(&registry, &address("/room"), 2), vec![1]);
    assert_eq!(sorted_ids(&registry, &address("/room"), 3), vec![1, 2]);
}

#[test]
fn eligible_peers_hand_out_the_channel_of_each_peer() {
    let mut registry = ConnectionRegistry::new();
    let mut first = registry.register(1, address("/room"));
    let mut second = registry.register(2, address("/room"));
    for (id, channel) in registry.eligible_peers(&address("/room"), 0) {
        channel.unbounded_send(text(&format!("for {id}"))).unwrap();
    }
    assert_eq!(drain(&mut first), vec![text("for 1")]);
    assert_eq!(drain(&mut second), vec![text("for 2")]);
}

#[test]
fn broadcast_reaches_both_connections_of_one_address_in_order() {
    let mut registry = ConnectionRegistry::new();
    let mut first = registry.register(1, address("/room"));
    let mut second = registry.register(2, address("/room"));
    let mut elsewhere = registry.register(3, address("/other"));
    let _sender_inbox = registry.register(4, address("/room/alice"));
    let sender = address("/room/alice");
    for content in ["one", "two", "three"] {
        let mut attempts = registry.broadcast(&sender, 4, &text(content));
        attempts.sort_by_key(|attempt| attempt.peer);
        assert_eq!(
            attempts,
            vec![Attempt { peer: 1, accepted: true }, Attempt { peer: 2, accepted: true }]
        );
    }
    let expected = vec![text("one"), text("two"), text("three")];
    assert_eq!(drain(&mut first), expected);
    assert_eq!(drain(&mut second), expected);
    assert!(drain(&mut elsewhere).is_empty());
}

#[test]
fn broadcast_does_not_come_back_to_the_sender() {
    let mut registry = ConnectionRegistry::new();
    let mut own = registry.register(1, address("/room"));
    let mut peer = registry.register(2, address("/room"));
    registry.broadcast(&address("/room"), 1, &text("x"));
    assert!(drain(&mut own).is_empty());
    assert_eq!(drain(&mut peer), vec![text("x")]);
}

#[test]
fn broadcast_passes_every_kind_of_message_unchanged() {
    let mut registry = ConnectionRegistry::new();
    let mut peer = registry.register(1, address("/room"));
    let messages = vec![
        text("{\"time\":1}\0"),
        Message::Binary(vec![0, 159, 146, 150]),
        Message::Ping(vec![1, 2]),
        text(""),
    ];
    for message in &messages {
        registry.broadcast(&address("/room/alice"), 0, message);
    }
    assert_eq!(drain(&mut peer), messages);
}

#[test]
fn deregistered_connection_gets_no_later_message() {
    let mut registry = ConnectionRegistry::new();
    let mut leaving = registry.register(1, address("/room"));
    let mut staying = registry.register(2, address("/room"));
    let sender = address("/room/alice");
    registry.broadcast(&sender, 3, &text("before"));
    registry.deregister(1);
    assert_eq!(sorted_ids(&registry, &sender, 3), vec![2]);
    let attempts = registry.broadcast(&sender, 3, &text("after"));
    assert_eq!(attempts, vec![Attempt { peer: 2, accepted: true }]);
    assert_eq!(drain(&mut leaving), vec![text("before")]);
    assert_eq!(drain(&mut staying), vec![text("before"), text("after")]);
}

#[test]
fn broadcast_goes_on_when_a_channel_refuses() {
    let mut registry = ConnectionRegistry::new();
    let gone = registry.register(1, address("/room"));
    let mut present = registry.register(2, address("/room"));
    drop(gone);
    let mut attempts = registry.broadcast(&address("/room/alice"), 0, &text("x"));
    attempts.sort_by_key(|attempt| attempt.peer);
    assert_eq!(
        attempts,
        vec![Attempt { peer: 1, accepted: false }, Attempt { peer: 2, accepted: true }]
    );
    assert_eq!(drain(&mut present), vec![text("x")]);
}

#[test]
fn many_connections_are_each_reached_once() {
    let mut registry = ConnectionRegistry::new();
    let mut inboxes = Vec::new();
    for id in 0..200u64 {
        inboxes.push(registry.register(id, address("/room")));
    }
    let attempts = registry.broadcast(&address("/room/alice"), 17, &text("x"));
    let mut peers: Vec<u64> = attempts.iter().map(|attempt| attempt.peer).collect();
    peers.sort();
    let expected: Vec<u64> = (0..200u64).filter(|id| *id != 17).collect();
    assert_eq!(peers, expected);
    for (id, inbox) in inboxes.iter_mut().enumerate() {
        let expected = if id == 17 { vec![] } else { vec![text("x")] };
        assert_eq!(drain(inbox), expected);
    }
}

#[test]
fn register_returns_the_other_end_of_the_stored_channel() {
    let mut registry = ConnectionRegistry::new();
    let first = registry.register(1, address("/room"));
    let second = registry.register(2, address("/room"));
    for (id, channel) in registry.eligible_peers(&address("/room"), 0) {
        assert_eq!(channel.is_connected_to(&first), id == 1);
        assert_eq!(channel.is_connected_to(&second), id == 2);
    }
}

#[test]
fn sender_without_room_reaches_nobody() {
    let mut registry = ConnectionRegistry::new();
    let mut lost = registry.register(1, BonzoEndpoint::empty());
    let mut also_lost = registry.register(2, BonzoEndpoint::empty());
    let mut room = registry.register(3, address("/room"));
    let nowhere = BonzoEndpoint::empty();
    assert!(registry.eligible_peers(&nowhere, 1).is_empty());
    assert!(registry.eligible_peers(&nowhere, 99).is_empty());
    assert!(registry.broadcast(&nowhere, 1, &text("x")).is_empty());
    assert!(registry.broadcast(&nowhere, 99, &text("x")).is_empty());
    assert!(drain(&mut lost).is_empty());
    assert!(drain(&mut also_lost).is_empty());
    assert!(drain(&mut room).is_empty());
}

#[test]
fn connection_without_room_gets_nothing() {
    let mut registry = ConnectionRegistry::new();
    let mut lost = registry.register(1, BonzoEndpoint::empty());
    let mut room = registry.register(2, address("/room"));
    for sender in ["/room", "/room/alice", "/other"] {
        let attempts = registry.broadcast(&address(sender), 99, &text("x"));
        assert!(attempts.iter().all(|attempt| attempt.peer != 1));
    }
    assert!(drain(&mut lost).is_empty());
    assert_eq!(drain(&mut room), vec![text("x"), text("x")]);
}
