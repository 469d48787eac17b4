use chat::client::{Address, Client};
use chat::codec::FrameReader;
use chat::registry::{Message, Registry};
use chat::sbmp::ContentType;

fn addr(n: u16) -> Address {
    Address { host: 0x7F000001, port: n }
}

fn decode_all(bytes: Vec<u8>) -> Vec<Vec<u8>> {
    let mut reader = FrameReader::new(bytes);
    let mut out = Vec::new();
    while let Ok(frame) = reader.read_frame() {
        assert_eq!(frame.get_header().content_type(), ContentType::UTF8);
        out.push(frame.get_payload());
    }
    out
}

#[test]
fn duplicate_address_rejected() {
    let mut registry = Registry::new();
    assert!(registry.register(Client::new(addr(1))).is_none());
    assert_eq!(registry.len(), 1);

    // The second registration at the same address is refused; the first
    // stays, and the size stays one.
    let rejected = registry.register(Client::new(addr(1))).expect("rejected");
    assert_eq!(registry.len(), 1);
    assert!(registry.contains(addr(1)));

    // The rejected client got the notice, framed, and was never inserted.
    let notices = decode_all(rejected.outbox().clone());
    assert_eq!(notices, vec![b"address already registered".to_vec()]);
}

#[test]
fn distinct_addresses_both_registered() {
    let mut registry = Registry::new();
    assert!(registry.register(Client::new(addr(1))).is_none());
    assert!(registry.register(Client::new(addr(2))).is_none());
    assert_eq!(registry.len(), 2);
    assert_eq!(registry.addresses(), vec![addr(1), addr(2)]);
}

#[test]
fn broadcast_reaches_every_client() {
    let mut registry = Registry::new();
    registry.register(Client::new(addr(1)));
    registry.register(Client::new(addr(2)));
    registry.broadcast(&b"hello room".to_vec());

    for port in [1, 2] {
        let bytes = registry.take_outbox(addr(port)).expect("registered");
        assert_eq!(decode_all(bytes), vec![b"hello room".to_vec()]);
    }
}

#[test]
fn broadcast_removes_failing_writers() {
    // Five clients, two of whose transports are gone: after the sweep the
    // registry holds exactly the three writable ones, each with the message.
    let mut registry = Registry::new();
    for port in 1..=5 {
        registry.register(Client::new(addr(port)));
    }
    registry.mark_closed(addr(2));
    registry.mark_closed(addr(4));

    registry.broadcast(&b"still here?".to_vec());
    assert_eq!(registry.len(), 3);
    assert!(!registry.contains(addr(2)));
    assert!(!registry.contains(addr(4)));
    for port in [1, 3, 5] {
        let bytes = registry.take_outbox(addr(port)).expect("survivor");
        assert_eq!(decode_all(bytes), vec![b"still here?".to_vec()]);
    }
}

#[test]
fn failure_does_not_stop_later_deliveries() {
    let mut registry = Registry::new();
    registry.register(Client::new(addr(1)));
    registry.register(Client::new(addr(2)));
    registry.mark_closed(addr(1));

    registry.broadcast(&b"onward".to_vec());
    assert_eq!(registry.len(), 1);
    let bytes = registry.take_outbox(addr(2)).expect("survivor");
    assert_eq!(decode_all(bytes), vec![b"onward".to_vec()]);
}

#[test]
fn drop_is_idempotent() {
    let mut registry = Registry::new();
    registry.register(Client::new(addr(1)));
    registry.register(Client::new(addr(2)));

    registry.remove(addr(1));
    assert_eq!(registry.len(), 1);
    assert!(!registry.contains(addr(1)));
    registry.remove(addr(1));
    assert_eq!(registry.len(), 1);

    // A later broadcast still reaches the remaining client without error.
    registry.broadcast(&b"who is left".to_vec());
    assert_eq!(registry.len(), 1);
    let bytes = registry.take_outbox(addr(2)).expect("remaining");
    assert_eq!(decode_all(bytes), vec![b"who is left".to_vec()]);
}

#[test]
fn apply_dispatches_messages() {
    let mut registry = Registry::new();
    assert!(registry.apply(Message::NewClient(Client::new(addr(1)))).is_none());
    assert!(registry.apply(Message::NewClient(Client::new(addr(2)))).is_none());
    let rejected = registry.apply(Message::NewClient(Client::new(addr(1))));
    assert!(rejected.is_some());
    assert_eq!(registry.len(), 2);

    assert!(registry.apply(Message::Broadcast(b"all".to_vec())).is_none());
    assert!(registry.apply(Message::Drop(addr(1))).is_none());
    assert_eq!(registry.len(), 1);
    let bytes = registry.take_outbox(addr(2)).expect("registered");
    assert_eq!(decode_all(bytes), vec![b"all".to_vec()]);
}

#[test]
fn closed_client_write_fails() {
    let mut client = Client::new(addr(9));
    client.close();
    assert!(client.write(b"anyone?").is_err());
    assert!(client.outbox().is_empty());
}
