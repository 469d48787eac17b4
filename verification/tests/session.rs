use chat::client::{Address, Client};
use chat::codec::FrameReader;
use chat::registry::Registry;
use chat::sbmp::{build_frame, ContentType, Frame};
use chat::session::{accept_login, get_message, ConnectionEnd, LoginError};

fn addr(n: u16) -> Address {
    Address { host: 0x0A000001, port: n }
}

fn utf8_frame(payload: &[u8]) -> Frame {
    build_frame(ContentType::UTF8, payload).expect("payload fits")
}

#[test]
fn guest_name_before_login() {
    let client = Client::new(addr(1));
    assert_eq!(client.username().as_slice(), b"Guest");
}

#[test]
fn username_empty_rejected() {
    let mut client = Client::new(addr(1));
    assert!(!client.set_username(b"".to_vec()));
    assert_eq!(client.username().as_slice(), b"Guest");
}

#[test]
fn username_blank_after_trim_rejected() {
    let mut client = Client::new(addr(1));
    assert!(!client.set_username(b"   ".to_vec()));
    assert_eq!(client.username().as_slice(), b"Guest");
}

#[test]
fn username_of_32_bytes_rejected() {
    let mut client = Client::new(addr(1));
    let name = vec![b'x'; 32];
    assert!(!client.set_username(name));
    assert_eq!(client.username().as_slice(), b"Guest");
}

#[test]
fn username_of_31_bytes_accepted() {
    let mut client = Client::new(addr(1));
    let name = vec![b'x'; 31];
    assert!(client.set_username(name.clone()));
    assert_eq!(client.username().as_slice(), name.as_slice());
}

#[test]
fn username_is_trimmed() {
    let mut client = Client::new(addr(1));
    assert!(client.set_username(b"  alice \r\n".to_vec()));
    assert_eq!(client.username().as_slice(), b"alice");
}

#[test]
fn login_binds_trimmed_name() {
    let mut client = Client::new(addr(1));
    assert!(accept_login(&mut client, utf8_frame(b" alice \n")).is_ok());
    assert_eq!(client.username().as_slice(), b"alice");
}

#[test]
fn login_rejects_bad_encoding() {
    let mut client = Client::new(addr(1));
    let r = accept_login(&mut client, utf8_frame(&[0xFFu8, 0x20]));
    assert_eq!(r.unwrap_err(), LoginError::InvalidEncoding);
    assert_eq!(client.username().as_slice(), b"Guest");
}

#[test]
fn login_rejects_blank_and_long_names() {
    let mut client = Client::new(addr(1));
    assert_eq!(
        accept_login(&mut client, utf8_frame(b"  ")).unwrap_err(),
        LoginError::InvalidName
    );
    assert_eq!(
        accept_login(&mut client, utf8_frame(&[b'y'; 40])).unwrap_err(),
        LoginError::InvalidName
    );
}

#[test]
fn message_is_tagged_with_sender() {
    let username = b"alice".to_vec();
    let tagged = get_message(utf8_frame(b"hi"), &username).expect("kept");
    assert_eq!(tagged, b"[alice]:hi".to_vec());
}

#[test]
fn message_text_is_trimmed() {
    let username = b"bob".to_vec();
    let tagged = get_message(utf8_frame(b"  hello \r\n"), &username).expect("kept");
    assert_eq!(tagged, b"[bob]:hello".to_vec());
}

#[test]
fn blank_message_ignored() {
    let username = b"alice".to_vec();
    assert!(get_message(utf8_frame(b"   \n"), &username).is_none());
    assert!(get_message(utf8_frame(b""), &username).is_none());
}

#[test]
fn ill_formed_text_ignored() {
    let username = b"alice".to_vec();
    // A lone continuation byte, a truncated two-byte sequence, an overlong
    // encoding and a surrogate half are all refused.
    assert!(get_message(utf8_frame(&[0x80]), &username).is_none());
    assert!(get_message(utf8_frame(&[0xC3]), &username).is_none());
    assert!(get_message(utf8_frame(&[0xC0, 0xAF]), &username).is_none());
    assert!(get_message(utf8_frame(&[0xED, 0xA0, 0x80]), &username).is_none());
}

#[test]
fn multibyte_text_kept() {
    let username = b"zoe".to_vec();
    // "héllo" with a two-byte e-acute, and a four-byte emoji.
    let tagged = get_message(
        utf8_frame(&[b'h', 0xC3, 0xA9, b'l', b'l', b'o']),
        &username,
    )
    .expect("kept");
    assert_eq!(tagged, vec![b'[', b'z', b'o', b'e', b']', b':', b'h', 0xC3, 0xA9, b'l', b'l', b'o']);
    assert!(get_message(utf8_frame(&[0xF0, 0x9F, 0x98, 0x80]), &username).is_some());
}

#[test]
fn connection_end_outcomes_are_distinct() {
    assert_ne!(ConnectionEnd::Normal, ConnectionEnd::ReceiverDropped);
}

#[test]
fn two_clients_end_to_end() {
    // Client A logs in as alice, client B as bob; A sends "hi"; B's next
    // decoded frame carries "[alice]:hi".  There is no self-exclusion, so A
    // receives its own line too.
    let mut registry = Registry::new();

    let mut alice = Client::new(addr(1));
    assert!(accept_login(&mut alice, utf8_frame(b"alice")).is_ok());
    let alice_name = alice.username().clone();
    assert!(registry.register(alice).is_none());

    let mut bob = Client::new(addr(2));
    assert!(accept_login(&mut bob, utf8_frame(b"bob")).is_ok());
    assert!(registry.register(bob).is_none());

    let line = get_message(utf8_frame(b"hi"), &alice_name).expect("broadcastable");
    registry.broadcast(&line);

    let to_bob = registry.take_outbox(addr(2)).expect("bob is registered");
    let mut reader = FrameReader::new(to_bob);
    let frame = reader.read_frame().expect("one frame queued");
    assert_eq!(frame.get_header().content_type(), ContentType::UTF8);
    assert_eq!(frame.get_payload(), b"[alice]:hi".to_vec());

    let to_alice = registry.take_outbox(addr(1)).expect("alice is registered");
    let mut reader = FrameReader::new(to_alice);
    assert_eq!(
        reader.read_frame().expect("echoed back").get_payload(),
        b"[alice]:hi".to_vec()
    );
}

#[test]
fn disconnect_propagation() {
    // A's transport goes away; after the next sweep the registry no longer
    // holds A, and a later broadcast reaches the remaining client cleanly.
    let mut registry = Registry::new();
    registry.register(Client::new(addr(1)));
    registry.register(Client::new(addr(2)));

    registry.remove(addr(1));
    assert!(!registry.contains(addr(1)));

    registry.broadcast(&b"[bob]:still here".to_vec());
    assert_eq!(registry.len(), 1);
    let bytes = registry.take_outbox(addr(2)).expect("remaining");
    let mut reader = FrameReader::new(bytes);
    assert_eq!(
        reader.read_frame().expect("delivered").get_payload(),
        b"[bob]:still here".to_vec()
    );
}
