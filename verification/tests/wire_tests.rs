use secmsg::net_lib::{frame_length, frame_message, needs_response, server_addr, unframe, next_hop_of, text_of, connection_reply, server_key_reply};
use secmsg::messages::{Message, MessageType, ResponseType, TextMessage, ToServer, ToUser, MessageContainer};
use secmsg::state::{User, UserInfo};
use secmsg::mpmc_queue::MpmcQueue;

#[test]
fn frame_has_little_endian_length_header() {
    let f = frame_message(b"abc").unwrap();
    assert_eq!(f, vec![3, 0, 0, 0, b'a', b'b', b'c']);
    let data = vec![5u8; 300];
    let f = frame_message(&data).unwrap();
    assert_eq!(&f[0..4], &[44, 1, 0, 0]);
    assert_eq!(frame_length(&[44, 1, 0, 0]), 300);
    assert_eq!(frame_length(&[1, 2, 3, 4]), 0x04030201);
}

#[test]
fn unframe_gives_back_the_payload() {
    let data = b"payload".to_vec();
    let mut f = frame_message(&data).unwrap();
    assert_eq!(unframe(&f), Some(data.clone()));
    f.extend_from_slice(b"trailing");
    assert_eq!(unframe(&f), Some(data));
    assert_eq!(unframe(&frame_message(&[]).unwrap()), Some(vec![]));
}

#[test]
fn unframe_refuses_short_buffers() {
    assert_eq!(unframe(&[1, 0, 0]), None);
    assert_eq!(unframe(&[2, 0, 0, 0, 9]), None);
}

#[test]
fn server_address() {
    assert_eq!(server_addr(), "138.197.153.113:5001");
}

fn alice() -> User {
    User::new("alice".to_string(), "1.2.3.4:5000".to_string(), [1u8; 32])
}

#[test]
fn requests_need_responses_and_lines_do_not() {
    let req = MessageType::Server(ToServer::PublicKey([0u8; 32]));
    assert!(needs_response(&req));
    let line = MessageType::User(ToUser::Text(TextMessage { text: "hi".to_string(), sender: alice(), conv_id: 1 }));
    assert!(!needs_response(&line));
}

#[test]
fn text_message_is_shown_with_its_sender() {
    let t = TextMessage { text: "hello there".to_string(), sender: alice(), conv_id: 9 };
    assert_eq!(t.to_string(), "alice: hello there");
}

#[test]
fn incoming_layers_are_delivered_or_forwarded() {
    let mine = Message::innermost(vec![1, 2]);
    assert_eq!(next_hop_of(&mine), None);
    let other = Message { data: vec![], next_hop: Some("9.9.9.9:5000".to_string()) };
    assert_eq!(next_hop_of(&other), Some("9.9.9.9:5000".to_string()));
    let line = MessageType::User(ToUser::Text(TextMessage { text: "x".to_string(), sender: alice(), conv_id: 3 }));
    assert_eq!(text_of(line).map(|t| t.conv_id), Some(3));
    assert!(text_of(MessageType::Server(ToServer::PublicKey([0u8; 32]))).is_none());
}

#[test]
fn connection_reply_variants() {
    let ui = UserInfo { route: vec![("a".to_string(), [0u8; 32])], addr: "a".to_string(), public_key: [4u8; 32] };
    let ok = connection_reply(MessageType::User(ToUser::ServerResponse(ResponseType::Connection(ui))));
    assert_eq!(ok.unwrap().public_key, [4u8; 32]);
    let err = connection_reply(MessageType::User(ToUser::ServerResponse(ResponseType::Error("nope".to_string()))));
    assert_eq!(err.err().unwrap(), "nope");
    let other = connection_reply(MessageType::User(ToUser::ServerResponse(ResponseType::PublicKey([0u8; 32]))));
    assert_eq!(other.err().unwrap(), "Something went wrong");
    let text = connection_reply(MessageType::User(ToUser::Text(TextMessage { text: "x".to_string(), sender: alice(), conv_id: 0 })));
    assert_eq!(text.err().unwrap(), "Reply was not of type ServerResponse");
    let server = connection_reply(MessageType::Server(ToServer::PublicKey([0u8; 32])));
    assert_eq!(server.err().unwrap(), "Reply was not of type User");
}

#[test]
fn server_key_reply_variants() {
    assert_eq!(server_key_reply(MessageType::User(ToUser::ServerResponse(ResponseType::PublicKey([6u8; 32])))), Some([6u8; 32]));
    assert_eq!(server_key_reply(MessageType::User(ToUser::ServerResponse(ResponseType::Error("e".to_string())))), None);
}

#[test]
fn container_keeps_what_it_was_given() {
    let c: MessageContainer<u8> = MessageContainer::new(Message::innermost(vec![7]), Some(3), true);
    assert_eq!(c.msg.data, vec![7]);
    assert_eq!(c.response, Some(3));
    assert!(c.needs_response);
}

#[test]
fn queue_is_first_in_first_out() {
    let mut q: MpmcQueue<u32> = MpmcQueue::new();
    assert!(q.is_empty());
    assert_eq!(q.pop(), None);
    q.push(1);
    q.push(2);
    q.push(3);
    assert_eq!(q.len(), 3);
    assert_eq!(q.pop(), Some(1));
    q.push(4);
    assert_eq!(q.pop(), Some(2));
    assert_eq!(q.pop(), Some(3));
    assert_eq!(q.pop(), Some(4));
    assert_eq!(q.pop(), None);
}
