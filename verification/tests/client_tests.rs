use secmsg::client::{compose_text, is_command, tokenize};
use secmsg::command::{connect, connect_request, join, leave, list, parse_command, session_after, user_reply, login_request, register_request, Command};
use secmsg::crypto_lib::{gen_key_pair, Crypto};
use secmsg::messages::{Message, MessageType, ResponseType, TextMessage, ToServer, ToUser};
use secmsg::state::{Conversation, State, User, UserInfo};
use secmsg::text::decimal_string;

fn words(v: &[&str]) -> Vec<String> {
    v.iter().map(|s| s.to_string()).collect()
}

#[test]
fn commands_start_with_a_slash() {
    assert!(is_command("/login"));
    assert!(!is_command("hello"));
}

#[test]
fn lines_split_at_spaces() {
    assert_eq!(tokenize("/join bob"), words(&["/join", "bob"]));
    assert_eq!(tokenize("/join bob "), words(&["/join", "bob"]));
    assert_eq!(tokenize("a  b"), words(&["a", "", "b"]));
    assert_eq!(tokenize(""), Vec::<String>::new());
    assert_eq!(tokenize(" "), words(&[""]));
    assert_eq!(tokenize("héllo wörld"), words(&["héllo", "wörld"]));
}

#[test]
fn commands_are_read() {
    assert!(matches!(parse_command(&words(&["/login"])), Command::Login));
    assert!(matches!(parse_command(&words(&[" /register "])), Command::Register));
    assert!(matches!(parse_command(&words(&["/connect", "bob"])), Command::Connect(ref b) if b == "bob"));
    assert!(matches!(parse_command(&words(&["/connect"])), Command::MissingArgument));
    assert!(matches!(parse_command(&words(&["/join", "bob"])), Command::Join(ref b) if b == "bob"));
    assert!(matches!(parse_command(&words(&["/leave"])), Command::Leave));
    assert!(matches!(parse_command(&words(&["/list"])), Command::List));
    assert!(matches!(parse_command(&words(&["/dance"])), Command::Unknown));
}

#[test]
fn numbers_in_decimal() {
    assert_eq!(decimal_string(0), "0");
    assert_eq!(decimal_string(7), "7");
    assert_eq!(decimal_string(10), "10");
    assert_eq!(decimal_string(1234567890), "1234567890");
    assert_eq!(decimal_string(u64::MAX), "18446744073709551615");
}

fn bob() -> User {
    User::new("bob".to_string(), "b:5000".to_string(), [2u8; 32])
}

#[test]
fn user_replies() {
    let ok = user_reply(MessageType::User(ToUser::ServerResponse(ResponseType::User(bob()))));
    assert_eq!(ok.unwrap().handle, "bob");
    let err = user_reply(MessageType::User(ToUser::ServerResponse(ResponseType::Error("User does not exist.".to_string()))));
    assert_eq!(err.err().unwrap(), "User does not exist.");
    let odd = user_reply(MessageType::User(ToUser::ServerResponse(ResponseType::PublicKey([0u8; 32]))));
    assert_eq!(odd.err().unwrap(), "Something went wrong");
    let wrong = user_reply(MessageType::Server(ToServer::PublicKey([0u8; 32])));
    assert_eq!(wrong.err().unwrap(), "Reply was not of type User");
    assert!(matches!(login_request("a".to_string(), "b".to_string(), [1u8; 32]), MessageType::Server(ToServer::Login(..))));
    assert!(matches!(register_request("a".to_string(), "b".to_string(), [1u8; 32]), MessageType::Server(ToServer::Register(..))));
}

#[test]
fn sending_needs_a_conversation_and_a_login() {
    let mut s = State::new();
    let me = Some(User::new("me".to_string(), "m".to_string(), [1u8; 32]));
    assert_eq!(compose_text(&s, &me, "hi".to_string()).err(), Some("No current conversation."));
    let mut counter: usize = 0;
    s.add_conversation(Conversation::from_id(bob(), 5, &mut counter));
    s.set_current_conversation(Some(5)).unwrap();
    assert_eq!(compose_text(&s, &None, "hi".to_string()).err(), Some("Not logged in"));
    let (t, partner) = compose_text(&s, &me, "hi".to_string()).unwrap();
    assert_eq!(t.text, "hi");
    assert_eq!(t.conv_id, 5);
    assert_eq!(t.sender.handle, "me");
    assert_eq!(partner.handle, "bob");
}

#[test]
fn connecting_opens_and_enters_a_conversation() {
    let mut s = State::new();
    let info = UserInfo { route: vec![], addr: "b:5000".to_string(), public_key: [2u8; 32] };
    assert_eq!(connect("bob", Ok(info), &mut s), Ok(()));
    let c = s.get_current_conversation().unwrap();
    assert_eq!(c.get_partner().handle, "bob");
    assert_eq!(c.get_partner().addr, "b:5000");
    assert_eq!(c.get_priv_id(), 0);
    assert_eq!(connect("eve", Err("Could not find user eve.".to_string()), &mut s), Err("Could not find user eve.".to_string()));
    assert_eq!(s.get_current_conversation().unwrap().get_partner().handle, "bob");
}

#[test]
fn join_leave_and_list() {
    let mut s = State::new();
    s.add_new_message(TextMessage { text: "hey".to_string(), sender: bob(), conv_id: 8 });
    assert_eq!(list(&s), vec!["0 [1]: bob".to_string()]);
    let lines = join("bob", &mut s).unwrap();
    assert_eq!(lines.len(), 1);
    assert_eq!(lines[0].text, "hey");
    assert_eq!(s.get_current_conversation().unwrap().get_id(), 8);
    assert_eq!(join("nobody", &mut s).err(), Some("invalid conversation id"));
    assert_eq!(leave(&mut s), vec!["0 [0]: bob".to_string()]);
    assert!(s.get_current_conversation().is_none());
}

fn encode(m: &Message) -> Vec<u8> {
    let mut out = m.data.clone();
    match &m.next_hop {
        Some(h) => out.extend_from_slice(h.as_bytes()),
        None => {}
    }
    out
}

#[test]
fn onion_layers_peel_in_route_order() {
    let (s1, p1) = gen_key_pair().unwrap();
    let (s2, p2) = gen_key_pair().unwrap();
    let hop1 = Crypto::new(s1, p1);
    let hop2 = Crypto::new(s2, p2);
    let sender = Crypto::new([5u8; 32], [6u8; 32]);
    let payload = b"{\"body\":1}".to_vec();
    let route = vec![("hop1:5000".to_string(), p1), ("hop2:5000".to_string(), p2)];
    let onion = Message::new(payload.clone(), route, &sender, encode).unwrap();
    assert_eq!(onion.next_hop, Some("hop2:5000".to_string()));
    let inner_encoded = onion.peel(&hop2).unwrap();
    let inner = Message { data: inner_encoded[..inner_encoded.len() - "hop1:5000".len()].to_vec(), next_hop: Some("hop1:5000".to_string()) };
    assert_eq!(encode(&inner), inner_encoded);
    let body = inner.peel(&hop1).unwrap();
    assert_eq!(body, payload);
    assert!(onion.peel(&hop1).is_err());
}

#[test]
fn onion_without_hops_is_the_payload() {
    let sender = Crypto::new([5u8; 32], [6u8; 32]);
    let m = Message::new(vec![1, 2, 3], vec![], &sender, encode).unwrap();
    assert_eq!(m.data, vec![1, 2, 3]);
    assert_eq!(m.next_hop, None);
}

#[test]
fn commands_and_names_are_trimmed_of_unicode_white_space() {
    assert!(matches!(parse_command(&words(&["\u{3000}/list\u{a0}"])), Command::List));
    let mut s = State::new();
    let mut counter: usize = 0;
    s.add_conversation(Conversation::from_id(User::new("\tbob\u{2003}".to_string(), "b".to_string(), [2u8; 32]), 4, &mut counter));
    assert_eq!(secmsg::state::State::conv_name_to_id(&s, " bob\n"), Some(4));
}

#[test]
fn connect_request_and_session_updates() {
    assert!(matches!(connect_request("bob".to_string(), [3u8; 32]), MessageType::Server(ToServer::Connect(ref n, k)) if n == "bob" && k == [3u8; 32]));
    let (who, err) = session_after(Ok(bob()));
    assert_eq!(who.unwrap().handle, "bob");
    assert!(err.is_none());
    let (who, err) = session_after(Err("Incorrect password.".to_string()));
    assert!(who.is_none());
    assert_eq!(err, Some("Incorrect password.".to_string()));
}
