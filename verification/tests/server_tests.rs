use secmsg::messages::{MessageType, ResponseType, ToServer, ToUser};
use secmsg::server::{
    addr_to_string, create_response, gen_route, generate_route, pub_key_response, KnownUser, PeerAddr,
    Reply, UserDirectory, connect_response, login_response, register_response,
};

fn answer(r: &Reply) -> &ResponseType {
    match &r.body {
        MessageType::User(ToUser::ServerResponse(a)) => a,
        _ => panic!("not a server response"),
    }
}

fn error_text(r: &Reply) -> String {
    match answer(r) {
        ResponseType::Error(e) => e.clone(),
        _ => panic!("not an error"),
    }
}

#[test]
fn register_then_login() {
    let mut users = UserDirectory::new();
    let r = register_response("alice".to_string(), "pw".to_string(), [1u8; 32], &mut users, "1.1.1.1:5000".to_string(), &[9u8; 32]);
    match answer(&r) {
        ResponseType::User(u) => {
            assert_eq!(u.handle, "alice");
            assert_eq!(u.addr, "1.1.1.1:5000");
            assert_eq!(u.public_key, [1u8; 32]);
        }
        _ => panic!("expected the user"),
    }
    assert_eq!(r.route, vec![("1.1.1.1:5000".to_string(), [9u8; 32])]);
    assert_eq!(users.len(), 1);
    let l = login_response("alice".to_string(), "pw".to_string(), &users, "2.2.2.2:5000".to_string(), &[8u8; 32]);
    match answer(&l) {
        ResponseType::User(u) => {
            assert_eq!(u.handle, "alice");
            assert_eq!(u.addr, "2.2.2.2:5000");
            assert_eq!(u.public_key, [1u8; 32]);
        }
        _ => panic!("expected the user"),
    }
    assert_eq!(l.route, vec![("2.2.2.2:5000".to_string(), [8u8; 32])]);
}

#[test]
fn login_errors() {
    let mut users = UserDirectory::new();
    register_response("bob".to_string(), "right".to_string(), [2u8; 32], &mut users, "ip".to_string(), &[0u8; 32]);
    let wrong = login_response("bob".to_string(), "wrong".to_string(), &users, "ip".to_string(), &[0u8; 32]);
    assert_eq!(error_text(&wrong), "Incorrect password.");
    let missing = login_response("carol".to_string(), "x".to_string(), &users, "ip".to_string(), &[0u8; 32]);
    assert_eq!(error_text(&missing), "User does not exist.");
}

#[test]
fn a_handle_is_registered_once() {
    let mut users = UserDirectory::new();
    register_response("bob".to_string(), "a".to_string(), [2u8; 32], &mut users, "ip1".to_string(), &[0u8; 32]);
    let again = register_response("bob".to_string(), "b".to_string(), [3u8; 32], &mut users, "ip2".to_string(), &[0u8; 32]);
    assert_eq!(error_text(&again), "Username already in use.");
    assert_eq!(users.len(), 1);
    assert_eq!(users.get(&"bob".to_string()).unwrap().password, "a");
}

fn directory(n: usize) -> UserDirectory {
    let mut users = UserDirectory::new();
    for i in 0..n {
        users.insert(KnownUser { handle: format!("u{}", i), addr: format!("10.0.0.{}:5000", i), password: "p".to_string(), public_key: [i as u8; 32] });
    }
    users
}

#[test]
fn routes_go_through_up_to_three_users() {
    let dest = ("dest".to_string(), [99u8; 32]);
    let r = generate_route(&directory(5), dest.clone());
    assert_eq!(r.len(), 4);
    assert_eq!(r[0], ("10.0.0.0:5000".to_string(), [0u8; 32]));
    assert_eq!(r[2], ("10.0.0.2:5000".to_string(), [2u8; 32]));
    assert_eq!(r[3], dest);
    assert_eq!(generate_route(&directory(1), dest.clone()).len(), 2);
    assert_eq!(generate_route(&directory(0), dest.clone()), vec![dest]);
}

#[test]
fn connection_answers() {
    let users = directory(4);
    let ok = connect_response("u3".to_string(), &users, gen_route("me", &[1u8; 32]));
    match answer(&ok) {
        ResponseType::Connection(info) => {
            assert_eq!(info.addr, "10.0.0.3:5000");
            assert_eq!(info.public_key, [3u8; 32]);
            assert_eq!(info.route.len(), 4);
            assert_eq!(info.route[3], ("10.0.0.3:5000".to_string(), [3u8; 32]));
        }
        _ => panic!("expected a connection"),
    }
    assert_eq!(ok.route, vec![("me".to_string(), [1u8; 32])]);
    let missing = connect_response("eve".to_string(), &users, vec![]);
    assert_eq!(error_text(&missing), "Could not find user eve.");
}

#[test]
fn requests_are_dispatched() {
    let mut users = UserDirectory::new();
    let reg = MessageType::Server(ToServer::Register("zoe".to_string(), "pw".to_string(), [4u8; 32]));
    let r = create_response(&reg, &mut users, "5.5.5.5:5000".to_string()).unwrap();
    assert!(matches!(answer(&r), ResponseType::User(_)));
    let login = MessageType::Server(ToServer::Login("zoe".to_string(), "pw".to_string(), [4u8; 32]));
    assert!(matches!(answer(&create_response(&login, &mut users, "x".to_string()).unwrap()), ResponseType::User(_)));
    let conn = MessageType::Server(ToServer::Connect("zoe".to_string(), [4u8; 32]));
    assert!(matches!(answer(&create_response(&conn, &mut users, "x".to_string()).unwrap()), ResponseType::Connection(_)));
    let key = MessageType::Server(ToServer::PublicKey([4u8; 32]));
    assert!(create_response(&key, &mut users, "x".to_string()).is_err());
    let line = MessageType::User(ToUser::ServerResponse(ResponseType::PublicKey([0u8; 32])));
    assert!(create_response(&line, &mut users, "x".to_string()).is_err());
}

#[test]
fn public_key_requests() {
    let req = MessageType::Server(ToServer::PublicKey([4u8; 32]));
    let r = pub_key_response(req, [7u8; 32], "6.6.6.6:5000".to_string()).unwrap();
    assert!(matches!(answer(&r), ResponseType::PublicKey(k) if *k == [7u8; 32]));
    assert_eq!(r.route, vec![("6.6.6.6:5000".to_string(), [4u8; 32])]);
    let other = MessageType::Server(ToServer::Connect("a".to_string(), [0u8; 32]));
    assert!(pub_key_response(other, [7u8; 32], "x".to_string()).is_none());
}

#[test]
fn peer_addresses_are_written_with_the_client_port() {
    assert_eq!(addr_to_string(&PeerAddr::V4([192, 168, 0, 17])), "192.168.0.17:5000");
    assert_eq!(addr_to_string(&PeerAddr::V4([0, 0, 0, 0])), "0.0.0.0:5000");
    assert_eq!(addr_to_string(&PeerAddr::V6([0, 1, 65535, 3, 4, 5, 6, 7])), "0.1.65535.3.4.5.6.7:5000");
}
