use std::cell::Cell;
use secmsg::messages::TextMessage;
use secmsg::state::{Conversation, State, User};

fn user(name: &str) -> User {
    User::new(name.to_string(), format!("{}-addr", name), [name.len() as u8; 32])
}

fn line(text: &str, from: &str, conv: u64) -> TextMessage {
    TextMessage { text: text.to_string(), sender: user(from), conv_id: conv }
}

fn drain(state: &mut State) -> Vec<String> {
    let mut it = state.get_new_messages();
    let mut out = Vec::new();
    while let Some(m) = it.next() {
        out.push(m.text);
    }
    out
}

#[test]
fn user_from_addr_pair() {
    let u = User::from_addr_pair("bob".to_string(), &("10.0.0.2:5000".to_string(), [5u8; 32]));
    assert_eq!(u.handle, "bob");
    assert_eq!(u.addr, "10.0.0.2:5000");
    assert_eq!(u.public_key, [5u8; 32]);
}

#[test]
fn conversation_counters() {
    let mut counter: usize = 7;
    let mut c = Conversation::from_id(user("bob"), 42, &mut counter);
    assert_eq!(c.get_id(), 42);
    assert_eq!(c.get_priv_id(), 7);
    assert_eq!(counter, 8);
    assert_eq!(c.new_message_count(), 0);
    c.inc_new_msg_count();
    c.inc_new_msg_count();
    assert_eq!(c.new_message_count(), 2);
    c.set_new_message_count(0);
    assert_eq!(c.new_message_count(), 0);
    assert_eq!(c.get_partner().handle, "bob");
    assert!(c.get_messages().is_empty());
}

#[test]
fn next_id_counts_up_and_wraps() {
    let mut n: usize = 5;
    assert_eq!(Conversation::next_id(&mut n), 5);
    assert_eq!(Conversation::next_id(&mut n), 6);
    assert_eq!(n, 7);
    let mut top = usize::MAX;
    assert_eq!(Conversation::next_id(&mut top), usize::MAX);
    assert_eq!(top, 0);
}

#[test]
fn new_conversation_has_random_id_and_given_number() {
    let mut counter: usize = 3;
    let c = Conversation::new(user("carol"), &mut counter);
    assert_eq!(c.get_priv_id(), 3);
    assert_eq!(counter, 4);
    let d = Conversation::new(user("dan"), &mut counter);
    assert_eq!(d.get_priv_id(), 4);
    assert_eq!(c.new_message_count(), 0);
    assert_eq!(c.get_partner().handle, "carol");
}

#[test]
fn a_line_outside_any_conversation_is_unseen_and_opens_one() {
    let mut s = State::new();
    s.add_new_message(line("hi", "bob", 11));
    assert!(drain(&mut s).is_empty());
    assert!(s.get_current_conversation().is_none());
    assert_eq!(s.conv_name_to_id("bob"), Some(11));
    assert_eq!(s.list_conversations(), vec!["0 [1]: bob".to_string()]);
}

#[test]
fn lines_of_the_current_conversation_are_queued_in_order() {
    let mut s = State::new();
    let mut counter: usize = 0;
    s.add_conversation(Conversation::from_id(user("bob"), 11, &mut counter));
    assert_eq!(s.set_current_conversation(Some(11)), Ok(()));
    s.add_new_message(line("one", "bob", 11));
    s.add_new_message(line("elsewhere", "eve", 12));
    s.add_new_message(line("two", "bob", 11));
    assert_eq!(drain(&mut s), vec!["one".to_string(), "two".to_string()]);
    assert!(drain(&mut s).is_empty());
    let history: Vec<String> = s.get_message_history().unwrap().into_iter().map(|m| m.text).collect();
    assert_eq!(history, vec!["one".to_string(), "two".to_string()]);
    let current = s.get_current_conversation().unwrap();
    assert_eq!(current.get_id(), 11);
    assert_eq!(current.new_message_count(), 2);
}

#[test]
fn entering_a_conversation_marks_its_lines_seen() {
    let mut s = State::new();
    s.add_new_message(line("a", "bob", 5));
    s.add_new_message(line("b", "bob", 5));
    assert_eq!(s.list_conversations(), vec!["0 [2]: bob".to_string()]);
    assert_eq!(s.set_current_conversation(Some(5)), Ok(()));
    assert_eq!(s.get_current_conversation().unwrap().new_message_count(), 0);
    assert_eq!(s.list_conversations(), vec!["0 [0]: bob".to_string()]);
}

#[test]
fn entering_a_missing_conversation_is_refused() {
    let mut s = State::new();
    assert_eq!(s.set_current_conversation(Some(99)), Err("Conversation does not exist."));
    assert!(s.get_current_conversation().is_none());
    assert!(s.get_message_history().is_none());
    assert_eq!(s.set_current_conversation(None), Ok(()));
}

#[test]
fn local_numbers_advance_with_every_line() {
    let mut s = State::new();
    s.add_new_message(line("x", "bob", 1));
    s.add_new_message(line("y", "bob", 1));
    s.add_new_message(line("z", "eve", 2));
    let mut listed = s.list_conversations();
    listed.sort();
    assert_eq!(listed, vec!["0 [2]: bob".to_string(), "2 [1]: eve".to_string()]);
    let c = s.new_conversation(user("fay"));
    assert_eq!(c.get_priv_id(), 3);
    assert_eq!(s.new_conversation(user("gus")).get_priv_id(), 4);
}

#[test]
fn names_are_compared_trimmed() {
    let mut s = State::new();
    let mut counter: usize = 0;
    s.add_conversation(Conversation::from_id(user(" dave "), 77, &mut counter));
    assert_eq!(s.conv_name_to_id("dave"), Some(77));
    assert_eq!(s.conv_name_to_id("  dave\t"), Some(77));
    assert_eq!(s.conv_name_to_id("dav"), None);
}

#[test]
fn routes_are_fetched_once_and_cached() {
    let mut s = State::new();
    let calls = Cell::new(0);
    let fetch = || {
        calls.set(calls.get() + 1);
        Ok(vec![("1.1.1.1:5000".to_string(), [1u8; 32]), ("2.2.2.2:5000".to_string(), [2u8; 32])])
    };
    let r1 = s.get_route("bob", fetch).unwrap();
    assert_eq!(r1.len(), 2);
    let r2 = s.get_route("bob", || -> Result<Vec<(String, [u8; 32])>, String> { panic!("cached route expected") }).unwrap();
    assert_eq!(r1, r2);
    assert_eq!(calls.get(), 1);
    assert_eq!(s.cached_route("bob"), Some(r1));
    assert_eq!(s.cached_route("eve"), None);
}

#[test]
fn route_errors_are_handed_on_and_not_cached() {
    let mut s = State::new();
    let r = s.get_route("eve", || Err("Could not find user eve.".to_string()));
    assert_eq!(r, Err("Could not find user eve.".to_string()));
    assert_eq!(s.cached_route("eve"), None);
}

#[test]
fn a_conversation_opened_by_a_line_gets_an_unused_number() {
    let mut s = State::new();
    let c = s.new_conversation(user("bob"));
    assert_eq!(c.get_priv_id(), 0);
    s.add_conversation(c);
    s.add_new_message(line("hi", "eve", 9));
    let mut listed = s.list_conversations();
    listed.sort();
    assert_eq!(listed.len(), 2);
    let numbers: Vec<char> = listed.iter().map(|l| l.chars().next().unwrap()).collect();
    assert_ne!(numbers[0], numbers[1]);
}
