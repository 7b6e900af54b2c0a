use vstd::prelude::*;
use vstd::string::StringExecFns;
use crate::crypto_lib::Key;
use crate::messages::{MessageType, ResponseType, TextMessage, ToServer, ToUser};
use crate::net_lib::error_text;
use crate::state::{
    Conversation, ConversationView, State, StateView, User, UserInfo, added, current_of, entered,
    lists_each_once, numbered,
};
use crate::text::{trim, trimmed};

verus! {

/// A command the user typed.
#[derive(Debug)]
pub enum Command {
    Login,
    Register,
    Connect(String),
    Leave,
    Join(String),
    List,
    /// A command that takes an argument came without one.
    MissingArgument,
    /// Anything else.
    Unknown,
}

/// The command the words `tokens` give: the first word, trimmed, names it;
/// connecting and joining take the second word as their argument.
pub open spec fn command_of(tokens: Seq<String>) -> Command {
    let name = trimmed(tokens[0]@);
    if name == "/login"@ {
        Command::Login
    } else if name == "/register"@ {
        Command::Register
    } else if name == "/connect"@ {
        if tokens.len() > 1 {
            Command::Connect(tokens[1])
        } else {
            Command::MissingArgument
        }
    } else if name == "/leave"@ {
        Command::Leave
    } else if name == "/join"@ {
        if tokens.len() > 1 {
            Command::Join(tokens[1])
        } else {
            Command::MissingArgument
        }
    } else if name == "/list"@ {
        Command::List
    } else {
        Command::Unknown
    }
}

/// Reads the command the words of an input line give.
pub fn parse_command(tokens: &Vec<String>) -> (r: Command)
    requires
        tokens@.len() > 0,
    ensures
        r == command_of(tokens@),
{
    let name = trim(tokens[0].as_str());
    if name == String::from_str("/login") {
        Command::Login
    } else if name == String::from_str("/register") {
        Command::Register
    } else if name == String::from_str("/connect") {
        if tokens.len() > 1 {
            Command::Connect(tokens[1].clone())
        } else {
            Command::MissingArgument
        }
    } else if name == String::from_str("/leave") {
        Command::Leave
    } else if name == String::from_str("/join") {
        if tokens.len() > 1 {
            Command::Join(tokens[1].clone())
        } else {
            Command::MissingArgument
        }
    } else if name == String::from_str("/list") {
        Command::List
    } else {
        Command::Unknown
    }
}

/// The request to log in.
pub fn login_request(username: String, password: String, public_key: Key) -> (r: MessageType)
    ensures
        r == MessageType::Server(ToServer::Login(username, password, public_key)),
{
    MessageType::Server(ToServer::Login(username, password, public_key))
}

/// The request to register.
pub fn register_request(username: String, password: String, public_key: Key) -> (r: MessageType)
    ensures
        r == MessageType::Server(ToServer::Register(username, password, public_key)),
{
    MessageType::Server(ToServer::Register(username, password, public_key))
}

/// The request for a route to, and the address and key of, `user`.
pub fn connect_request(user: String, public_key: Key) -> (r: MessageType)
    ensures
        r == MessageType::Server(ToServer::Connect(user, public_key)),
{
    MessageType::Server(ToServer::Connect(user, public_key))
}

/// Who is logged in after a login or registration that gave `outcome`:
/// the user it gave, or nobody where it failed; the error, if any, is
/// handed back to be shown.
pub fn session_after(outcome: Result<User, String>) -> (r: (Option<User>, Option<String>))
    ensures
        match outcome {
            Ok(u) => r.0 == Some(u) && r.1 is None,
            Err(e) => r.0 is None && r.1 == Some(e),
        },
{
    match outcome {
        Ok(u) => (Some(u), None),
        Err(e) => (None, Some(e)),
    }
}

/// The answer to a login or registration: the user, or the error the
/// server gave, or what went wrong with the reply.
pub open spec fn user_answer(reply: MessageType) -> Result<User, Seq<char>> {
    match reply {
        MessageType::User(ToUser::ServerResponse(ResponseType::User(u))) => Ok(u),
        MessageType::User(ToUser::ServerResponse(ResponseType::Error(e))) => Err(e@),
        MessageType::User(ToUser::ServerResponse(_)) => Err("Something went wrong"@),
        MessageType::User(_) => Err("Reply was not of type ServerResponse"@),
        MessageType::Server(_) => Err("Reply was not of type User"@),
    }
}

/// Reads the server's answer to a login or registration.
pub fn user_reply(reply: MessageType) -> (r: Result<User, String>)
    ensures
        error_text(r) == user_answer(reply),
{
    match reply {
        MessageType::User(res) => match res {
            ToUser::ServerResponse(res) => match res {
                ResponseType::User(u) => Ok(u),
                ResponseType::Error(e) => Err(e),
                _ => Err(String::from_str("Something went wrong")),
            },
            _ => Err(String::from_str("Reply was not of type ServerResponse")),
        },
        _ => Err(String::from_str("Reply was not of type User")),
    }
}

/// Whether `after` is `before` with the conversation `c` with the user
/// `handle` of `ui` opened under the next local number, filed and entered.
pub open spec fn connected(
    before: StateView,
    after: StateView,
    handle: Seq<char>,
    ui: UserInfo,
    c: ConversationView,
) -> bool {
    &&& c.partner.handle@ == handle
    &&& c.partner.addr == ui.addr
    &&& c.partner.public_key == ui.public_key
    &&& c.messages == Seq::<TextMessage>::empty()
    &&& c.new_message_count == 0
    &&& c.priv_id == before.next_priv_id
    &&& after == entered(
        added(numbered(before), c),
        Some(c.id),
    )
}

/// Opens a conversation with `o_user` from what the directory told about
/// them, under a fresh random id and the next local number, and enters it.
/// An error of the lookup is handed on and changes nothing.
pub fn connect(o_user: &str, lookup: Result<UserInfo, String>, state: &mut State) -> (r: Result<
    (),
    String,
>)
    requires
        old(state).wf(),
    ensures
        final(state).wf(),
        match lookup {
            Err(e) => r == Err::<(), String>(e) && final(state)@ == old(state)@,
            Ok(ui) => r is Ok && exists|c: ConversationView|
                #[trigger] connected(old(state)@, final(state)@, o_user@, ui, c),
        },
{
    let ui = match lookup {
        Ok(ui) => ui,
        Err(e) => {
            return Err(e);
        },
    };
    let user = User { handle: String::from_str(o_user), addr: ui.addr, public_key: ui.public_key };
    let conv = state.new_conversation(user);
    let conv_id = conv.get_id();
    let ghost c = conv@;
    state.add_conversation(conv);
    let _ = state.set_current_conversation(Some(conv_id));
    assert(connected(old(state)@, state@, o_user@, ui, c));
    Ok(())
}

/// Leaves the current conversation and lists all conversations.
pub fn leave(state: &mut State) -> (r: Vec<String>)
    requires
        old(state).wf(),
    ensures
        final(state).wf(),
        final(state)@ == entered(old(state)@, None),
        lists_each_once(r@, final(state)@.conversations),
{
    let _ = state.set_current_conversation(None);
    state.list_conversations()
}

/// The lines of a result of joining.
pub open spec fn joined_lines(r: Result<Vec<TextMessage>, &'static str>) -> Result<
    Seq<TextMessage>,
    Seq<char>,
> {
    match r {
        Ok(v) => Ok(v@),
        Err(e) => Err(e@),
    }
}

/// Joins the conversation whose partner is `conv` and hands back its
/// lines; refused where there is no such conversation.
pub fn join(conv: &str, state: &mut State) -> (r: Result<Vec<TextMessage>, &'static str>)
    requires
        old(state).wf(),
    ensures
        final(state).wf(),
        match r {
            Ok(lines) => exists|id: u64|
                #![trigger old(state)@.conversations[id]]
                old(state)@.conversations.contains_key(id) && trimmed(
                    old(state)@.conversations[id].partner.handle@,
                ) == trimmed(conv@) && final(state)@ == entered(old(state)@, Some(id)) && lines@
                    == old(state)@.conversations[id].messages,
            Err(e) => e@ == "invalid conversation id"@ && final(state)@ == old(state)@
                && forall|k: u64|
                #![trigger old(state)@.conversations[k]]
                old(state)@.conversations.contains_key(k) ==> trimmed(
                    old(state)@.conversations[k].partner.handle@,
                ) != trimmed(conv@),
        },
{
    match state.conv_name_to_id(conv) {
        Some(id) => {
            let _ = state.set_current_conversation(Some(id));
            match state.get_message_history() {
                Some(lines) => Ok(lines),
                None => Ok(Vec::new()),
            }
        },
        None => Err("invalid conversation id"),
    }
}

/// Lists all conversations.
pub fn list(state: &State) -> (r: Vec<String>)
    requires
        state.wf(),
    ensures
        lists_each_once(r@, state@.conversations),
{
    state.list_conversations()
}

} // verus!
