use vstd::prelude::*;
use std::collections::HashMap;
use crate::crypto_lib::Key;
use crate::messages::TextMessage;
use crate::mpmc_queue::MpmcQueue;
use crate::text::{decimal, decimal_string, trim, trimmed};
use vstd::string::StringExecFns;
use vstd::std_specs::hash::spec_hash_map_iter;
use vstd::std_specs::iter::IteratorSpec;

verus! {

broadcast use vstd::std_specs::hash::group_hash_axioms;

/// A network address and the public key of whoever listens there.
pub type AddrPair = (String, Key);

/// Hops of an onion route; the message is sealed for the first hop first,
/// so the last hop is the outermost layer.
pub type Route = Vec<AddrPair>;

/// A user as the others see them.
#[derive(Debug)]
pub struct User {
    pub handle: String,
    pub addr: String,
    pub public_key: Key,
}

impl Clone for User {
    fn clone(&self) -> (r: Self)
        ensures
            r == *self,
    {
        User { handle: self.handle.clone(), addr: self.addr.clone(), public_key: self.public_key }
    }
}

impl User {
    pub fn new(handle: String, addr: String, key: Key) -> (r: User)
        ensures
            r == (User { handle: handle, addr: addr, public_key: key }),
    {
        User { handle: handle, addr: addr, public_key: key }
    }

    /// The user `handle` reached at the address and key of `pair`.
    pub fn from_addr_pair(handle: String, pair: &AddrPair) -> (r: User)
        ensures
            r.handle@ == handle@,
            r.addr@ == pair.0@,
            r.public_key == pair.1,
    {
        User { handle: handle, addr: pair.0.clone(), public_key: pair.1 }
    }
}

/// What the directory tells about a user one wants to reach: a route to
/// them, their address and their public key.
#[derive(Debug)]
pub struct UserInfo {
    pub route: Route,
    pub addr: String,
    pub public_key: Key,
}

/// A copy of a route, hop for hop.
pub fn copy_route(route: &Route) -> (r: Route)
    ensures
        r@ == route@,
{
    let mut r: Route = Vec::new();
    let mut i: usize = 0;
    while i < route.len()
        invariant
            i <= route@.len(),
            r@ == route@.subrange(0, i as int),
        decreases route@.len() - i,
    {
        let hop: AddrPair = (route[i].0.clone(), route[i].1);
        r.push(hop);
        i = i + 1;
        assert(route@.subrange(0, i as int) == route@.subrange(0, i - 1) + seq![route@[i - 1]]);
    }
    assert(route@.subrange(0, route@.len() as int) == route@);
    r
}

/// A copy of a list of chat lines.
pub fn copy_messages(msgs: &Vec<TextMessage>) -> (r: Vec<TextMessage>)
    ensures
        r@ == msgs@,
{
    let mut r: Vec<TextMessage> = Vec::new();
    let mut i: usize = 0;
    while i < msgs.len()
        invariant
            i <= msgs@.len(),
            r@ == msgs@.subrange(0, i as int),
        decreases msgs@.len() - i,
    {
        r.push(msgs[i].clone());
        i = i + 1;
        assert(msgs@.subrange(0, i as int) == msgs@.subrange(0, i - 1) + seq![msgs@[i - 1]]);
    }
    assert(msgs@.subrange(0, msgs@.len() as int) == msgs@);
    r
}

/// The abstract content of a conversation.
pub struct ConversationView {
    pub partner: User,
    pub messages: Seq<TextMessage>,
    pub new_message_count: usize,
    pub id: u64,
    pub priv_id: usize,
}

/// A conversation with one partner: its lines, how many of them are new,
/// its id shared with the partner and a local number to refer to it by.
pub struct Conversation {
    partner: User,
    messages: Vec<TextMessage>,
    new_message_count: usize,
    id: u64,
    priv_id: usize,
}

impl View for Conversation {
    type V = ConversationView;

    closed spec fn view(&self) -> ConversationView {
        ConversationView {
            partner: self.partner,
            messages: self.messages@,
            new_message_count: self.new_message_count,
            id: self.id,
            priv_id: self.priv_id,
        }
    }
}

impl Clone for Conversation {
    fn clone(&self) -> (r: Self)
        ensures
            r@ == self@,
    {
        Conversation {
            partner: self.partner.clone(),
            messages: copy_messages(&self.messages),
            new_message_count: self.new_message_count,
            id: self.id,
            priv_id: self.priv_id,
        }
    }
}

/// Calls `rand::random::<u64>()`. The number is random: nothing is claimed.
#[verifier::external_body]
fn random_u64() -> u64 {
    rand::random::<u64>()
}

/// The counter after one step of `fetch_add(1)`: it wraps at the top.
pub open spec fn counter_step(n: usize) -> usize {
    if n == usize::MAX {
        0
    } else {
        (n + 1) as usize
    }
}

impl Conversation {
    /// A new conversation with `user` under a random shared id; its local
    /// number is drawn from `counter`.
    pub fn new(user: User, counter: &mut usize) -> (r: Conversation)
        ensures
            r@.partner == user,
            r@.messages == Seq::<TextMessage>::empty(),
            r@.new_message_count == 0,
            r@.priv_id == *old(counter),
            *final(counter) == counter_step(*old(counter)),
    {
        let priv_id = Conversation::next_id(counter);
        Conversation {
            partner: user,
            messages: Vec::new(),
            new_message_count: 0,
            id: random_u64(),
            priv_id: priv_id,
        }
    }

    /// A new conversation with `user` under the shared id `id`; its local
    /// number is drawn from `counter`.
    pub fn from_id(user: User, id: u64, counter: &mut usize) -> (r: Conversation)
        ensures
            r@ == (ConversationView {
                partner: user,
                messages: Seq::<TextMessage>::empty(),
                new_message_count: 0,
                id: id,
                priv_id: *old(counter),
            }),
            *final(counter) == counter_step(*old(counter)),
    {
        let priv_id = Conversation::next_id(counter);
        Conversation {
            partner: user,
            messages: Vec::new(),
            new_message_count: 0,
            id: id,
            priv_id: priv_id,
        }
    }

    /// Hands out the counter's value and advances it, wrapping at the top.
    pub fn next_id(counter: &mut usize) -> (r: usize)
        ensures
            r == *old(counter),
            *final(counter) == counter_step(*old(counter)),
    {
        let n = *counter;
        *counter = n.wrapping_add(1);
        n
    }

    pub fn get_id(&self) -> (r: u64)
        ensures
            r == self@.id,
    {
        self.id
    }

    pub fn get_priv_id(&self) -> (r: usize)
        ensures
            r == self@.priv_id,
    {
        self.priv_id
    }

    pub fn new_message_count(&self) -> (r: usize)
        ensures
            r == self@.new_message_count,
    {
        self.new_message_count
    }

    pub fn inc_new_msg_count(&mut self)
        requires
            old(self)@.new_message_count < usize::MAX,
        ensures
            final(self)@ == (ConversationView {
                new_message_count: (old(self)@.new_message_count + 1) as usize,
                ..old(self)@
            }),
    {
        self.new_message_count = self.new_message_count + 1;
    }

    pub fn set_new_message_count(&mut self, count: usize)
        ensures
            final(self)@ == (ConversationView { new_message_count: count, ..old(self)@ }),
    {
        self.new_message_count = count;
    }

    pub fn get_partner(&self) -> (r: &User)
        ensures
            *r == self@.partner,
    {
        &self.partner
    }

    /// The lines of the conversation, oldest first.
    pub fn get_messages(&self) -> (r: &Vec<TextMessage>)
        ensures
            r@ == self@.messages,
    {
        &self.messages
    }
}

} // verus!
verus! {

/// The route cache as a map from user names to routes.
pub open spec fn routes_map(entries: Seq<(String, Route)>) -> Map<Seq<char>, Seq<AddrPair>>
    decreases entries.len(),
{
    if entries.len() == 0 {
        Map::empty()
    } else {
        routes_map(entries.drop_last()).insert(entries.last().0@, entries.last().1@)
    }
}

/// No user name occurs twice in the route cache.
pub open spec fn distinct_names(entries: Seq<(String, Route)>) -> bool {
    forall|i: int, j: int|
        0 <= i < j < entries.len() ==> #[trigger] entries[i].0@ != #[trigger] entries[j].0@
}

proof fn lemma_routes_map(entries: Seq<(String, Route)>, name: Seq<char>)
    requires
        distinct_names(entries),
    ensures
        routes_map(entries).contains_key(name) <==> exists|i: int|
            0 <= i < entries.len() && #[trigger] entries[i].0@ == name,
        forall|i: int|
            0 <= i < entries.len() && #[trigger] entries[i].0@ == name ==> routes_map(entries)[name]
                == entries[i].1@,
    decreases entries.len(),
{
    if entries.len() > 0 {
        let init = entries.drop_last();
        assert(distinct_names(init)) by {
            assert forall|i: int, j: int| 0 <= i < j < init.len() implies #[trigger] init[i].0@
                != #[trigger] init[j].0@ by {
                assert(init[i] == entries[i]);
                assert(init[j] == entries[j]);
            }
        }
        lemma_routes_map(init, name);
        let n = entries.len() - 1;
        if entries[n].0@ != name {
            assert forall|i: int| 0 <= i < entries.len() && #[trigger] entries[i].0@ == name implies 0
                <= i < init.len() && init[i].0@ == name by {
                assert(i != n);
                assert(init[i] == entries[i]);
            }
            if routes_map(entries).contains_key(name) {
                let i = choose|i: int| 0 <= i < init.len() && #[trigger] init[i].0@ == name;
                assert(entries[i] == init[i]);
            }
        } else {
            assert forall|i: int| 0 <= i < entries.len() && #[trigger] entries[i].0@ == name implies i
                == n by {
                if i < n {
                    assert(entries[i].0@ != entries[n].0@);
                }
            }
        }
    }
}

/// The abstract content of a client's state.
#[verifier::ext_equal]
pub struct StateView {
    /// Conversations by their shared id.
    pub conversations: Map<u64, ConversationView>,
    /// The conversation the user is in, if any.
    pub current_conversation: Option<u64>,
    /// Lines that arrived outside the current conversation.
    pub unseen_message_count: u32,
    /// Lines of the current conversation not yet shown, oldest first.
    pub pending: Seq<TextMessage>,
    /// Routes already asked for, by user name.
    pub routes: Map<Seq<char>, Seq<AddrPair>>,
    /// The next local conversation number.
    pub next_priv_id: usize,
    /// Whether every local number in use is below the next one: true until
    /// the counter wraps, or a conversation numbered elsewhere is filed.
    pub numbers_fresh: bool,
}

/// The client's state: its conversations, where the user is, what is new.
pub struct State {
    conversations: HashMap<u64, Conversation>,
    current_conversation: Option<u64>,
    unseen_message_count: u32,
    channel: MpmcQueue<TextMessage>,
    users: Vec<(String, Route)>,
    next_priv_id: usize,
    numbers_fresh: Ghost<bool>,
}

/// The views of a map of conversations.
pub open spec fn conversation_views(m: Map<u64, Conversation>) -> Map<u64, ConversationView> {
    m.map_values(|c: Conversation| c@)
}

/// The conversation the user is in, if it exists.
pub open spec fn current_of(s: StateView) -> Option<ConversationView> {
    match s.current_conversation {
        Some(id) => if s.conversations.contains_key(id) {
            Some(s.conversations[id])
        } else {
            None
        },
        None => None,
    }
}

/// The state after a line arrived: it is queued for display where its
/// conversation is the current one and counted as unseen otherwise; it
/// joins its conversation, opened with the sender under the next local
/// number where it did not exist, and counts there as new; the local
/// number advances either way.
pub open spec fn delivered(s: StateView, msg: TextMessage) -> StateView {
    let here = s.current_conversation == Some(msg.conv_id);
    StateView {
        conversations: s.conversations.insert(
            msg.conv_id,
            received(
                if s.conversations.contains_key(msg.conv_id) {
                    s.conversations[msg.conv_id]
                } else {
                    ConversationView {
                        partner: msg.sender,
                        messages: Seq::empty(),
                        new_message_count: 0,
                        id: msg.conv_id,
                        priv_id: s.next_priv_id,
                    }
                },
                msg,
            ),
        ),
        unseen_message_count: if here {
            s.unseen_message_count
        } else {
            (s.unseen_message_count + 1) as u32
        },
        pending: if here {
            s.pending.push(msg)
        } else {
            s.pending
        },
        ..numbered(s)
    }
}

/// The state after a local number was drawn: the counter advances, and the
/// numbers stay fresh unless it wrapped.
pub open spec fn numbered(s: StateView) -> StateView {
    StateView {
        next_priv_id: counter_step(s.next_priv_id),
        numbers_fresh: s.numbers_fresh && s.next_priv_id < usize::MAX,
        ..s
    }
}

/// The state after `c` is filed under its id; the numbers stay fresh where
/// its local number is below the next one.
pub open spec fn added(s: StateView, c: ConversationView) -> StateView {
    StateView {
        conversations: s.conversations.insert(c.id, c),
        numbers_fresh: s.numbers_fresh && c.priv_id < s.next_priv_id,
        ..s
    }
}

/// The state after entering `conv`, or none: an existing conversation
/// entered has all its lines marked seen.
pub open spec fn entered(s: StateView, conv: Option<u64>) -> StateView {
    StateView {
        current_conversation: conv,
        conversations: match conv {
            Some(id) => if s.conversations.contains_key(id) {
                s.conversations.insert(
                    id,
                    ConversationView { new_message_count: 0, ..s.conversations[id] },
                )
            } else {
                s.conversations
            },
            None => s.conversations,
        },
        ..s
    }
}

/// A conversation after a line arrived in it.
pub open spec fn received(c: ConversationView, msg: TextMessage) -> ConversationView {
    ConversationView {
        messages: c.messages.push(msg),
        new_message_count: (c.new_message_count + 1) as usize,
        ..c
    }
}

/// How a conversation is listed: its local number, its count of new lines
/// in brackets, and the partner's handle.
pub open spec fn listing(c: ConversationView) -> Seq<char> {
    decimal(c.priv_id as nat) + " ["@ + decimal(c.new_message_count as nat) + "]: "@
        + c.partner.handle@
}

/// Whether `lines` lists the conversations of `convs` in the order of
/// `keys`, which holds each of their ids once.
pub open spec fn listed_in_order(
    lines: Seq<String>,
    convs: Map<u64, ConversationView>,
    keys: Seq<u64>,
) -> bool {
    &&& keys.len() == lines.len()
    &&& keys.no_duplicates()
    &&& keys.to_set() == convs.dom()
    &&& forall|i: int| 0 <= i < keys.len() ==> #[trigger] lines[i]@ == listing(convs[keys[i]])
}

/// Whether `lines` holds one listing line per conversation of `convs`, in
/// some order.
pub open spec fn lists_each_once(lines: Seq<String>, convs: Map<u64, ConversationView>) -> bool {
    exists|keys: Seq<u64>| #[trigger] listed_in_order(lines, convs, keys)
}

/// The listing line of a conversation.
pub fn listing_of(c: &Conversation) -> (r: String)
    ensures
        r@ == listing(c@),
{
    let mut s = decimal_string(c.priv_id as u64);
    s.append(" [");
    let n = decimal_string(c.new_message_count as u64);
    s.append(n.as_str());
    s.append("]: ");
    s.append(c.partner.handle.as_str());
    s
}

/// The views of an optional conversation.
pub open spec fn view_of(c: Option<Conversation>) -> Option<ConversationView> {
    match c {
        Some(c) => Some(c@),
        None => None,
    }
}

/// The lines of an optional list.
pub open spec fn lines_of(v: Option<Vec<TextMessage>>) -> Option<Seq<TextMessage>> {
    match v {
        Some(v) => Some(v@),
        None => None,
    }
}

/// The routes of a route lookup.
pub open spec fn route_result(r: Result<Route, String>) -> Result<Seq<AddrPair>, Seq<char>> {
    match r {
        Ok(v) => Ok(v@),
        Err(e) => Err(e@),
    }
}

impl View for State {
    type V = StateView;

    closed spec fn view(&self) -> StateView {
        StateView {
            conversations: conversation_views(self.conversations@),
            current_conversation: self.current_conversation,
            unseen_message_count: self.unseen_message_count,
            pending: self.channel@,
            routes: routes_map(self.users@),
            next_priv_id: self.next_priv_id,
            numbers_fresh: self.numbers_fresh@,
        }
    }
}

impl State {
    /// Each conversation is filed under its own id, the route cache holds
    /// each name once, and while the numbers are fresh every local number
    /// in use is below the next one.
    pub closed spec fn wf(self) -> bool {
        &&& forall|k: u64| #[trigger]
            self.conversations@.contains_key(k) ==> self.conversations@[k]@.id == k
        &&& distinct_names(self.users@)
        &&& self.numbers_fresh@ ==> forall|k: u64| #[trigger]
            self.conversations@.contains_key(k) ==> self.conversations@[k]@.priv_id
                < self.next_priv_id
    }

    pub fn new() -> (r: State)
        ensures
            r.wf(),
            r@.conversations == Map::<u64, ConversationView>::empty(),
            r@.current_conversation is None,
            r@.unseen_message_count == 0,
            r@.pending == Seq::<TextMessage>::empty(),
            r@.routes == Map::<Seq<char>, Seq<AddrPair>>::empty(),
            r@.next_priv_id == 0,
            r@.numbers_fresh,
    {
        let r = State {
            conversations: HashMap::new(),
            current_conversation: None,
            unseen_message_count: 0,
            channel: MpmcQueue::new(),
            users: Vec::new(),
            next_priv_id: 0,
            numbers_fresh: Ghost(true),
        };
        assert(conversation_views(r.conversations@) =~= Map::<u64, ConversationView>::empty());
        r
    }

    /// Hands over the lines waiting to be shown, oldest first, and empties
    /// the queue.
    pub fn get_new_messages(&mut self) -> (r: NewMessagesIter)
        requires
            old(self).wf(),
        ensures
            final(self).wf(),
            r@ == old(self)@.pending,
            final(self)@ == (StateView { pending: Seq::empty(), ..old(self)@ }),
    {
        let mut taken: MpmcQueue<TextMessage> = MpmcQueue::new();
        std::mem::swap(&mut taken, &mut self.channel);
        NewMessagesIter { items: taken }
    }

    /// A copy of the conversation the user is in, if it exists.
    pub fn get_current_conversation(&self) -> (r: Option<Conversation>)
        requires
            self.wf(),
        ensures
            view_of(r) == current_of(self@),
    {
        match self.current_conversation {
            Some(u) => match self.conversations.get(&u) {
                Some(c) => Some(c.clone()),
                None => None,
            },
            None => None,
        }
    }

    /// Files a conversation under its id, replacing any filed there.
    pub fn add_conversation(&mut self, conv: Conversation)
        requires
            old(self).wf(),
        ensures
            final(self).wf(),
            final(self)@ == added(old(self)@, conv@),
    {
        let ghost before = self.conversations@;
        let id = conv.get_id();
        proof {
            self.numbers_fresh = Ghost(self.numbers_fresh@ && conv@.priv_id < self.next_priv_id);
        }
        self.conversations.insert(id, conv);
        proof {
            assert(conversation_views(self.conversations@) =~= conversation_views(before).insert(
                id,
                conv@,
            ));
        }
    }

    /// The lines of the conversation the user is in, if it exists.
    pub fn get_message_history(&self) -> (r: Option<Vec<TextMessage>>)
        requires
            self.wf(),
        ensures
            lines_of(r) == match current_of(self@) {
                Some(c) => Some(c.messages),
                None => None::<Seq<TextMessage>>,
            },
    {
        match self.current_conversation {
            Some(curr) => match self.conversations.get(&curr) {
                Some(c) => Some(copy_messages(&c.messages)),
                None => None,
            },
            None => None,
        }
    }

    /// Enters the conversation `conv`, or none. Entering one marks all its
    /// lines as seen; entering one that does not exist is refused, though
    /// the user is then in it all the same.
    pub fn set_current_conversation(&mut self, conv: Option<u64>) -> (r: Result<(), &'static str>)
        requires
            old(self).wf(),
        ensures
            final(self).wf(),
            final(self)@ == entered(old(self)@, conv),
            r is Ok <==> match conv {
                Some(id) => old(self)@.conversations.contains_key(id),
                None => true,
            },
            r matches Err(e) ==> e@ == "Conversation does not exist."@,
    {
        self.current_conversation = conv;
        match conv {
            None => Ok(()),
            Some(new_conv) => {
                let ghost before = self.conversations@;
                match self.conversations.remove(&new_conv) {
                    Some(mut c) => {
                        c.set_new_message_count(0);
                        self.conversations.insert(new_conv, c);
                        proof {
                            assert(conversation_views(self.conversations@) =~= conversation_views(
                                before,
                            ).insert(new_conv, c@));
                        }
                        Ok(())
                    },
                    None => {
                        proof {
                            assert(self.conversations@ =~= before);
                        }
                        Err("Conversation does not exist.")
                    },
                }
            },
        }
    }

    /// One line per conversation, as `listing` shows it, in the map's
    /// own order.
    pub fn list_conversations(&self) -> (r: Vec<String>)
        requires
            self.wf(),
        ensures
            lists_each_once(r@, self@.conversations),
    {
        let mut r: Vec<String> = Vec::new();
        let ghost m = self.conversations@;
        let ghost v = spec_hash_map_iter(&self.conversations).remaining();
        proof {
            assert(v.len() == m.dom().len());
        }
        for kv in it: self.conversations.iter()
            invariant
                m == self.conversations@,
                v == spec_hash_map_iter(&self.conversations).remaining(),
                v.no_duplicates(),
                it.seq() == v,
                r@.len() == it.index(),
                forall|i: int|
                    0 <= i < it.index() ==> #[trigger] r@[i]@ == listing(
                        (*v[i].1)@,
                    ),
        {
            let c = kv.1;
            r.push(listing_of(c));
        }
        proof {
            let views = self@.conversations;
            assert(views.dom() =~= m.dom());
            assert(r@.len() == v.len());
            let keys = Seq::new(v.len(), |i: int| *v[i].0);
            assert forall|i: int| 0 <= i < keys.len() implies m.contains_key(keys[i]) && m[keys[i]]
                == *v[i].1 by {
            }
            assert forall|i: int, j: int|
                0 <= i < keys.len() && 0 <= j < keys.len() && i != j implies keys[i] != keys[j] by {
                if keys[i] == keys[j] {
                    assert(v[i] == v[j]);
                }
            }
            assert forall|k: u64| #[trigger] keys.to_set().contains(k) <==> views.dom().contains(k) by {
                if views.dom().contains(k) {
                    assert(v.contains((&k, &m[k])));
                    let i = choose|i: int| 0 <= i < v.len() && v[i] == (&k, &m[k]);
                    assert(keys[i] == k);
                }
                if keys.to_set().contains(k) {
                    let i = choose|i: int| 0 <= i < keys.len() && keys[i] == k;
                    assert(m.contains_key(keys[i]));
                }
            }
            assert(keys.to_set() =~= views.dom());
            assert forall|i: int| 0 <= i < keys.len() implies #[trigger] r@[i]@ == listing(
                views[keys[i]],
            ) by {
                assert(views[keys[i]] == m[keys[i]]@);
            }
            assert(listed_in_order(r@, views, keys));
        }
        r
    }

    /// The id of a conversation whose partner's handle, trimmed, is `name`
    /// trimmed; `None` where there is none.
    pub fn conv_name_to_id(&self, name: &str) -> (r: Option<u64>)
        requires
            self.wf(),
        ensures
            r matches Some(id) ==> self@.conversations.contains_key(id) && trimmed(
                self@.conversations[id].partner.handle@,
            ) == trimmed(name@),
            r is None ==> forall|k: u64|
                #![trigger self@.conversations[k]]
                self@.conversations.contains_key(k) ==> trimmed(
                    self@.conversations[k].partner.handle@,
                ) != trimmed(name@),
    {
        let target = trim(name);
        let ghost m = self.conversations@;
        let ghost v = spec_hash_map_iter(&self.conversations).remaining();
        for kv in it: self.conversations.iter()
            invariant
                self.wf(),
                m == self.conversations@,
                v == spec_hash_map_iter(&self.conversations).remaining(),
                it.seq() == v,
                target@ == trimmed(name@),
                forall|j: int|
                    0 <= j < it.index() ==> trimmed((*v[j].1).partner.handle@) != target@,
        {
            let c = kv.1;
            let handle = trim(c.get_partner().handle.as_str());
            if handle == target {
                let id = c.get_id();
                proof {
                    let j = it.index();
                    assert(m.contains_key(*v[j].0) && m[*v[j].0] == *v[j].1);
                    assert(id == *v[j].0);
                }
                return Some(id);
            }
        }
        proof {
            assert forall|k: u64|
                #![trigger self@.conversations[k]]
                self@.conversations.contains_key(k) implies trimmed(
                    self@.conversations[k].partner.handle@,
                ) != trimmed(name@) by {
                assert(m.contains_key(k));
                assert(v.contains((&k, &m[k])));
                let i = choose|i: int| 0 <= i < v.len() && v[i] == (&k, &m[k]);
                assert(trimmed((*v[i].1).partner.handle@) != target@);
            }
        }
        None
    }

    /// A new conversation with `user` under a random shared id, numbered
    /// from this state's counter; while the numbers are fresh, its number
    /// is used by no conversation of the state.
    pub fn new_conversation(&mut self, user: User) -> (r: Conversation)
        requires
            old(self).wf(),
        ensures
            final(self).wf(),
            r@.partner == user,
            r@.messages == Seq::<TextMessage>::empty(),
            r@.new_message_count == 0,
            r@.priv_id == old(self)@.next_priv_id,
            final(self)@ == numbered(old(self)@),
            old(self)@.numbers_fresh ==> forall|k: u64|
                #![trigger old(self)@.conversations[k]]
                old(self)@.conversations.contains_key(k) ==> old(self)@.conversations[k].priv_id
                    != r@.priv_id,
    {
        let ghost before = self.conversations@;
        let r = Conversation::new(user, &mut self.next_priv_id);
        proof {
            self.numbers_fresh = Ghost(self.numbers_fresh@ && r@.priv_id < usize::MAX);
            assert forall|k: u64| #[trigger]
                before.contains_key(k) && self.numbers_fresh@ implies before[k]@.priv_id
                < self.next_priv_id by {
            }
        }
        r
    }

    /// The cached route to `user`, if one is cached.
    pub fn cached_route(&self, user: &str) -> (r: Option<Route>)
        requires
            self.wf(),
        ensures
            match r {
                Some(route) => self@.routes.contains_key(user@) && route@ == self@.routes[user@],
                None => !self@.routes.contains_key(user@),
            },
    {
        let key = String::from_str(user);
        let mut i: usize = 0;
        while i < self.users.len()
            invariant
                self.wf(),
                i <= self.users@.len(),
                key@ == user@,
                forall|j: int| 0 <= j < i ==> self.users@[j].0@ != user@,
            decreases self.users@.len() - i,
        {
            if self.users[i].0 == key {
                proof {
                    lemma_routes_map(self.users@, user@);
                }
                return Some(copy_route(&self.users[i].1));
            }
            i = i + 1;
        }
        proof {
            lemma_routes_map(self.users@, user@);
        }
        None
    }

    /// The route to `user`: the cached one where there is one, else what
    /// `fetch` finds, which is then cached; an error of `fetch` is handed on.
    pub fn get_route<F: FnOnce() -> Result<Route, String>>(&mut self, user: &str, fetch: F) -> (r:
        Result<Route, String>)
        requires
            old(self).wf(),
            fetch.requires(()),
        ensures
            final(self).wf(),
            old(self)@.routes.contains_key(user@) ==> route_result(r) == Ok::<
                Seq<AddrPair>,
                Seq<char>,
            >(old(self)@.routes[user@]) && final(self)@ == old(self)@,
            !old(self)@.routes.contains_key(user@) ==> exists|res: Result<Route, String>|
                #[trigger] fetch.ensures((), res) && route_result(r) == route_result(res) && match res {
                    Ok(route) => final(self)@ == (StateView {
                        routes: old(self)@.routes.insert(user@, route@),
                        ..old(self)@
                    }),
                    Err(_) => final(self)@ == old(self)@,
                },
    {
        match self.cached_route(user) {
            Some(route) => Ok(route),
            None => {
                let res = fetch();
                match res {
                    Ok(route) => {
                        let copy = copy_route(&route);
                        let ghost before = self.users@;
                        self.users.push((String::from_str(user), route));
                        proof {
                            lemma_routes_map(before, user@);
                            assert(self.users@.drop_last() == before);
                            assert forall|i: int, j: int|
                                0 <= i < j < self.users@.len() implies #[trigger] self.users@[i].0@
                                != #[trigger] self.users@[j].0@ by {
                                if j == before.len() {
                                    assert(self.users@[i] == before[i]);
                                } else {
                                    assert(self.users@[i] == before[i]);
                                    assert(self.users@[j] == before[j]);
                                }
                            }
                        }
                        Ok(copy)
                    },
                    Err(e) => Err(e),
                }
            },
        }
    }

    /// Whether a line can be filed without a counter running over: the
    /// unseen count, where the line is not for the current conversation,
    /// and the new line count of its conversation.
    pub fn can_accept(&self, msg: &TextMessage) -> (r: bool)
        requires
            self.wf(),
        ensures
            r == ((self@.current_conversation != Some(msg.conv_id)
                ==> self@.unseen_message_count < u32::MAX) && (self@.conversations.contains_key(
                msg.conv_id,
            ) ==> self@.conversations[msg.conv_id].new_message_count < usize::MAX)),
    {
        let is_current = match self.current_conversation {
            Some(curr) => curr == msg.conv_id,
            None => false,
        };
        if !is_current && self.unseen_message_count == u32::MAX {
            return false;
        }
        match self.conversations.get(&msg.conv_id) {
            Some(c) => c.new_message_count < usize::MAX,
            None => true,
        }
    }

    /// How many lines arrived outside the current conversation.
    pub fn unseen_message_count(&self) -> (r: u32)
        ensures
            r == self@.unseen_message_count,
    {
        self.unseen_message_count
    }

    /// Whether lines wait to be shown.
    pub fn has_new_messages(&self) -> (r: bool)
        ensures
            r == (self@.pending.len() > 0),
    {
        !self.channel.is_empty()
    }

    /// Files a line that arrived: it is queued for display where its
    /// conversation is the current one, and counted as unseen otherwise; it
    /// joins its conversation, which is opened with the sender where it did
    /// not exist, and counts there as new.
    pub fn add_new_message(&mut self, msg: TextMessage)
        requires
            old(self).wf(),
            old(self)@.current_conversation != Some(msg.conv_id)
                ==> old(self)@.unseen_message_count < u32::MAX,
            old(self)@.conversations.contains_key(msg.conv_id)
                ==> old(self)@.conversations[msg.conv_id].new_message_count < usize::MAX,
        ensures
            final(self).wf(),
            final(self)@ == delivered(old(self)@, msg),
            old(self)@.numbers_fresh ==> forall|k: u64|
                #![trigger old(self)@.conversations[k]]
                old(self)@.conversations.contains_key(k) ==> old(self)@.conversations[k].priv_id
                    < old(self)@.next_priv_id,
    {
        let id = msg.conv_id;
        let is_current = match self.current_conversation {
            Some(curr) => curr == id,
            None => false,
        };
        if is_current {
            self.channel.push(msg.clone());
        } else {
            self.unseen_message_count = self.unseen_message_count + 1;
        }
        let ghost before = self.conversations@;
        let ghost old_next = self.next_priv_id;
        let fresh = Conversation::from_id(msg.sender.clone(), id, &mut self.next_priv_id);
        proof {
            self.numbers_fresh = Ghost(self.numbers_fresh@ && old_next < usize::MAX);
        }
        let mut conv = match self.conversations.remove(&id) {
            Some(c) => c,
            None => fresh,
        };
        conv.messages.push(msg);
        conv.inc_new_msg_count();
        self.conversations.insert(id, conv);
        proof {
            assert(conversation_views(self.conversations@) =~= conversation_views(before).insert(
                id,
                conv@,
            ));
        }
    }
}

} // verus!

verus! {

/// The lines handed over by `State::get_new_messages`, oldest first.
pub struct NewMessagesIter {
    items: MpmcQueue<TextMessage>,
}

impl View for NewMessagesIter {
    type V = Seq<TextMessage>;

    closed spec fn view(&self) -> Seq<TextMessage> {
        self.items@
    }
}

impl NewMessagesIter {
    /// The next line, if any is left.
    pub fn next(&mut self) -> (r: Option<TextMessage>)
        ensures
            old(self)@.len() == 0 ==> r is None && final(self)@ == old(self)@,
            old(self)@.len() > 0 ==> r == Some(old(self)@[0]) && final(self)@
                == old(self)@.drop_first(),
    {
        self.items.pop()
    }
}

} // verus!
verus! {

/// Read after write: entering a conversation just filed makes it the
/// current conversation, with all its lines marked seen.
pub proof fn lemma_enter_after_add(s: StateView, c: ConversationView)
    ensures
        current_of(entered(added(s, c), Some(c.id))) == Some(
            ConversationView { new_message_count: 0, ..c },
        ),
{
}

/// A line for the current conversation is queued for display, is not
/// counted as unseen, and ends that conversation's history.
pub proof fn lemma_line_for_current(s: StateView, msg: TextMessage)
    requires
        s.current_conversation == Some(msg.conv_id),
    ensures
        delivered(s, msg).pending == s.pending.push(msg),
        delivered(s, msg).unseen_message_count == s.unseen_message_count,
        current_of(delivered(s, msg)) matches Some(c) && c.messages.last() == msg,
{
}

/// A line for another conversation is not queued for display and is
/// counted as unseen; the current conversation stays as it was.
pub proof fn lemma_line_elsewhere(s: StateView, msg: TextMessage)
    requires
        s.current_conversation != Some(msg.conv_id),
        s.unseen_message_count < u32::MAX,
    ensures
        delivered(s, msg).pending == s.pending,
        delivered(s, msg).unseen_message_count == s.unseen_message_count + 1,
        current_of(delivered(s, msg)) == current_of(s),
{
}

/// A line never leaves its conversation: delivering keeps every earlier
/// line of every conversation, and the new line is the last of its own.
pub proof fn lemma_history_grows(s: StateView, msg: TextMessage, k: u64)
    requires
        s.conversations.contains_key(k),
    ensures
        delivered(s, msg).conversations.contains_key(k),
        delivered(s, msg).conversations[k].messages.subrange(
            0,
            s.conversations[k].messages.len() as int,
        ) == s.conversations[k].messages,
        k == msg.conv_id ==> delivered(s, msg).conversations[k].messages == s.conversations[k].messages.push(msg),
{
    if k == msg.conv_id {
        assert(s.conversations[k].messages.push(msg).subrange(
            0,
            s.conversations[k].messages.len() as int,
        ) =~= s.conversations[k].messages);
    } else {
        assert(s.conversations[k].messages.subrange(0, s.conversations[k].messages.len() as int)
            =~= s.conversations[k].messages);
    }
}

/// Leaving: entering no conversation leaves the user in none, and changes
/// no conversation.
pub proof fn lemma_leave(s: StateView)
    ensures
        current_of(entered(s, None)) is None,
        entered(s, None).conversations == s.conversations,
{
}

} // verus!
verus! {

/// The counter after `k` draws from `c`.
pub open spec fn counter_after(c: usize, k: nat) -> usize
    decreases k,
{
    if k == 0 {
        c
    } else {
        counter_step(counter_after(c, (k - 1) as nat))
    }
}

/// Draws from a counter count up one by one: the `k`-th draw from `c`
/// gives `c + k`, so no two draws give the same number, as long as the
/// counter does not wrap.
pub proof fn lemma_draws_distinct(c: usize, i: nat, j: nat)
    requires
        i < j,
        c + j <= usize::MAX,
    ensures
        counter_after(c, i) == c + i,
        counter_after(c, j) == c + j,
        counter_after(c, i) != counter_after(c, j),
{
    lemma_counter_after(c, i);
    lemma_counter_after(c, j);
}

proof fn lemma_counter_after(c: usize, k: nat)
    requires
        c + k <= usize::MAX,
    ensures
        counter_after(c, k) == c + k,
    decreases k,
{
    if k > 0 {
        lemma_counter_after(c, (k - 1) as nat);
    }
}

/// A conversation opened by a line gets a local number that no
/// conversation in use has, while the numbers are fresh.
pub proof fn lemma_opened_number_is_fresh(s: StateView, msg: TextMessage, k: u64)
    requires
        s.numbers_fresh,
        forall|j: u64| #[trigger]
            s.conversations.contains_key(j) ==> s.conversations[j].priv_id < s.next_priv_id,
        !s.conversations.contains_key(msg.conv_id),
        s.conversations.contains_key(k),
    ensures
        delivered(s, msg).conversations[msg.conv_id].priv_id != s.conversations[k].priv_id,
{
}

} // verus!
verus! {

/// Filing a conversation adds it under its own id and leaves every
/// conversation filed under another id as it was: nothing is dropped and
/// nothing else is added; where the user is, what waits to be shown and
/// the counts outside conversations stay.
pub proof fn lemma_add_keeps_others(s: StateView, c: ConversationView, k: u64)
    ensures
        added(s, c).conversations.contains_key(c.id),
        added(s, c).conversations[c.id] == c,
        k != c.id ==> (added(s, c).conversations.contains_key(k) <==> s.conversations.contains_key(
            k,
        )),
        k != c.id && s.conversations.contains_key(k) ==> added(s, c).conversations[k]
            == s.conversations[k],
        added(s, c).conversations.dom() == s.conversations.dom().insert(c.id),
        added(s, c).current_conversation == s.current_conversation,
        added(s, c).pending == s.pending,
        added(s, c).unseen_message_count == s.unseen_message_count,
        added(s, c).routes == s.routes,
        added(s, c).next_priv_id == s.next_priv_id,
{
    assert(added(s, c).conversations.dom() =~= s.conversations.dom().insert(c.id));
}

/// Entering a conversation that exists makes it the current one and marks
/// its lines seen, and changes no other conversation: every other one stays
/// filed, as it was, and none is added.
pub proof fn lemma_enter_keeps_others(s: StateView, id: u64, k: u64)
    requires
        s.conversations.contains_key(id),
    ensures
        entered(s, Some(id)).current_conversation == Some(id),
        entered(s, Some(id)).conversations.contains_key(id),
        entered(s, Some(id)).conversations[id].new_message_count == 0,
        entered(s, Some(id)).conversations[id].messages == s.conversations[id].messages,
        entered(s, Some(id)).conversations[id].partner == s.conversations[id].partner,
        entered(s, Some(id)).conversations[id].id == s.conversations[id].id,
        entered(s, Some(id)).conversations[id].priv_id == s.conversations[id].priv_id,
        k != id ==> (entered(s, Some(id)).conversations.contains_key(k)
            <==> s.conversations.contains_key(k)),
        k != id && s.conversations.contains_key(k) ==> entered(s, Some(id)).conversations[k]
            == s.conversations[k],
        entered(s, Some(id)).conversations.dom() == s.conversations.dom(),
        entered(s, Some(id)).pending == s.pending,
        entered(s, Some(id)).unseen_message_count == s.unseen_message_count,
{
    assert(entered(s, Some(id)).conversations.dom() =~= s.conversations.dom());
}

/// Entering a conversation that does not exist, or none, changes no
/// conversation.
pub proof fn lemma_enter_missing_keeps_all(s: StateView, conv: Option<u64>)
    requires
        conv matches Some(id) ==> !s.conversations.contains_key(id),
    ensures
        entered(s, conv).conversations == s.conversations,
        entered(s, conv).current_conversation == conv,
{
}

} // verus!
