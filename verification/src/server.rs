use vstd::prelude::*;
use vstd::string::StringExecFns;
use crate::crypto_lib::Key;
use crate::messages::{MessageType, ResponseType, ToServer, ToUser};
use crate::state::{AddrPair, Route, User, UserInfo};
use crate::text::{decimal, decimal_string};

verus! {

/// Where the directory server takes requests.
pub const SERVER_LISTEN_ADDR: &'static str = "0.0.0.0:5001";

/// Where the directory server hands out its public key.
pub const PUB_KEY_ADDR: &'static str = "0.0.0.0:5002";

/// A registered user, as the directory server keeps them.
#[derive(Debug)]
pub struct KnownUser {
    pub handle: String,
    pub addr: String,
    pub password: String,
    pub public_key: [u8; 32],
}

impl Clone for KnownUser {
    fn clone(&self) -> (r: Self)
        ensures
            r == *self,
    {
        KnownUser {
            handle: self.handle.clone(),
            addr: self.addr.clone(),
            password: self.password.clone(),
            public_key: self.public_key,
        }
    }
}

/// Whether some user of `users` has the handle `name`.
pub open spec fn known(users: Seq<KnownUser>, name: Seq<char>) -> bool {
    exists|i: int| 0 <= i < users.len() && #[trigger] users[i].handle@ == name
}

/// The user of `users` with the handle `name`.
pub open spec fn user_named(users: Seq<KnownUser>, name: Seq<char>) -> KnownUser {
    users[choose|i: int| 0 <= i < users.len() && #[trigger] users[i].handle@ == name]
}

/// No handle occurs twice.
pub open spec fn distinct_handles(users: Seq<KnownUser>) -> bool {
    forall|i: int, j: int|
        0 <= i < j < users.len() ==> #[trigger] users[i].handle@ != #[trigger] users[j].handle@
}

/// The registered users, in the order they registered.
pub struct UserDirectory {
    users: Vec<KnownUser>,
}

impl View for UserDirectory {
    type V = Seq<KnownUser>;

    closed spec fn view(&self) -> Seq<KnownUser> {
        self.users@
    }
}

impl UserDirectory {
    /// No handle is registered twice.
    pub open spec fn wf(&self) -> bool {
        distinct_handles(self@)
    }

    pub fn new() -> (r: UserDirectory)
        ensures
            r.wf(),
            r@ == Seq::<KnownUser>::empty(),
    {
        UserDirectory { users: Vec::new() }
    }

    /// How many users are registered.
    pub fn len(&self) -> (r: usize)
        ensures
            r == self@.len(),
    {
        self.users.len()
    }

    /// The user with the handle `name`, if one registered.
    pub fn get(&self, name: &String) -> (r: Option<&KnownUser>)
        requires
            self.wf(),
        ensures
            match r {
                Some(u) => known(self@, name@) && *u == user_named(self@, name@),
                None => !known(self@, name@),
            },
    {
        let mut i: usize = 0;
        while i < self.users.len()
            invariant
                self.wf(),
                i <= self.users@.len(),
                forall|j: int| 0 <= j < i ==> self.users@[j].handle@ != name@,
            decreases self.users@.len() - i,
        {
            if self.users[i].handle == *name {
                proof {
                    let k = choose|k: int|
                        0 <= k < self@.len() && #[trigger] self@[k].handle@ == name@;
                    if k != i {
                        if k < i {
                            assert(self.users@[k].handle@ != self.users@[i as int].handle@);
                        } else {
                            assert(self.users@[i as int].handle@ != self.users@[k].handle@);
                        }
                    }
                }
                return Some(&self.users[i]);
            }
            i = i + 1;
        }
        None
    }

    /// Registers `user`, whose handle is not yet known.
    pub fn insert(&mut self, user: KnownUser)
        requires
            old(self).wf(),
            !known(old(self)@, user.handle@),
        ensures
            final(self).wf(),
            final(self)@ == old(self)@.push(user),
    {
        let ghost before = self.users@;
        self.users.push(user);
        proof {
            assert forall|i: int, j: int|
                0 <= i < j < self.users@.len() implies #[trigger] self.users@[i].handle@
                != #[trigger] self.users@[j].handle@ by {
                assert(self.users@[i] == before[i]);
                if j < before.len() {
                    assert(self.users@[j] == before[j]);
                }
            }
        }
    }
}

/// A reply the server is to send: its body and the route back, along which
/// the body is sealed layer by layer.
#[derive(Debug)]
pub struct Reply {
    pub body: MessageType,
    pub route: Route,
}

/// The route straight back to a user at `user_ip` holding `key`.
pub fn gen_route(user_ip: &str, key: &Key) -> (r: Route)
    ensures
        r@.len() == 1,
        r@[0].0@ == user_ip@,
        r@[0].1 == *key,
{
    let mut r: Route = Vec::new();
    r.push((String::from_str(user_ip), *key));
    r
}

/// The hop of a registered user: their address and key.
pub open spec fn hop_of(u: KnownUser) -> AddrPair {
    (u.addr, u.public_key)
}

/// A route to `dest` through the first registered users, up to three of
/// them, in the order they registered.
pub open spec fn route_via(users: Seq<KnownUser>, dest: AddrPair) -> Seq<AddrPair> {
    let n = if users.len() < 3 {
        users.len() as int
    } else {
        3
    };
    users.take(n).map_values(|u: KnownUser| hop_of(u)).push(dest)
}

/// Builds a route to `dest` through up to three registered users.
pub fn generate_route(users: &UserDirectory, dest: AddrPair) -> (r: Route)
    ensures
        r@ == route_via(users@, dest),
{
    let mut r: Route = Vec::new();
    let n: usize = if users.users.len() < 3 {
        users.users.len()
    } else {
        3
    };
    let mut i: usize = 0;
    while i < n
        invariant
            i <= n,
            n <= users@.len(),
            n == (if users@.len() < 3 {
                users@.len() as int
            } else {
                3
            }),
            r@ == users@.take(i as int).map_values(|u: KnownUser| hop_of(u)),
        decreases n - i,
    {
        let u = &users.users[i];
        r.push((u.addr.clone(), u.public_key));
        i = i + 1;
        assert(users@.take(i as int) == users@.take(i - 1).push(users@[i - 1]));
        assert(r@ =~= users@.take(i as int).map_values(|u: KnownUser| hop_of(u)));
    }
    r.push(dest);
    r
}

/// The error answer with the given text.
pub open spec fn is_error(r: ResponseType, text: Seq<char>) -> bool {
    r matches ResponseType::Error(e) && e@ == text
}

/// What the server answers to a login: the user, at the address the
/// request came from, where the password matches; else an error.
pub open spec fn login_answer(
    r: ResponseType,
    users: Seq<KnownUser>,
    username: Seq<char>,
    password: Seq<char>,
    usr_ip: String,
) -> bool {
    if known(users, username) {
        let u = user_named(users, username);
        if password == u.password@ {
            r == ResponseType::User(
                User { handle: u.handle, addr: usr_ip, public_key: u.public_key },
            )
        } else {
            is_error(r, "Incorrect password."@)
        }
    } else {
        is_error(r, "User does not exist."@)
    }
}

/// Whether the reply's body is the server's answer `r`.
pub open spec fn answers(reply: Reply, r: ResponseType) -> bool {
    reply.body == MessageType::User(ToUser::ServerResponse(r))
}

/// Whether `route` leads straight back to `usr_ip` holding `key`.
pub open spec fn straight_back(route: Seq<AddrPair>, usr_ip: Seq<char>, key: Key) -> bool {
    route.len() == 1 && route[0].0@ == usr_ip && route[0].1 == key
}

/// Answers a login straight back to the requester.
pub fn login_response(
    username: String,
    password: String,
    users: &UserDirectory,
    usr_ip: String,
    key: &Key,
) -> (r: Reply)
    requires
        users.wf(),
    ensures
        straight_back(r.route@, usr_ip@, *key),
        exists|a: ResponseType|
            #[trigger] answers(r, a) && login_answer(a, users@, username@, password@, usr_ip),
{
    let route = gen_route(usr_ip.as_str(), key);
    match users.get(&username) {
        Some(u) => {
            if password == u.password {
                let a = ResponseType::User(
                    User { handle: u.handle.clone(), addr: usr_ip, public_key: u.public_key },
                );
                let r = Reply { body: MessageType::User(ToUser::ServerResponse(a)), route: route };
                assert(answers(r, a));
                r
            } else {
                let a = ResponseType::Error(String::from_str("Incorrect password."));
                let r = Reply { body: MessageType::User(ToUser::ServerResponse(a)), route: route };
                assert(answers(r, a));
                r
            }
        },
        None => {
            let a = ResponseType::Error(String::from_str("User does not exist."));
            let r = Reply { body: MessageType::User(ToUser::ServerResponse(a)), route: route };
            assert(answers(r, a));
            r
        },
    }
}

/// The user registered by a successful registration.
pub open spec fn registered_user(
    username: String,
    password: String,
    public_key: Key,
    usr_ip: String,
) -> KnownUser {
    KnownUser { handle: username, addr: usr_ip, password: password, public_key: public_key }
}

/// Registers a new user and answers straight back to the requester: the
/// new user, or an error where the handle is taken, in which case the
/// directory is unchanged.
pub fn register_response(
    username: String,
    password: String,
    public_key: Key,
    users: &mut UserDirectory,
    usr_ip: String,
    key: &Key,
) -> (r: Reply)
    requires
        old(users).wf(),
    ensures
        final(users).wf(),
        straight_back(r.route@, usr_ip@, *key),
        known(old(users)@, username@) ==> final(users)@ == old(users)@ && exists|a: ResponseType|
            #[trigger] answers(r, a) && is_error(a, "Username already in use."@),
        !known(old(users)@, username@) ==> final(users)@ == old(users)@.push(
            registered_user(username, password, public_key, usr_ip),
        ) && answers(
            r,
            ResponseType::User(User { handle: username, addr: usr_ip, public_key: public_key }),
        ),
{
    let route = gen_route(usr_ip.as_str(), key);
    let existing = match users.get(&username) {
        Some(_) => true,
        None => false,
    };
    if existing {
        let a = ResponseType::Error(String::from_str("Username already in use."));
        let r = Reply { body: MessageType::User(ToUser::ServerResponse(a)), route: route };
        assert(answers(r, a));
        r
    } else {
        users.insert(
            KnownUser {
                handle: username.clone(),
                addr: usr_ip.clone(),
                password: password.clone(),
                public_key: public_key,
            },
        );
        let a = ResponseType::User(
            User { handle: username.clone(), addr: usr_ip, public_key: public_key },
        );
        Reply { body: MessageType::User(ToUser::ServerResponse(a)), route: route }
    }
}

/// What the server answers to a connection request for `name`: a route to
/// the user through registered users with their address and key, or an
/// error naming them.
pub open spec fn connect_answer(r: ResponseType, users: Seq<KnownUser>, name: Seq<char>) -> bool {
    if known(users, name) {
        let u = user_named(users, name);
        r matches ResponseType::Connection(info) && info.route@ == route_via(users, hop_of(u))
            && info.addr == u.addr && info.public_key == u.public_key
    } else {
        is_error(r, "Could not find user "@ + name + "."@)
    }
}

/// Answers a connection request along `route`.
pub fn connect_response(name: String, users: &UserDirectory, route: Route) -> (r: Reply)
    requires
        users.wf(),
    ensures
        r.route == route,
        exists|a: ResponseType| #[trigger] answers(r, a) && connect_answer(a, users@, name@),
{
    match users.get(&name) {
        Some(known_user) => {
            let dest: AddrPair = (known_user.addr.clone(), known_user.public_key);
            let a = ResponseType::Connection(
                UserInfo {
                    route: generate_route(users, dest),
                    addr: known_user.addr.clone(),
                    public_key: known_user.public_key,
                },
            );
            let r = Reply { body: MessageType::User(ToUser::ServerResponse(a)), route: route };
            assert(answers(r, a));
            r
        },
        None => {
            let mut text = String::from_str("Could not find user ");
            text.append(name.as_str());
            text.append(".");
            let a = ResponseType::Error(text);
            let r = Reply { body: MessageType::User(ToUser::ServerResponse(a)), route: route };
            assert(answers(r, a));
            r
        },
    }
}

/// A login was answered straight back, leaving the directory unchanged.
pub open spec fn login_done(
    reply: Reply,
    before: Seq<KnownUser>,
    after: Seq<KnownUser>,
    username: Seq<char>,
    password: Seq<char>,
    key: Key,
    usr_ip: String,
) -> bool {
    &&& straight_back(reply.route@, usr_ip@, key)
    &&& after == before
    &&& exists|a: ResponseType|
        #[trigger] answers(reply, a) && login_answer(a, before, username, password, usr_ip)
}

/// A registration was answered straight back and, where the handle was
/// free, recorded.
pub open spec fn register_done(
    reply: Reply,
    before: Seq<KnownUser>,
    after: Seq<KnownUser>,
    username: String,
    password: String,
    key: Key,
    usr_ip: String,
) -> bool {
    &&& straight_back(reply.route@, usr_ip@, key)
    &&& known(before, username@) ==> after == before && exists|a: ResponseType|
        #[trigger] answers(reply, a) && is_error(a, "Username already in use."@)
    &&& !known(before, username@) ==> after == before.push(
        registered_user(username, password, key, usr_ip),
    ) && answers(reply, ResponseType::User(User { handle: username, addr: usr_ip, public_key: key }))
}

/// A connection request was answered straight back, leaving the directory
/// unchanged.
pub open spec fn connect_done(
    reply: Reply,
    before: Seq<KnownUser>,
    after: Seq<KnownUser>,
    name: Seq<char>,
    key: Key,
    usr_ip: Seq<char>,
) -> bool {
    &&& straight_back(reply.route@, usr_ip, key)
    &&& after == before
    &&& exists|a: ResponseType| #[trigger] answers(reply, a) && connect_answer(a, before, name)
}

/// Answers a request that came from `usr_ip`: logins, registrations and
/// connection requests are answered straight back with the requester's key;
/// a public key request or a body for users is refused.
pub fn create_response(msg: &MessageType, users: &mut UserDirectory, usr_ip: String) -> (r: Result<
    Reply,
    (),
>)
    requires
        old(users).wf(),
    ensures
        final(users).wf(),
        match msg {
            MessageType::Server(ToServer::Login(u, p, k)) => r matches Ok(reply) && login_done(
                reply,
                old(users)@,
                final(users)@,
                u@,
                p@,
                *k,
                usr_ip,
            ),
            MessageType::Server(ToServer::Register(u, p, k)) => r matches Ok(reply)
                && register_done(reply, old(users)@, final(users)@, *u, *p, *k, usr_ip),
            MessageType::Server(ToServer::Connect(name, k)) => r matches Ok(reply)
                && connect_done(reply, old(users)@, final(users)@, name@, *k, usr_ip@),
            _ => r is Err && final(users)@ == old(users)@,
        },
{
    match msg {
        MessageType::Server(m) => match m {
            ToServer::Login(username, password, public_key) => Ok(
                login_response(username.clone(), password.clone(), users, usr_ip, public_key),
            ),
            ToServer::Register(username, password, public_key) => Ok(
                register_response(
                    username.clone(),
                    password.clone(),
                    *public_key,
                    users,
                    usr_ip,
                    public_key,
                ),
            ),
            ToServer::Connect(name, public_key) => {
                let route = gen_route(usr_ip.as_str(), public_key);
                Ok(connect_response(name.clone(), users, route))
            },
            ToServer::PublicKey(_) => Err(()),
        },
        _ => Err(()),
    }
}

/// Answers a public key request: the server's key, straight back to the
/// requester under the key the request carried; any other body gets no
/// answer.
pub fn pub_key_response(msg_type: MessageType, pubkey: Key, usr_ip: String) -> (r: Option<Reply>)
    ensures
        match msg_type {
            MessageType::Server(ToServer::PublicKey(pk)) => r matches Some(reply) && straight_back(
                reply.route@,
                usr_ip@,
                pk,
            ) && answers(reply, ResponseType::PublicKey(pubkey)),
            _ => r is None,
        },
{
    match msg_type {
        MessageType::Server(ToServer::PublicKey(pk)) => Some(
            Reply {
                body: MessageType::User(ToUser::ServerResponse(ResponseType::PublicKey(pubkey))),
                route: gen_route(usr_ip.as_str(), &pk),
            },
        ),
        _ => None,
    }
}

/// The address a client was seen at.
#[derive(Debug)]
pub enum PeerAddr {
    V4([u8; 4]),
    V6([u16; 8]),
}

/// Decimal renderings of `parts`, joined by dots.
pub open spec fn dotted(parts: Seq<nat>) -> Seq<char>
    decreases parts.len(),
{
    if parts.len() == 0 {
        Seq::empty()
    } else if parts.len() == 1 {
        decimal(parts[0])
    } else {
        dotted(parts.drop_last()) + "."@ + decimal(parts.last())
    }
}

/// How the server writes a client's listening address: the parts of its
/// address in decimal, joined by dots, then the client port.
pub open spec fn peer_address(addr: PeerAddr) -> Seq<char> {
    match addr {
        PeerAddr::V4(o) => dotted(o@.map_values(|b: u8| b as nat)) + ":5000"@,
        PeerAddr::V6(s) => dotted(s@.map_values(|x: u16| x as nat)) + ":5000"@,
    }
}

/// Writes a client's listening address from the address it was seen at.
pub fn addr_to_string(addr: &PeerAddr) -> (r: String)
    ensures
        r@ == peer_address(*addr),
{
    let mut s = String::new();
    let mut i: usize = 0;
    match addr {
        PeerAddr::V4(o) => {
            let ghost parts = o@.map_values(|b: u8| b as nat);
            while i < 4
                invariant
                    i <= 4,
                    parts == o@.map_values(|b: u8| b as nat),
                    s@ == dotted(parts.take(i as int)),
                decreases 4 - i,
            {
                if i > 0 {
                    s.append(".");
                }
                let d = decimal_string(o[i] as u64);
                s.append(d.as_str());
                i = i + 1;
                proof {
                    let t = parts.take(i as int);
                    assert(t.drop_last() =~= parts.take(i - 1));
                    assert(t.last() == o@[i - 1] as nat);
                    if i == 1 {
                        assert(parts.take(0) =~= Seq::<nat>::empty());
                    }
                }
            }
            assert(parts.take(4) =~= parts);
        },
        PeerAddr::V6(seg) => {
            let ghost parts = seg@.map_values(|x: u16| x as nat);
            while i < 8
                invariant
                    i <= 8,
                    parts == seg@.map_values(|x: u16| x as nat),
                    s@ == dotted(parts.take(i as int)),
                decreases 8 - i,
            {
                if i > 0 {
                    s.append(".");
                }
                let d = decimal_string(seg[i] as u64);
                s.append(d.as_str());
                i = i + 1;
                proof {
                    let t = parts.take(i as int);
                    assert(t.drop_last() =~= parts.take(i - 1));
                    assert(t.last() == seg@[i - 1] as nat);
                    if i == 1 {
                        assert(parts.take(0) =~= Seq::<nat>::empty());
                    }
                }
            }
            assert(parts.take(8) =~= parts);
        },
    }
    s.append(":5000");
    s
}

} // verus!
verus! {

/// Registering keeps handles distinct, and the new user is then the one
/// known under their handle.
pub proof fn lemma_registered_is_known(users: Seq<KnownUser>, new_user: KnownUser)
    requires
        distinct_handles(users),
        !known(users, new_user.handle@),
    ensures
        distinct_handles(users.push(new_user)),
        known(users.push(new_user), new_user.handle@),
        user_named(users.push(new_user), new_user.handle@) == new_user,
{
    let all = users.push(new_user);
    let n = users.len() as int;
    assert(all[n].handle@ == new_user.handle@);
    assert forall|i: int, j: int| 0 <= i < j < all.len() implies #[trigger] all[i].handle@
        != #[trigger] all[j].handle@ by {
        assert(all[i] == users[i]);
        if j < n {
            assert(all[j] == users[j]);
        }
    }
    let k = choose|k: int| 0 <= k < all.len() && #[trigger] all[k].handle@ == new_user.handle@;
    if k < n {
        assert(all[k] == users[k]);
    }
}

/// Logging in after registering, with the same handle and password, gives
/// back the registered user at the address the login came from.
pub proof fn lemma_login_after_register(
    users: Seq<KnownUser>,
    username: String,
    password: String,
    key: Key,
    register_ip: String,
    login_ip: String,
    a: ResponseType,
)
    requires
        distinct_handles(users),
        !known(users, username@),
        login_answer(
            a,
            users.push(registered_user(username, password, key, register_ip)),
            username@,
            password@,
            login_ip,
        ),
    ensures
        a == ResponseType::User(User { handle: username, addr: login_ip, public_key: key }),
{
    lemma_registered_is_known(users, registered_user(username, password, key, register_ip));
}

/// A handle is registered once: registering it again is refused.
pub proof fn lemma_register_twice(
    users: Seq<KnownUser>,
    username: String,
    password: String,
    key: Key,
    usr_ip: String,
)
    requires
        distinct_handles(users),
        !known(users, username@),
    ensures
        known(users.push(registered_user(username, password, key, usr_ip)), username@),
{
    lemma_registered_is_known(users, registered_user(username, password, key, usr_ip));
}

/// A wrong password is refused: where the password differs from the one
/// registered, the login is answered with an error.
pub proof fn lemma_wrong_password(
    users: Seq<KnownUser>,
    username: Seq<char>,
    password: Seq<char>,
    usr_ip: String,
    a: ResponseType,
)
    requires
        known(users, username),
        password != user_named(users, username).password@,
        login_answer(a, users, username, password, usr_ip),
    ensures
        is_error(a, "Incorrect password."@),
{
}

} // verus!
verus! {

/// A successful registration records the user under their handle with the
/// password and key they gave and the address the request came from.
pub proof fn lemma_registration_records(
    users: Seq<KnownUser>,
    username: String,
    password: String,
    public_key: Key,
    usr_ip: String,
)
    requires
        distinct_handles(users),
        !known(users, username@),
    ensures
        ({
            let after = users.push(registered_user(username, password, public_key, usr_ip));
            &&& after.len() == users.len() + 1
            &&& after.subrange(0, users.len() as int) == users
            &&& after.last().handle@ == username@
            &&& after.last().addr@ == usr_ip@
            &&& after.last().password@ == password@
            &&& after.last().public_key == public_key
            &&& known(after, username@)
            &&& user_named(after, username@).addr@ == usr_ip@
            &&& user_named(after, username@).public_key == public_key
        }),
{
    let after = users.push(registered_user(username, password, public_key, usr_ip));
    assert(after.subrange(0, users.len() as int) =~= users);
    lemma_registered_is_known(users, registered_user(username, password, public_key, usr_ip));
}

/// The user with handle `name` is the one at any index whose handle it is.
proof fn lemma_named_at(users: Seq<KnownUser>, name: Seq<char>, j: int)
    requires
        distinct_handles(users),
        0 <= j < users.len(),
        users[j].handle@ == name,
    ensures
        known(users, name),
        user_named(users, name) == users[j],
{
    assert(users[j].handle@ == name);
    let k = choose|k: int| 0 <= k < users.len() && #[trigger] users[k].handle@ == name;
    if k < j {
        assert(users[k].handle@ != users[j].handle@);
    } else if k > j {
        assert(users[j].handle@ != users[k].handle@);
    }
}

/// Any registered user, wherever they stand in the directory, who logs in
/// with their own password is answered with themselves at the address the
/// login came from; a wrong password is refused; an unknown handle is
/// refused.
pub proof fn lemma_login_answers(
    users: Seq<KnownUser>,
    j: int,
    username: Seq<char>,
    password: Seq<char>,
    usr_ip: String,
    a: ResponseType,
)
    requires
        distinct_handles(users),
        login_answer(a, users, username, password, usr_ip),
    ensures
        0 <= j < users.len() && users[j].handle@ == username && password == users[j].password@
            ==> a == ResponseType::User(
            User { handle: users[j].handle, addr: usr_ip, public_key: users[j].public_key },
        ),
        0 <= j < users.len() && users[j].handle@ == username && password != users[j].password@
            ==> is_error(a, "Incorrect password."@),
        (forall|i: int| 0 <= i < users.len() ==> #[trigger] users[i].handle@ != username)
            ==> is_error(a, "User does not exist."@),
{
    if 0 <= j < users.len() && users[j].handle@ == username {
        lemma_named_at(users, username, j);
    }
}

/// A connection answer for a registered user gives that user's address and
/// key, and a route through the first registered users, up to three, each
/// hop with that user's own address and key, ending at the requested user;
/// an unknown name is refused with its name in the error.
pub proof fn lemma_connect_answers(
    users: Seq<KnownUser>,
    j: int,
    name: Seq<char>,
    a: ResponseType,
)
    requires
        distinct_handles(users),
        connect_answer(a, users, name),
    ensures
        0 <= j < users.len() && users[j].handle@ == name ==> {
            &&& a matches ResponseType::Connection(info)
            &&& info.addr == users[j].addr
            &&& info.public_key == users[j].public_key
            &&& info.route@.len() == (if users.len() < 3 {
                users.len() as int
            } else {
                3
            }) + 1
            &&& forall|i: int|
                0 <= i < info.route@.len() - 1 ==> #[trigger] info.route@[i] == (
                    users[i].addr,
                    users[i].public_key,
                )
            &&& info.route@.last() == (users[j].addr, users[j].public_key)
        },
        (forall|i: int| 0 <= i < users.len() ==> #[trigger] users[i].handle@ != name) ==> is_error(
            a,
            "Could not find user "@ + name + "."@,
        ),
{
    if 0 <= j < users.len() && users[j].handle@ == name {
        lemma_named_at(users, name, j);
    }
}

} // verus!
