use vstd::prelude::*;
use vstd::string::StringExecFns;
use crate::crypto_lib::{HEADER_LEN, Crypto, EncryptError, DecryptError, Key, sealed_envelope, plaintext_of, opened_envelope, public_key_of};
use crate::state::{User, UserInfo, Route};

verus! {

/// A chat line, as it travels and as it is stored.
#[derive(Debug)]
pub struct TextMessage {
    pub text: String,
    pub sender: User,
    pub conv_id: u64,
}

impl Clone for TextMessage {
    fn clone(&self) -> (r: Self)
        ensures
            r == *self,
    {
        TextMessage { text: self.text.clone(), sender: self.sender.clone(), conv_id: self.conv_id }
    }
}

impl TextMessage {
    /// How the line is shown: the sender's handle, a colon and the text.
    pub open spec fn shown(self) -> Seq<char> {
        self.sender.handle@ + ": "@ + self.text@
    }

    pub fn to_string(&self) -> (r: String)
        ensures
            r@ == self.shown(),
    {
        let mut s = self.sender.handle.clone();
        s.append(": ");
        s.append(self.text.as_str());
        s
    }
}

/// The directory server's answer.
#[derive(Debug)]
pub enum ResponseType {
    User(User),
    Connection(UserInfo),
    PublicKey(Key),
    Error(String),
}

/// A request to the directory server.
#[derive(Debug)]
pub enum ToServer {
    /// username, password, public key
    Login(String, String, Key),
    /// username, password, public key
    Register(String, String, Key),
    /// other user's name, public key
    Connect(String, Key),
    /// public key
    PublicKey(Key),
}

/// What a user receives.
#[derive(Debug)]
pub enum ToUser {
    ServerResponse(ResponseType),
    Text(TextMessage),
}

/// Every message body.
#[derive(Debug)]
pub enum MessageType {
    Server(ToServer),
    User(ToUser),
}

/// One onion layer: the sealed bytes and where to send them next; `None`
/// marks the innermost layer, whose data is the encoded message body.
#[derive(Debug)]
pub struct Message {
    pub data: Vec<u8>,
    pub next_hop: Option<String>,
}

/// A message queued for sending, with where to answer, if anywhere, and
/// whether an answer is awaited from the other end.
pub struct MessageContainer<R> {
    pub msg: Message,
    pub response: Option<R>,
    pub needs_response: bool,
}

impl<R> MessageContainer<R> {
    pub fn new(msg: Message, res: Option<R>, need_res: bool) -> (r: MessageContainer<R>)
        ensures
            r.msg == msg,
            r.response == res,
            r.needs_response == need_res,
    {
        MessageContainer { msg: msg, response: res, needs_response: need_res }
    }
}

/// Whether `ms` is a chain of onion layers around `payload` along `route`:
/// the innermost layer holds the payload unsealed, and each next layer holds
/// the encoding of the one before, sealed for the hop's key under some
/// ephemeral secret, and names that hop.
pub open spec fn onion_chain<F: Fn(&Message) -> Vec<u8>>(
    ms: Seq<Message>,
    payload: Seq<u8>,
    route: Seq<(String, Key)>,
    encode: F,
) -> bool {
    &&& ms.len() == route.len() + 1
    &&& ms[0].data@ == payload
    &&& ms[0].next_hop is None
    &&& forall|i: int|
        0 <= i < route.len() ==> #[trigger] onion_step(ms[i], ms[i + 1], route[i], encode)
}

/// Whether `outer` wraps `inner` for `hop`.
pub open spec fn onion_step<F: Fn(&Message) -> Vec<u8>>(
    inner: Message,
    outer: Message,
    hop: (String, Key),
    encode: F,
) -> bool {
    exists|e: Seq<u8>, enc: Vec<u8>|
        #![trigger call_ensures(encode, (&inner,), enc), sealed_envelope(e, hop.1@, enc@)]
        e.len() == 32 && call_ensures(encode, (&inner,), enc) && outer.data@ == sealed_envelope(
            e,
            hop.1@,
            enc@,
        ) && outer.next_hop == Some(hop.0)
}

impl Message {
    /// The innermost layer around an encoded message body.
    pub fn innermost(payload: Vec<u8>) -> (r: Message)
        ensures
            r.data == payload,
            r.next_hop is None,
    {
        Message { data: payload, next_hop: None }
    }

    /// Wraps `inner`, already encoded, in a layer sealed for `key` and
    /// addressed to `hop`.
    pub fn wrap(crypto: &Crypto, encoded_inner: &[u8], hop: String, key: &Key) -> (r: Result<
        Message,
        EncryptError,
    >)
        ensures
            match r {
                Ok(m) => m.next_hop == Some(hop) && exists|e: Seq<u8>|
                    e.len() == 32 && m.data@ == #[trigger] sealed_envelope(
                        e,
                        key@,
                        encoded_inner@,
                    ),
                Err(e) => e == EncryptError::RngInitializationFailed,
            },
            r matches Ok(m) ==> m.data@.len() == HEADER_LEN + encoded_inner@.len(),
    {
        let data = crypto.encrypt(key, encoded_inner)?;
        Ok(Message { data: data, next_hop: Some(hop) })
    }

    /// Builds the onion around `payload`, the encoded message body: one
    /// layer per hop of `route`, in order, the last hop outermost.
    /// `encode` turns a layer into the bytes that the next layer seals.
    pub fn new<F: Fn(&Message) -> Vec<u8>>(
        payload: Vec<u8>,
        route: Route,
        crypto: &Crypto,
        encode: F,
    ) -> (r: Result<Message, EncryptError>)
        requires
            forall|m: &Message| #[trigger] encode.requires((m,)),
        ensures
            match r {
                Ok(m) => exists|ms: Seq<Message>|
                    onion_chain(ms, payload@, route@, encode) && #[trigger] ms.last() == m,
                Err(e) => e == EncryptError::RngInitializationFailed,
            },
            route@.len() == 0 ==> (r matches Ok(m) && m.data@ == payload@ && m.next_hop is None),
    {
        let ghost payload_view = payload@;
        let mut msg = Message { data: payload, next_hop: None };
        let ghost mut ms: Seq<Message> = seq![msg];
        let mut i: usize = 0;
        while i < route.len()
            invariant
                i <= route@.len(),
                forall|m: &Message| #[trigger] encode.requires((m,)),
                ms.len() == i + 1,
                ms[0].data@ == payload_view,
                ms[0].next_hop is None,
                forall|j: int| 0 <= j < i ==> #[trigger] onion_step(ms[j], ms[j + 1], route@[j], encode),
                ms.last() == msg,
            decreases route@.len() - i,
        {
            let encoded = encode(&msg);
            let hop = route[i].0.clone();
            let key = route[i].1;
            let next = Message::wrap(crypto, encoded.as_slice(), hop, &key)?;
            proof {
                let e = choose|e: Seq<u8>|
                    e.len() == 32 && next.data@ == #[trigger] sealed_envelope(e, key@, encoded@);
                assert(route@[i as int].1 == key);
                assert(onion_step(ms[i as int], next, route@[i as int], encode));
                let old_ms = ms;
                ms = ms.push(next);
                assert forall|j: int| 0 <= j < i + 1 implies #[trigger] onion_step(
                    ms[j],
                    ms[j + 1],
                    route@[j],
                    encode,
                ) by {
                    if j < i {
                        assert(ms[j] == old_ms[j]);
                        assert(ms[j + 1] == old_ms[j + 1]);
                    }
                }
            }
            msg = next;
            i = i + 1;
        }
        proof {
            assert(onion_chain(ms, payload_view, route@, encode));
        }
        Ok(msg)
    }

    /// Opens this layer with the holder's key pair: the encoding of the
    /// layer inside, or the body where this was the last sealed layer.
    pub fn peel(&self, crypto: &Crypto) -> (r: Result<Vec<u8>, DecryptError>)
        ensures
            plaintext_of(r) == opened_envelope(crypto.secret_key(), self.data@),
            r matches Ok(p) ==> p@.len() + HEADER_LEN == self.data@.len(),
            forall|e: Seq<u8>, m: Seq<u8>|
                e.len() == 32 && self.data@ == #[trigger] sealed_envelope(
                    e,
                    public_key_of(crypto.secret_key()),
                    m,
                ) ==> plaintext_of(r) == Ok::<Seq<u8>, DecryptError>(m),
    {
        crypto.decrypt(self.data.as_slice())
    }
}

} // verus!
verus! {

/// The outermost layer of an onion names the last hop of the route and
/// holds, sealed for that hop's key, the encoding of the layer inside it:
/// so `Message::peel` with the key pair of that hop gives back exactly that
/// encoding. Peeling goes from the last hop of the route to the first; the
/// layer inside the first hop's holds the body and names no next hop.
pub proof fn lemma_outer_layer<F: Fn(&Message) -> Vec<u8>>(
    ms: Seq<Message>,
    payload: Seq<u8>,
    route: Seq<(String, Key)>,
    encode: F,
)
    requires
        onion_chain(ms, payload, route, encode),
        route.len() > 0,
    ensures
        ms.last().next_hop == Some(route.last().0),
        exists|e: Seq<u8>, enc: Vec<u8>|
            #![trigger call_ensures(encode, (&ms[route.len() - 1],), enc), sealed_envelope(e, route.last().1@, enc@)]
            e.len() == 32 && call_ensures(encode, (&ms[route.len() - 1],), enc)
                && ms.last().data@ == sealed_envelope(e, route.last().1@, enc@),
        ms[0].data@ == payload,
        ms[0].next_hop is None,
{
    let n = route.len() - 1;
    assert(onion_step(ms[n], ms[n + 1], route[n], encode));
    assert(ms.last() == ms[n + 1]);
}

} // verus!
