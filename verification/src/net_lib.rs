use vstd::prelude::*;
use vstd::string::StringExecFns;
use crate::crypto_lib::Key;
use crate::messages::{Message, MessageType, ResponseType, TextMessage, ToUser};
use crate::state::UserInfo;

verus! {

/// Where the directory server takes requests.
pub const SERVER_ADDR: &'static str = "138.197.153.113:5001";

/// Where the directory server hands out its public key.
pub const SERVER_KEY_ADDR: &'static str = "138.197.153.113:5002";

/// Where every client listens for onion layers.
pub const LISTEN_ADDR: &'static str = "0.0.0.0:5000";

/// The directory server's request address.
pub fn server_addr() -> (r: &'static str)
    ensures
        r@ == SERVER_ADDR@,
{
    SERVER_ADDR
}

/// The four bytes of `n`, least significant first: the length header of a
/// frame.
pub open spec fn le_bytes(n: u32) -> Seq<u8> {
    seq![
        (n % 256) as u8,
        ((n / 256) % 256) as u8,
        ((n / 65536) % 256) as u8,
        (n / 16777216) as u8,
    ]
}

/// The number four header bytes stand for, least significant first.
pub open spec fn le_value(b: Seq<u8>) -> nat {
    b[0] as nat + 256 * (b[1] as nat) + 65536 * (b[2] as nat) + 16777216 * (b[3] as nat)
}

/// A frame on the wire: the payload's length in four bytes, then the
/// payload.
pub open spec fn framed(data: Seq<u8>) -> Seq<u8> {
    le_bytes(data.len() as u32) + data
}

/// The payload of a buffer that starts with a whole frame; `None` where the
/// header or the payload is cut short.
pub open spec fn unframed(buf: Seq<u8>) -> Option<Seq<u8>> {
    if buf.len() < 4 {
        None
    } else {
        let n = le_value(buf.subrange(0, 4));
        if buf.len() - 4 < n {
            None
        } else {
            Some(buf.subrange(4, 4 + n as int))
        }
    }
}

/// The message that refuses a payload too long for its header.
pub open spec fn too_long() -> Seq<char> {
    "Message is too long."@
}

/// The bytes of a framing result.
pub open spec fn frame_result(r: Result<Vec<u8>, &'static str>) -> Result<Seq<u8>, Seq<char>> {
    match r {
        Ok(v) => Ok(v@),
        Err(e) => Err(e@),
    }
}

proof fn lemma_le_roundtrip(n: u32)
    ensures
        le_value(le_bytes(n)) == n,
{
    let b0 = n % 256;
    let b1 = (n / 256) % 256;
    let b2 = (n / 65536) % 256;
    let b3 = n / 16777216;
    assert(n == b0 + 256 * b1 + 65536 * b2 + 16777216 * b3) by (nonlinear_arith)
        requires
            b0 == n % 256,
            b1 == (n / 256) % 256,
            b2 == (n / 65536) % 256,
            b3 == n / 16777216,
            n <= u32::MAX,
    ;
    assert(b3 < 256) by (nonlinear_arith)
        requires
            b3 == n / 16777216,
            n <= u32::MAX,
    ;
}

/// Frames `data` for sending: its length in four bytes, least significant
/// first, then the data. A payload of `u32::MAX` bytes or more is refused.
pub fn frame_message(data: &[u8]) -> (r: Result<Vec<u8>, &'static str>)
    ensures
        data@.len() >= u32::MAX ==> frame_result(r) == Err::<Seq<u8>, Seq<char>>(too_long()),
        data@.len() < u32::MAX ==> frame_result(r) == Ok::<Seq<u8>, Seq<char>>(framed(data@)),
{
    if data.len() >= 4294967295usize {
        return Err("Message is too long.");
    }
    let n: u32 = data.len() as u32;
    let mut out: Vec<u8> = Vec::new();
    out.push((n % 256) as u8);
    out.push(((n / 256) % 256) as u8);
    out.push(((n / 65536) % 256) as u8);
    out.push((n / 16777216) as u8);
    let mut i: usize = 0;
    while i < data.len()
        invariant
            i <= data@.len(),
            n == data@.len(),
            out@ == le_bytes(n) + data@.subrange(0, i as int),
        decreases data@.len() - i,
    {
        out.push(data[i]);
        i = i + 1;
        assert(data@.subrange(0, i as int) == data@.subrange(0, i - 1) + seq![data@[i - 1]]);
    }
    assert(data@.subrange(0, data@.len() as int) == data@);
    Ok(out)
}

/// The payload length a frame header announces.
pub fn frame_length(header: &[u8; 4]) -> (r: u32)
    ensures
        r == le_value(header@),
{
    let v: u32 = header[0] as u32 + 256 * (header[1] as u32) + 65536 * (header[2] as u32)
        + 16777216 * (header[3] as u32);
    v
}

/// The payload of a buffer that starts with a whole frame.
pub fn unframe(buf: &[u8]) -> (r: Option<Vec<u8>>)
    ensures
        match r {
            Some(v) => unframed(buf@) == Some(v@),
            None => unframed(buf@) is None,
        },
{
    if buf.len() < 4 {
        return None;
    }
    let header: [u8; 4] = [buf[0], buf[1], buf[2], buf[3]];
    assert(header@ == buf@.subrange(0, 4));
    let n = frame_length(&header) as usize;
    if buf.len() - 4 < n {
        return None;
    }
    let mut out: Vec<u8> = Vec::new();
    let mut i: usize = 0;
    while i < n
        invariant
            i <= n,
            4 + n <= buf.len(),
            out@ == buf@.subrange(4, 4 + i as int),
        decreases n - i,
    {
        out.push(buf[4 + i]);
        i = i + 1;
        assert(buf@.subrange(4, 4 + i as int) == buf@.subrange(4, 4 + i - 1) + seq![
            buf@[4 + i - 1],
        ]);
    }
    Some(out)
}

/// What is framed is what is read back: a payload shorter than `u32::MAX`
/// bytes comes out of its frame whole, and bytes after the frame are left
/// alone.
pub proof fn lemma_unframe_frame(data: Seq<u8>, rest: Seq<u8>)
    requires
        data.len() < u32::MAX,
    ensures
        unframed(framed(data) + rest) == Some(data),
{
    let n = data.len() as u32;
    lemma_le_roundtrip(n);
    let buf = framed(data) + rest;
    assert(buf.subrange(0, 4) =~= le_bytes(n));
    assert(buf.subrange(4, 4 + data.len() as int) =~= data);
}

/// Whether a body awaits an answer: requests to the server do, lines to
/// users do not.
pub fn needs_response(msg_type: &MessageType) -> (r: bool)
    ensures
        r == (msg_type is Server),
{
    match msg_type {
        MessageType::Server(_) => true,
        MessageType::User(_) => false,
    }
}

/// Where an incoming layer goes next: `None` where it is addressed to this
/// client, else the next hop to forward it to.
pub fn next_hop_of(msg: &Message) -> (r: Option<String>)
    ensures
        match r {
            Some(h) => msg.next_hop matches Some(n) && h@ == n@,
            None => msg.next_hop is None,
        },
{
    match &msg.next_hop {
        Some(h) => Some(h.clone()),
        None => None,
    }
}

/// The chat line a body addressed to this client carries, if it is one;
/// other bodies are dropped.
pub fn text_of(body: MessageType) -> (r: Option<TextMessage>)
    ensures
        match body {
            MessageType::User(ToUser::Text(t)) => r == Some(t),
            _ => r is None,
        },
{
    match body {
        MessageType::User(ToUser::Text(t)) => Some(t),
        _ => None,
    }
}

/// The answer to a connection request: the user info, or the error the
/// server gave, or what went wrong with the reply.
pub open spec fn connection_answer(reply: MessageType) -> Result<UserInfo, Seq<char>> {
    match reply {
        MessageType::User(ToUser::ServerResponse(ResponseType::Connection(u))) => Ok(u),
        MessageType::User(ToUser::ServerResponse(ResponseType::Error(e))) => Err(e@),
        MessageType::User(ToUser::ServerResponse(_)) => Err("Something went wrong"@),
        MessageType::User(_) => Err("Reply was not of type ServerResponse"@),
        MessageType::Server(_) => Err("Reply was not of type User"@),
    }
}

/// The errors of a result with a string error, as characters.
pub open spec fn error_text<T>(r: Result<T, String>) -> Result<T, Seq<char>> {
    match r {
        Ok(v) => Ok(v),
        Err(e) => Err(e@),
    }
}

/// Reads the server's answer to a connection request.
pub fn connection_reply(reply: MessageType) -> (r: Result<UserInfo, String>)
    ensures
        error_text(r) == connection_answer(reply),
{
    match reply {
        MessageType::User(res) => match res {
            ToUser::ServerResponse(res) => match res {
                ResponseType::Connection(u) => Ok(u),
                ResponseType::Error(e) => Err(e),
                _ => Err(String::from_str("Something went wrong")),
            },
            _ => Err(String::from_str("Reply was not of type ServerResponse")),
        },
        _ => Err(String::from_str("Reply was not of type User")),
    }
}

/// Reads the server's answer to a public key request: the key, or `None`
/// for any other answer.
pub fn server_key_reply(reply: MessageType) -> (r: Option<Key>)
    ensures
        match reply {
            MessageType::User(ToUser::ServerResponse(ResponseType::PublicKey(pk))) => r == Some(pk),
            _ => r is None,
        },
{
    match reply {
        MessageType::User(ToUser::ServerResponse(ResponseType::PublicKey(pk))) => Some(pk),
        _ => None,
    }
}

} // verus!
