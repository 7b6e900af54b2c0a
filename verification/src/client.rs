use vstd::prelude::*;
use vstd::string::{StrSliceExecFns, StringExecFns};
use crate::messages::TextMessage;
use crate::state::{State, User, current_of};

verus! {

/// Whether an input line is a command: it starts with a slash.
pub fn is_command(s: &str) -> (r: bool)
    requires
        s@.len() > 0,
    ensures
        r == (s@[0] == '/'),
{
    s.get_char(0) == '/'
}

/// Splitting `s` at spaces, from the left: the pieces completed so far and
/// the piece still open.
pub open spec fn split_state(s: Seq<char>) -> (Seq<Seq<char>>, Seq<char>)
    decreases s.len(),
{
    if s.len() == 0 {
        (Seq::empty(), Seq::empty())
    } else {
        let (done, cur) = split_state(s.drop_last());
        if s.last() == ' ' {
            (done.push(cur), Seq::empty())
        } else {
            (done, cur.push(s.last()))
        }
    }
}

/// The pieces of `s` between spaces, as `str::split_terminator(' ')` gives
/// them: a trailing empty piece is dropped.
pub open spec fn space_terminated_pieces(s: Seq<char>) -> Seq<Seq<char>> {
    let (done, cur) = split_state(s);
    if cur.len() == 0 {
        done
    } else {
        done.push(cur)
    }
}

/// The views of a list of strings.
pub open spec fn texts(v: Seq<String>) -> Seq<Seq<char>> {
    v.map_values(|s: String| s@)
}

/// Splits an input line into the words of a command.
pub fn tokenize(line: &str) -> (r: Vec<String>)
    ensures
        texts(r@) == space_terminated_pieces(line@),
{
    let n = line.unicode_len();
    let mut done: Vec<String> = Vec::new();
    let mut start: usize = 0;
    let mut i: usize = 0;
    while i < n
        invariant
            n == line@.len(),
            start <= i <= n,
            texts(done@) == split_state(line@.take(i as int)).0,
            line@.subrange(start as int, i as int) == split_state(line@.take(i as int)).1,
        decreases n - i,
    {
        let c = line.get_char(i);
        proof {
            assert(line@.take(i + 1).drop_last() =~= line@.take(i as int));
            assert(line@.take(i + 1).last() == c);
        }
        if c == ' ' {
            let piece = String::from_str(line.substring_char(start, i));
            proof {
                assert(texts(done@.push(piece)) =~= texts(done@).push(piece@));
            }
            done.push(piece);
            start = i + 1;
            i = i + 1;
            assert(line@.subrange(start as int, i as int) =~= Seq::<char>::empty());
        } else {
            i = i + 1;
            assert(line@.subrange(start as int, i as int) =~= line@.subrange(
                start as int,
                i - 1,
            ).push(c));
        }
    }
    assert(line@.take(n as int) =~= line@);
    if start < n {
        let piece = String::from_str(line.substring_char(start, n));
        proof {
            assert(texts(done@.push(piece)) =~= texts(done@).push(piece@));
        }
        done.push(piece);
    }
    done
}

/// The line to send, or why none can be sent: the user must be in a
/// conversation, and logged in.
pub open spec fn composed(s: crate::state::StateView, user: Option<User>, line: String) -> Result<
    TextMessage,
    Seq<char>,
> {
    match current_of(s) {
        None => Err("No current conversation."@),
        Some(c) => match user {
            None => Err("Not logged in"@),
            Some(u) => Ok(TextMessage { text: line, sender: u, conv_id: c.id }),
        },
    }
}

/// The text of an error.
pub open spec fn composed_result(r: Result<(TextMessage, User), &'static str>) -> Result<
    TextMessage,
    Seq<char>,
> {
    match r {
        Ok(p) => Ok(p.0),
        Err(e) => Err(e@),
    }
}

/// Turns a typed line into a chat line for the current conversation,
/// together with the partner it goes to.
pub fn compose_text(state: &State, user: &Option<User>, line: String) -> (r: Result<
    (TextMessage, User),
    &'static str,
>)
    requires
        state.wf(),
    ensures
        composed_result(r) == composed(state@, *user, line),
        r matches Ok(p) ==> current_of(state@) matches Some(c) && p.1 == c.partner,
{
    let curr_conv = state.get_current_conversation();
    match curr_conv {
        None => Err("No current conversation."),
        Some(conv) => match user {
            None => Err("Not logged in"),
            Some(u) => {
                let tm = TextMessage { text: line, sender: u.clone(), conv_id: conv.get_id() };
                Ok((tm, conv.get_partner().clone()))
            },
        },
    }
}

} // verus!
