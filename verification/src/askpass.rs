//! The prompt helper: the short-lived role of the program in which `ssh`
//! runs it to ask for a password, and the places where helper and listener
//! meet.

use crate::control::Host;
use crate::text::{
    chars_of, copy_range, has_prefix, join, join_texts, push_text, same_text, starts_with,
    string_of, text_of_two,
};
use vstd::prelude::*;

verus! {

/// The argument that marks a prompt on the helper's command line.
pub open spec fn marker() -> Seq<char> {
    "--ssh-askpass"@
}

/// The least index at or after `from` at which `word` stands in `args`.
pub open spec fn position_from(args: Seq<Seq<char>>, word: Seq<char>, from: int) -> Option<int>
    decreases args.len() - from,
{
    if from < 0 || from >= args.len() {
        None
    } else if args[from] == word {
        Some(from)
    } else {
        position_from(args, word, from + 1)
    }
}

/// `args` from index `n` on; nothing where `args` is shorter.
pub open spec fn from_index(args: Seq<Seq<char>>, n: int) -> Seq<Seq<char>> {
    if 0 <= n <= args.len() {
        args.skip(n)
    } else {
        Seq::empty()
    }
}

/// The words of the prompt on the command line `args` of the helper, the
/// program's own name first: where the marker stands, what follows the
/// argument behind the marker; otherwise every argument but the first.
pub open spec fn prompt_words(args: Seq<Seq<char>>) -> Seq<Seq<char>> {
    match position_from(args, marker(), 0) {
        Some(at) => from_index(args, at + 2),
        None => from_index(args, 1),
    }
}

/// The prompt on the command line `args` of the helper: its words with one
/// space between each two.
pub open spec fn prompt_of(args: Seq<Seq<char>>) -> Seq<char> {
    join(prompt_words(args), " "@)
}

fn marker_position(args: &Vec<String>) -> (r: Option<usize>)
    ensures
        match r {
            Some(at) => at < args.len() && position_from(args.deep_view(), marker(), 0) == Some(
                at as int,
            ),
            None => position_from(args.deep_view(), marker(), 0) is None,
        },
{
    let wanted = chars_of("--ssh-askpass");
    let mut i: usize = 0;
    while i < args.len()
        invariant
            i <= args.len(),
            wanted@ == marker(),
            position_from(args.deep_view(), marker(), 0) == position_from(
                args.deep_view(),
                marker(),
                i as int,
            ),
        decreases args.len() - i,
    {
        let word = chars_of(args[i].as_str());
        assert(args.deep_view()[i as int] == word@);
        if same_text(word.as_slice(), wanted.as_slice()) {
            return Some(i);
        }
        i += 1;
    }
    None
}

/// Assembles the prompt from the command line of the helper.
pub fn helper_prompt(args: &Vec<String>) -> (r: String)
    ensures
        r@ == prompt_of(args.deep_view()),
{
    let first: usize = match marker_position(args) {
        Some(at) => if args.len() - at >= 2 {
            at + 2
        } else {
            args.len()
        },
        None => if args.len() >= 1 {
            1
        } else {
            0
        },
    };
    let mut words: Vec<String> = Vec::new();
    let mut i: usize = first;
    assert(words.deep_view() =~= args.deep_view().subrange(first as int, i as int));
    while i < args.len()
        invariant
            first <= i <= args.len(),
            words.deep_view() == args.deep_view().subrange(first as int, i as int),
        decreases args.len() - i,
    {
        push_text(&mut words, args[i].as_str());
        i += 1;
        assert(words.deep_view() =~= args.deep_view().subrange(first as int, i as int));
    }
    assert(words.deep_view() =~= prompt_words(args.deep_view()));
    join_texts(&words, " ")
}

/// What the helper prints: the bytes of the reply, then a line feed.
pub fn helper_output(reply: &[u8]) -> (r: Vec<u8>)
    ensures
        r@ == reply@.push(10u8),
{
    let mut out: Vec<u8> = Vec::new();
    let mut i: usize = 0;
    while i < reply.len()
        invariant
            i <= reply.len(),
            out@ == reply@.take(i as int),
        decreases reply.len() - i,
    {
        out.push(reply[i]);
        i += 1;
        assert(out@ =~= reply@.take(i as int));
    }
    assert(reply@.take(i as int) == reply@);
    out.push(10u8);
    out
}

/// Where the helper connects to.
#[derive(Debug, PartialEq, Eq)]
pub enum Endpoint {
    /// A TCP address, `HOST:PORT`.
    Tcp(String),
    /// The path of a Unix socket.
    Unix(String),
}

/// What an [`Endpoint`] holds, as sequences of characters.
pub enum EndpointView {
    Tcp(Seq<char>),
    Unix(Seq<char>),
}

impl View for Endpoint {
    type V = EndpointView;

    open spec fn view(&self) -> EndpointView {
        match self {
            Endpoint::Tcp(addr) => EndpointView::Tcp(addr@),
            Endpoint::Unix(path) => EndpointView::Unix(path@),
        }
    }
}

/// The error for a location that names a Unix socket on a machine that has
/// none.
pub open spec fn msg_not_tcp() -> Seq<char> {
    "askpass socket is not tcp on this platform"@
}

/// The endpoint that the location `socket` names: behind `tcp:` an
/// address; otherwise the path of a Unix socket, which only a machine with
/// Unix sockets can use.
pub open spec fn endpoint_of(socket: Seq<char>, unix: bool) -> Result<EndpointView, Seq<char>> {
    if starts_with(socket, "tcp:"@) {
        Ok(EndpointView::Tcp(socket.skip("tcp:"@.len() as int)))
    } else if unix {
        Ok(EndpointView::Unix(socket))
    } else {
        Err(msg_not_tcp())
    }
}

/// The views of the two sides of a result that holds an endpoint.
pub open spec fn endpoint_view(r: Result<Endpoint, String>) -> Result<EndpointView, Seq<char>> {
    match r {
        Ok(e) => Ok(e@),
        Err(e) => Err(e@),
    }
}

/// Reads the location of the listener.
pub fn askpass_endpoint(socket: &str, host: &Host) -> (r: Result<Endpoint, String>)
    ensures
        endpoint_view(r) == endpoint_of(socket@, host.unix),
{
    let chars = chars_of(socket);
    let prefix = chars_of("tcp:");
    if has_prefix(chars.as_slice(), prefix.as_slice()) {
        let addr = copy_range(chars.as_slice(), prefix.len(), chars.len());
        Ok(Endpoint::Tcp(string_of(addr.as_slice())))
    } else if host.unix {
        Ok(Endpoint::Unix(socket.to_owned()))
    } else {
        Err("askpass socket is not tcp on this platform".to_owned())
    }
}

/// The location of a listener on the TCP address `addr`.
pub open spec fn tcp_location(addr: Seq<char>) -> Seq<char> {
    "tcp:"@ + addr
}

/// Writes the location of a listener on the TCP address `addr`.
pub fn tcp_listener_location(addr: &str) -> (r: String)
    ensures
        r@ == tcp_location(addr@),
{
    text_of_two("tcp:", addr)
}

/// A location that was written for a TCP address reads back as that
/// address, on every machine.
pub proof fn lemma_tcp_location(addr: Seq<char>, unix: bool)
    ensures
        endpoint_of(tcp_location(addr), unix) == Ok::<EndpointView, Seq<char>>(
            EndpointView::Tcp(addr),
        ),
{
    let p = "tcp:"@;
    let loc = tcp_location(addr);
    assert(loc.subrange(0, p.len() as int) =~= p);
    assert(loc.skip(p.len() as int) =~= addr);
}

} // verus!
