//! Port discovery: the line with which the remote agent announces where it
//! listens, and the first port of a stream of such lines.

use crate::text::{
    after_last, after_last_index, chars_of, copy_range, find, find_first, first_word,
    first_word_bounds, parse_decimal_u16, parse_u16,
};
use vstd::prelude::*;

verus! {

/// The text that announces the agent's address.
pub open spec fn announcement() -> Seq<char> {
    "opencode server listening on http://"@
}

/// The port that `line` announces, if it announces one: behind the first
/// announcement in the line, the first word is the address, and what stands
/// in it behind its last colon is the port.
pub open spec fn listening_port(line: Seq<char>) -> Option<u16> {
    match find(line, announcement()) {
        None => None,
        Some(at) => match first_word(line.skip(at + announcement().len())) {
            None => None,
            Some(address) => parse_u16(after_last(address, ':')),
        },
    }
}

/// The port that the first announcing line of `lines` announces.
pub open spec fn first_port(lines: Seq<Seq<char>>) -> Option<u16>
    decreases lines.len(),
{
    if lines.len() == 0 {
        None
    } else {
        match first_port(lines.drop_last()) {
            Some(port) => Some(port),
            None => listening_port(lines.last()),
        }
    }
}

/// Reads the port from a line of the agent's output.
///
/// Returns the port that the line announces, and `None` for a line that
/// announces none.
pub fn parse_listening_port(line: &str) -> (r: Option<u16>)
    ensures
        r == listening_port(line@),
{
    let chars = chars_of(line);
    let needle = chars_of("opencode server listening on http://");
    match find_first(chars.as_slice(), needle.as_slice()) {
        None => None,
        Some(at) => {
            let rest = copy_range(chars.as_slice(), at + needle.len(), chars.len());
            assert(rest@ == line@.skip(at + announcement().len()));
            match first_word_bounds(rest.as_slice()) {
                None => None,
                Some((from, to)) => {
                    let address = copy_range(rest.as_slice(), from, to);
                    let k = after_last_index(address.as_slice(), ':');
                    let port = copy_range(address.as_slice(), k, address.len());
                    parse_decimal_u16(port.as_slice())
                },
            }
        },
    }
}

/// Watches the lines of the agent's output for the port: the first port
/// that is announced is kept, and what later lines announce changes
/// nothing.
pub struct PortWatch {
    found: Option<u16>,
    seen: Ghost<Seq<Seq<char>>>,
}

impl PortWatch {
    #[verifier::type_invariant]
    spec fn inv(self) -> bool {
        self.found == first_port(self.seen@)
    }

    /// The lines that were observed so far.
    pub closed spec fn lines(self) -> Seq<Seq<char>> {
        self.seen@
    }

    /// The port that was found so far.
    pub closed spec fn port(self) -> Option<u16> {
        self.found
    }

    /// A watch that has seen no line.
    pub fn new() -> (r: PortWatch)
        ensures
            r.lines() == Seq::<Seq<char>>::empty(),
            r.port() is None,
    {
        PortWatch { found: None, seen: Ghost(Seq::empty()) }
    }

    /// Takes the next line. Returns the port to deliver: the port of this
    /// line where it is the first to announce one, and `None` otherwise.
    pub fn observe(&mut self, line: &str) -> (deliver: Option<u16>)
        ensures
            final(self).lines() == old(self).lines().push(line@),
            final(self).port() == first_port(final(self).lines()),
            deliver == if old(self).port() is Some {
                None
            } else {
                listening_port(line@)
            },
            old(self).port() is Some ==> final(self).port() == old(self).port(),
    {
        proof {
            use_type_invariant(&*self);
            assert(self.seen@.push(line@).drop_last() =~= self.seen@);
        }
        let port = parse_listening_port(line);
        let deliver = if self.found.is_some() {
            None
        } else {
            port
        };
        let found = if self.found.is_some() {
            self.found
        } else {
            port
        };
        *self = PortWatch { found, seen: Ghost(self.seen@.push(line@)) };
        deliver
    }

    /// The port that was found so far.
    pub fn found(&self) -> (r: Option<u16>)
        ensures
            r == self.port(),
            r == first_port(self.lines()),
    {
        proof {
            use_type_invariant(self);
        }
        self.found
    }
}

/// The port of a whole stream: that of its first announcing line.
pub fn first_listening_port(lines: &Vec<String>) -> (r: Option<u16>)
    ensures
        r == first_port(lines.deep_view()),
{
    let mut i: usize = 0;
    assert(lines.deep_view().take(0) =~= Seq::<Seq<char>>::empty());
    while i < lines.len()
        invariant
            i <= lines.len(),
            first_port(lines.deep_view().take(i as int)) is None,
        decreases lines.len() - i,
    {
        let port = parse_listening_port(lines[i].as_str());
        proof {
            let t = lines.deep_view().take(i + 1);
            assert(t.drop_last() == lines.deep_view().take(i as int));
            assert(t.last() == lines@[i as int]@);
            if port is Some {
                lemma_first_port_stays(t, lines.deep_view().skip(i + 1));
                assert(t + lines.deep_view().skip(i + 1) == lines.deep_view());
            }
        }
        if port.is_some() {
            return port;
        }
        i += 1;
    }
    assert(lines.deep_view().take(i as int) == lines.deep_view());
    None
}

/// Once a port is announced, no further line changes it: only the first
/// announced port of a stream is used.
pub proof fn lemma_first_port_stays(lines: Seq<Seq<char>>, more: Seq<Seq<char>>)
    requires
        first_port(lines) is Some,
    ensures
        first_port(lines + more) == first_port(lines),
    decreases more.len(),
{
    if more.len() == 0 {
        assert(lines + more == lines);
    } else {
        lemma_first_port_stays(lines, more.drop_last());
        assert((lines + more).drop_last() == lines + more.drop_last());
    }
}

} // verus!
