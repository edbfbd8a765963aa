//! Quoting for the remote shell.

use crate::text::chars_of;
use vstd::prelude::*;

verus! {

/// What stands for one character inside single quotes: a single quote
/// closes the quotes, stands escaped, and opens them again; any other
/// character stands for itself.
pub open spec fn escape_char(c: char) -> Seq<char> {
    if c == '\'' {
        seq!['\'', '\\', '\'', '\'']
    } else {
        seq![c]
    }
}

/// `s` with each of its characters escaped for single quotes.
pub open spec fn escape_quotes(s: Seq<char>) -> Seq<char>
    decreases s.len(),
{
    if s.len() == 0 {
        Seq::empty()
    } else {
        escape_quotes(s.drop_last()) + escape_char(s.last())
    }
}

/// `s` as one word of a POSIX shell: escaped, between single quotes.
pub open spec fn quoted(s: Seq<char>) -> Seq<char> {
    seq!['\''] + escape_quotes(s) + seq!['\'']
}

/// Quotes `input` as one word of a POSIX shell.
pub fn sh_quote(input: &str) -> (r: String)
    ensures
        r@ == quoted(input@),
{
    let chars = chars_of(input);
    let mut r = String::new();
    r.push('\'');
    let mut i: usize = 0;
    assert(chars@.take(0) =~= Seq::<char>::empty());
    assert(r@ =~= seq!['\''] + escape_quotes(chars@.take(0)));
    while i < chars.len()
        invariant
            i <= chars.len(),
            r@ == seq!['\''] + escape_quotes(chars@.take(i as int)),
        decreases chars.len() - i,
    {
        let c = chars[i];
        let ghost before = r@;
        if c == '\'' {
            r.push('\'');
            r.push('\\');
            r.push('\'');
            r.push('\'');
        } else {
            r.push(c);
        }
        assert(r@ =~= before + escape_char(c));
        proof {
            let t = chars@.take(i + 1);
            assert(t.drop_last() == chars@.take(i as int));
            assert(t.last() == c);
            assert(r@ =~= seq!['\''] + escape_quotes(t));
        }
        i += 1;
    }
    assert(chars@.take(i as int) == chars@);
    r.push('\'');
    assert(r@ =~= quoted(input@));
    r
}

/// A quoted word begins and ends with a single quote, and every single
/// quote of the input stands escaped in it: between the outer quotes the
/// word holds four characters for each quote of the input and one for each
/// other character.
pub proof fn lemma_quoted_len(s: Seq<char>)
    ensures
        quoted(s).len() == s.len() + 3 * s.filter(|c: char| c == '\'').len() + 2,
        quoted(s)[0] == '\'',
        quoted(s).last() == '\'',
{
    lemma_escape_len(s);
}

proof fn lemma_escape_len(s: Seq<char>)
    ensures
        escape_quotes(s).len() == s.len() + 3 * s.filter(|c: char| c == '\'').len(),
    decreases s.len(),
{
    let is_quote = |c: char| c == '\'';
    if s.len() == 0 {
        broadcast use vstd::seq_lib::group_filter_ensures;

        assert(s.filter(is_quote).len() == 0);
    } else {
        lemma_escape_len(s.drop_last());
        assert(s == s.drop_last().push(s.last()));
        Seq::filter_distributes_over_add(s.drop_last(), seq![s.last()], is_quote);
        assert(s == s.drop_last() + seq![s.last()]);
        let one = seq![s.last()];
        reveal_with_fuel(Seq::filter, 2);
        assert(one.drop_last() =~= Seq::<char>::empty());
        assert(one.filter(is_quote).len() == if s.last() == '\'' {
            1nat
        } else {
            0nat
        });
    }
}

} // verus!
