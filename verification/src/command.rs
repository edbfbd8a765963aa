//! The command parser: from the `ssh` command line that the user typed to
//! the destination and the options that are safe to hand on.

use crate::text::{chars_of, copy_range, has_prefix, string_of, strip_prefix, trim, trimmed};
use vstd::prelude::*;

verus! {

/// A parsed `ssh` invocation: the options to hand on, in order, and the one
/// destination (`[user@]host`).
#[derive(Debug, PartialEq, Eq)]
pub struct Spec {
    pub destination: String,
    pub args: Vec<String>,
}

/// What a [`Spec`] holds, as sequences of characters.
pub struct SpecView {
    pub destination: Seq<char>,
    pub args: Seq<Seq<char>>,
}

impl View for Spec {
    type V = SpecView;

    open spec fn view(&self) -> SpecView {
        SpecView { destination: self.destination@, args: self.args.deep_view() }
    }
}

impl Clone for Spec {
    fn clone(&self) -> (r: Spec)
        ensures
            r@ == self@,
    {
        let mut args: Vec<String> = Vec::new();
        let mut i: usize = 0;
        while i < self.args.len()
            invariant
                i <= self.args.len(),
                args.deep_view() == self.args.deep_view().take(i as int),
            decreases self.args.len() - i,
        {
            let ghost before = args.deep_view();
            args.push(self.args[i].clone());
            assert(args.deep_view() =~= before.push(self.args@[i as int]@));
            i += 1;
            assert(self.args.deep_view().take(i as int) =~= before.push(self.args@[i - 1]@));
        }
        assert(self.args.deep_view().take(self.args.len() as int) == self.args.deep_view());
        Spec { destination: self.destination.clone(), args }
    }
}

/// The letters of the options that take no value: `-4 -6 -A -a -C -K -k -X
/// -x -Y -y`.
pub open spec fn is_switch_letter(c: char) -> bool {
    c == '4' || c == '6' || c == 'A' || c == 'a' || c == 'C' || c == 'K' || c == 'k' || c == 'X'
        || c == 'x' || c == 'Y' || c == 'y'
}

/// The letters of the options that take one value: `-B -b -c -D -F -I -i -J
/// -l -m -o -P -p -w`.
pub open spec fn is_value_letter(c: char) -> bool {
    c == 'B' || c == 'b' || c == 'c' || c == 'D' || c == 'F' || c == 'I' || c == 'i' || c == 'J'
        || c == 'l' || c == 'm' || c == 'o' || c == 'P' || c == 'p' || c == 'w'
}

/// `tok` begins with a dash.
pub open spec fn is_flag(tok: Seq<char>) -> bool {
    tok.len() >= 1 && tok[0] == '-'
}

/// `tok` is one of the options that take no value, and nothing more.
pub open spec fn is_switch(tok: Seq<char>) -> bool {
    tok.len() == 2 && tok[0] == '-' && is_switch_letter(tok[1])
}

/// `tok` is `-L` or `-R`, with or without a value attached.
pub open spec fn is_forward(tok: Seq<char>) -> bool {
    tok.len() >= 2 && tok[0] == '-' && (tok[1] == 'L' || tok[1] == 'R')
}

/// `tok` is one of the options that take a value, with or without the
/// value attached.
pub open spec fn is_value_flag(tok: Seq<char>) -> bool {
    tok.len() >= 2 && tok[0] == '-' && is_value_letter(tok[1])
}

/// The error for a command line that holds no word.
pub open spec fn msg_empty() -> Seq<char> {
    "SSH command is empty"@
}

/// The error for a command line that the word splitter rejects.
pub open spec fn msg_invalid() -> Seq<char> {
    "Invalid SSH command: "@ + "missing closing quote"@
}

/// The error for a word behind the destination.
pub open spec fn msg_remote_command() -> Seq<char> {
    "SSH command cannot include a remote command; only destination + options are supported"@
}

/// The error for `-L` and `-R`.
pub open spec fn msg_forward() -> Seq<char> {
    "SSH port forwarding flags (-L/-R) are not supported yet"@
}

/// The error for an option outside the two lists.
pub open spec fn msg_unsupported(tok: Seq<char>) -> Seq<char> {
    "Unsupported ssh argument: "@ + tok
}

/// The error for a command line without a destination.
pub open spec fn msg_missing() -> Seq<char> {
    "Missing ssh destination (e.g. user@host)"@
}

/// What the words `tokens` from index `i` on parse to, `args` being the
/// options that the words before `i` gave.
///
/// A switch is kept. `-L` and `-R` are refused. An option that takes a
/// value is kept, and where it stands alone the next word is kept with it,
/// whatever that word is. Any other word that begins with a dash is
/// refused. The first word that is none of these is the destination, and
/// it must be the last word.
pub open spec fn parse_from(tokens: Seq<Seq<char>>, i: int, args: Seq<Seq<char>>) -> Result<
    SpecView,
    Seq<char>,
>
    decreases tokens.len() - i,
{
    if i < 0 || i >= tokens.len() {
        Err(msg_missing())
    } else {
        let tok = tokens[i];
        if is_switch(tok) {
            parse_from(tokens, i + 1, args.push(tok))
        } else if is_forward(tok) {
            Err(msg_forward())
        } else if is_value_flag(tok) {
            if tok.len() == 2 && i + 1 < tokens.len() {
                parse_from(tokens, i + 2, args.push(tok).push(tokens[i + 1]))
            } else {
                parse_from(tokens, i + 1, args.push(tok))
            }
        } else if is_flag(tok) {
            Err(msg_unsupported(tok))
        } else if i + 1 < tokens.len() {
            Err(msg_remote_command())
        } else {
            Ok(SpecView { destination: tok, args })
        }
    }
}

/// What the words of a command line parse to.
pub open spec fn parse_words(tokens: Seq<Seq<char>>) -> Result<SpecView, Seq<char>> {
    parse_from(tokens, 0, Seq::empty())
}

/// The options `args` from index `i` on are made of allowed options only:
/// switches, options with their value attached, and options followed by
/// their value.
pub open spec fn allowed_from(args: Seq<Seq<char>>, i: int) -> bool
    decreases args.len() - i,
{
    if i < 0 || i >= args.len() {
        true
    } else if is_switch(args[i]) {
        allowed_from(args, i + 1)
    } else if is_value_flag(args[i]) && !is_forward(args[i]) {
        if args[i].len() == 2 {
            i + 1 < args.len() && allowed_from(args, i + 2)
        } else {
            allowed_from(args, i + 1)
        }
    } else {
        false
    }
}

impl SpecView {
    /// The invariant of a parsed invocation: allowed options only, and a
    /// destination that is no option.
    pub open spec fn wf(self) -> bool {
        allowed_from(self.args, 0) && !is_flag(self.destination)
    }
}

/// The result of the parser, by its views.
pub open spec fn outcome(r: Result<Spec, String>) -> Result<SpecView, Seq<char>> {
    match r {
        Ok(spec) => Ok(spec@),
        Err(e) => Err(e@),
    }
}

/// The words that `shell_words::split` makes of a command line: `None` where
/// it reports an error.
pub uninterp spec fn shell_split(input: Seq<char>) -> Option<Seq<Seq<char>>>;

/// `shell_words::ParseError`, the error of `shell_words::split`. Nothing is
/// known of a value of it but the text that it displays.
#[verifier::external_type_specification]
#[verifier::external_body]
pub struct ExParseError(shell_words::ParseError);

/// `shell_words::split`: splits a command line into words as a POSIX shell
/// does, and fails on an unmatched quote. The contract only names the
/// result; the function reads nothing but its argument.
#[verifier::external_body]
fn split_words(input: &str) -> (r: Result<Vec<String>, shell_words::ParseError>)
    ensures
        match r {
            Ok(words) => shell_split(input@) == Some(words.deep_view()),
            Err(_) => shell_split(input@) is None,
        },
{
    shell_words::split(input)
}

/// The text of a `shell_words::ParseError`. Its `Display` writes the one
/// fixed message "missing closing quote".
#[verifier::external_body]
fn split_error_text(e: &shell_words::ParseError) -> (s: String)
    ensures
        s@ == "missing closing quote"@,
{
    e.to_string()
}

/// What a command line parses to.
///
/// The line is trimmed, a leading `ssh ` is dropped, the rest is split
/// into words, and the words are parsed.
pub open spec fn parse_command(input: Seq<char>) -> Result<SpecView, Seq<char>> {
    let trimmed = trim(input);
    if trimmed.len() == 0 {
        Err(msg_empty())
    } else {
        let line = match strip_prefix(trimmed, "ssh "@) {
            Some(rest) => rest,
            None => trimmed,
        };
        match shell_split(line) {
            None => Err(msg_invalid()),
            Some(tokens) => if tokens.len() == 0 {
                Err(msg_empty())
            } else {
                parse_words(tokens)
            },
        }
    }
}

proof fn lemma_allowed_push(args: Seq<Seq<char>>, i: int, tok: Seq<char>)
    requires
        0 <= i <= args.len(),
        allowed_from(args, i),
        is_switch(tok) || (is_value_flag(tok) && !is_forward(tok) && tok.len() > 2),
    ensures
        allowed_from(args.push(tok), i),
    decreases args.len() - i,
{
    let ext = args.push(tok);
    if i == args.len() {
        assert(allowed_from(ext, i + 1));
    } else {
        assert(ext[i] == args[i]);
        if is_switch(args[i]) {
            lemma_allowed_push(args, i + 1, tok);
        } else if args[i].len() == 2 {
            assert(ext[i + 1] == args[i + 1]);
            lemma_allowed_push(args, i + 2, tok);
        } else {
            lemma_allowed_push(args, i + 1, tok);
        }
    }
}

proof fn lemma_allowed_push_pair(args: Seq<Seq<char>>, i: int, tok: Seq<char>, value: Seq<char>)
    requires
        0 <= i <= args.len(),
        allowed_from(args, i),
        is_value_flag(tok) && !is_forward(tok) && tok.len() == 2,
    ensures
        allowed_from(args.push(tok).push(value), i),
    decreases args.len() - i,
{
    let ext = args.push(tok).push(value);
    if i == args.len() {
        assert(ext[i] == tok);
        assert(allowed_from(ext, i + 2));
    } else {
        assert(ext[i] == args[i]);
        if is_switch(args[i]) {
            lemma_allowed_push_pair(args, i + 1, tok, value);
        } else if args[i].len() == 2 {
            assert(ext[i + 1] == args[i + 1]);
            lemma_allowed_push_pair(args, i + 2, tok, value);
        } else {
            lemma_allowed_push_pair(args, i + 1, tok, value);
        }
    }
}

proof fn lemma_parse_from_wf(tokens: Seq<Seq<char>>, i: int, args: Seq<Seq<char>>)
    requires
        0 <= i,
        allowed_from(args, 0),
    ensures
        parse_from(tokens, i, args) matches Ok(spec) ==> spec.wf(),
    decreases tokens.len() - i,
{
    if i < tokens.len() {
        let tok = tokens[i];
        if is_switch(tok) {
            lemma_allowed_push(args, 0, tok);
            lemma_parse_from_wf(tokens, i + 1, args.push(tok));
        } else if is_forward(tok) {
        } else if is_value_flag(tok) {
            if tok.len() == 2 && i + 1 < tokens.len() {
                lemma_allowed_push_pair(args, 0, tok, tokens[i + 1]);
                lemma_parse_from_wf(tokens, i + 2, args.push(tok).push(tokens[i + 1]));
            } else if tok.len() == 2 {
                // The option stands last: no destination follows.
                assert(parse_from(tokens, i + 1, args.push(tok)) is Err);
            } else {
                lemma_allowed_push(args, 0, tok);
                lemma_parse_from_wf(tokens, i + 1, args.push(tok));
            }
        }
    }
}

proof fn lemma_parse_from_keeps(tokens: Seq<Seq<char>>, i: int, args: Seq<Seq<char>>)
    requires
        0 <= i <= tokens.len(),
        args == tokens.take(i),
    ensures
        parse_from(tokens, i, args) matches Ok(spec) ==> spec.args.push(spec.destination)
            == tokens,
    decreases tokens.len() - i,
{
    if i < tokens.len() {
        let tok = tokens[i];
        if is_switch(tok) {
            assert(args.push(tok) == tokens.take(i + 1));
            lemma_parse_from_keeps(tokens, i + 1, args.push(tok));
        } else if is_forward(tok) {
        } else if is_value_flag(tok) {
            if tok.len() == 2 && i + 1 < tokens.len() {
                assert(args.push(tok).push(tokens[i + 1]) == tokens.take(i + 2));
                lemma_parse_from_keeps(tokens, i + 2, args.push(tok).push(tokens[i + 1]));
            } else {
                assert(args.push(tok) == tokens.take(i + 1));
                lemma_parse_from_keeps(tokens, i + 1, args.push(tok));
            }
        } else if is_flag(tok) {
        } else if i + 1 < tokens.len() {
        } else {
            assert(args.push(tok) == tokens);
        }
    }
}

/// Every parse either fails or gives an invocation that meets its
/// invariant: allowed options only, and one destination that is no option.
pub proof fn lemma_parse_words_wf(tokens: Seq<Seq<char>>)
    ensures
        parse_words(tokens) matches Ok(spec) ==> spec.wf(),
{
    lemma_parse_from_wf(tokens, 0, Seq::empty());
}

/// A parse that succeeds drops no word and adds none: the options followed
/// by the destination are the words that were parsed, in their order.
pub proof fn lemma_parse_words_keeps(tokens: Seq<Seq<char>>)
    ensures
        parse_words(tokens) matches Ok(spec) ==> spec.args.push(spec.destination) == tokens,
{
    assert(tokens.take(0) == Seq::<Seq<char>>::empty());
    lemma_parse_from_keeps(tokens, 0, Seq::empty());
}

/// `e` is one of the errors with which a command line is refused.
pub open spec fn is_refusal(e: Seq<char>) -> bool {
    ||| e == msg_empty()
    ||| e == msg_invalid()
    ||| e == msg_remote_command()
    ||| e == msg_forward()
    ||| e == msg_missing()
    ||| exists|tok: Seq<char>| is_flag(tok) && e == #[trigger] msg_unsupported(tok)
}

proof fn lemma_parse_from_refusal(tokens: Seq<Seq<char>>, i: int, args: Seq<Seq<char>>)
    requires
        0 <= i,
    ensures
        parse_from(tokens, i, args) matches Err(e) ==> is_refusal(e),
    decreases tokens.len() - i,
{
    if i < tokens.len() {
        let tok = tokens[i];
        if is_switch(tok) {
            lemma_parse_from_refusal(tokens, i + 1, args.push(tok));
        } else if is_forward(tok) {
        } else if is_value_flag(tok) {
            if tok.len() == 2 && i + 1 < tokens.len() {
                lemma_parse_from_refusal(tokens, i + 2, args.push(tok).push(tokens[i + 1]));
            } else {
                lemma_parse_from_refusal(tokens, i + 1, args.push(tok));
            }
        } else if is_flag(tok) {
            assert(is_flag(tok) && msg_unsupported(tok) == msg_unsupported(tok));
        }
    }
}

/// The parser is total: every command line either gives an invocation that
/// meets its invariant, allowed options only and one destination, or is
/// refused with one of the parser's errors.
pub proof fn lemma_parse_command_total(input: Seq<char>)
    ensures
        match parse_command(input) {
            Ok(spec) => spec.wf(),
            Err(e) => is_refusal(e),
        },
{
    let trimmed = trim(input);
    if trimmed.len() != 0 {
        let line = match strip_prefix(trimmed, "ssh "@) {
            Some(rest) => rest,
            None => trimmed,
        };
        match shell_split(line) {
            None => {},
            Some(tokens) => {
                lemma_parse_words_wf(tokens);
                lemma_parse_from_refusal(tokens, 0, Seq::empty());
            },
        }
    }
}

/// The kind of a word of the command line.
enum TokenKind {
    Switch,
    Forward,
    ValueAlone,
    ValueAttached,
    Unsupported,
    Plain,
}

fn is_switch_char(c: char) -> (r: bool)
    ensures
        r == is_switch_letter(c),
{
    c == '4' || c == '6' || c == 'A' || c == 'a' || c == 'C' || c == 'K' || c == 'k' || c == 'X'
        || c == 'x' || c == 'Y' || c == 'y'
}

fn is_value_char(c: char) -> (r: bool)
    ensures
        r == is_value_letter(c),
{
    c == 'B' || c == 'b' || c == 'c' || c == 'D' || c == 'F' || c == 'I' || c == 'i' || c == 'J'
        || c == 'l' || c == 'm' || c == 'o' || c == 'P' || c == 'p' || c == 'w'
}

fn classify(tok: &str) -> (k: TokenKind)
    ensures
        k is Switch <==> is_switch(tok@),
        k is Forward <==> !is_switch(tok@) && is_forward(tok@),
        k is ValueAlone <==> is_value_flag(tok@) && tok@.len() == 2,
        k is ValueAttached <==> is_value_flag(tok@) && tok@.len() > 2,
        k is Unsupported <==> is_flag(tok@) && !is_switch(tok@) && !is_forward(tok@)
            && !is_value_flag(tok@),
        k is Plain <==> !is_flag(tok@),
{
    let chars = chars_of(tok);
    if chars.len() == 0 || chars[0] != '-' {
        TokenKind::Plain
    } else if chars.len() == 1 {
        TokenKind::Unsupported
    } else if chars.len() == 2 && is_switch_char(chars[1]) {
        TokenKind::Switch
    } else if chars[1] == 'L' || chars[1] == 'R' {
        TokenKind::Forward
    } else if is_value_char(chars[1]) {
        if chars.len() == 2 {
            TokenKind::ValueAlone
        } else {
            TokenKind::ValueAttached
        }
    } else {
        TokenKind::Unsupported
    }
}

/// Parses the words of a command line.
///
/// Returns the invocation where the words are allowed options followed by
/// one destination, and otherwise the error of the first word that breaks
/// this, as [`parse_words`] gives it.
pub fn parse_tokens(tokens: &Vec<String>) -> (r: Result<Spec, String>)
    ensures
        outcome(r) == parse_words(tokens.deep_view()),
        r matches Ok(spec) ==> spec@.wf() && spec@.args.push(spec@.destination)
            == tokens.deep_view(),
{
    let ghost words = tokens.deep_view();
    proof {
        lemma_parse_words_wf(words);
        lemma_parse_words_keeps(words);
    }
    let mut args: Vec<String> = Vec::new();
    let mut i: usize = 0;
    assert(args.deep_view() =~= Seq::<Seq<char>>::empty());
    while i < tokens.len()
        invariant
            i <= tokens.len(),
            words == tokens.deep_view(),
            parse_words(words) == parse_from(words, i as int, args.deep_view()),
            parse_words(words) matches Ok(spec) ==> spec.wf() && spec.args.push(spec.destination)
                == words,
        decreases tokens.len() - i,
    {
        let tok = &tokens[i];
        assert(words[i as int] == tok@);
        let ghost before = args.deep_view();
        match classify(tok.as_str()) {
            TokenKind::Switch | TokenKind::ValueAttached => {
                args.push(tok.clone());
                assert(args.deep_view() =~= before.push(tok@));
                i += 1;
            },
            TokenKind::Forward => {
                return Err("SSH port forwarding flags (-L/-R) are not supported yet".to_owned());
            },
            TokenKind::ValueAlone => {
                args.push(tok.clone());
                assert(args.deep_view() =~= before.push(tok@));
                i += 1;
                if i < tokens.len() {
                    let value = &tokens[i];
                    assert(words[i as int] == value@);
                    args.push(value.clone());
                    assert(args.deep_view() =~= before.push(tok@).push(value@));
                    i += 1;
                }
            },
            TokenKind::Unsupported => {
                return Err("Unsupported ssh argument: ".to_owned().concat(tok.as_str()));
            },
            TokenKind::Plain => {
                if i + 1 < tokens.len() {
                    return Err(
                        "SSH command cannot include a remote command; only destination + options are supported".to_owned(),
                    );
                }
                return Ok(Spec { destination: tok.clone(), args });
            },
        }
    }
    Err("Missing ssh destination (e.g. user@host)".to_owned())
}

/// Parses the `ssh` command line that the user typed.
///
/// Returns what [`parse_command`] gives for the line: the invocation, or
/// the error that says why the line is refused. An invocation that is
/// returned holds allowed options only and one destination.
pub fn parse_ssh_command(input: &str) -> (r: Result<Spec, String>)
    ensures
        outcome(r) == parse_command(input@),
        r matches Ok(spec) ==> spec@.wf(),
        r matches Err(e) ==> is_refusal(e@),
{
    proof {
        lemma_parse_command_total(input@);
    }
    let chars = chars_of(input);
    let trimmed = trimmed(chars.as_slice());
    if trimmed.len() == 0 {
        return Err("SSH command is empty".to_owned());
    }
    let prefix = chars_of("ssh ");
    let line = if has_prefix(trimmed.as_slice(), prefix.as_slice()) {
        let rest = copy_range(trimmed.as_slice(), prefix.len(), trimmed.len());
        string_of(rest.as_slice())
    } else {
        string_of(trimmed.as_slice())
    };
    match split_words(line.as_str()) {
        Err(e) => {
            let text = split_error_text(&e);
            Err("Invalid SSH command: ".to_owned().concat(text.as_str()))
        },
        Ok(tokens) => {
            if tokens.len() == 0 {
                return Err("SSH command is empty".to_owned());
            }
            parse_tokens(&tokens)
        },
    }
}

} // verus!
