//! Deep links: the actions that a link into the application asks for.

use crate::text::{chars_of, copy_range, same_text, string_of};
use vstd::prelude::*;

verus! {

/// A link, taken apart: its scheme, its path, and the pairs of its query in
/// their order.
#[derive(Debug, PartialEq, Eq)]
pub struct LinkUrl {
    pub scheme: String,
    pub path: String,
    pub query: Vec<(String, String)>,
}

/// What a link asks the application to do.
#[derive(Debug, PartialEq, Eq)]
pub enum DeepLinkAction {
    /// Open the project in `directory`, and in it the session `session` if
    /// one is named.
    OpenProject { directory: String, session: Option<String> },
}

/// What a [`DeepLinkAction`] holds, as sequences of characters.
pub enum DeepLinkActionView {
    OpenProject { directory: Seq<char>, session: Option<Seq<char>> },
}

impl View for DeepLinkAction {
    type V = DeepLinkActionView;

    open spec fn view(&self) -> DeepLinkActionView {
        match self {
            DeepLinkAction::OpenProject { directory, session } => DeepLinkActionView::OpenProject {
                directory: directory@,
                session: match session {
                    Some(s) => Some(s@),
                    None => None,
                },
            },
        }
    }
}

impl Clone for DeepLinkAction {
    fn clone(&self) -> (r: DeepLinkAction)
        ensures
            r@ == self@,
    {
        match self {
            DeepLinkAction::OpenProject { directory, session } => DeepLinkAction::OpenProject {
                directory: directory.clone(),
                session: match session {
                    Some(s) => Some(s.clone()),
                    None => None,
                },
            },
        }
    }
}

/// `s` without the slashes at its start.
pub open spec fn without_slashes(s: Seq<char>) -> Seq<char>
    decreases s.len(),
{
    if s.len() > 0 && s[0] == '/' {
        without_slashes(s.drop_first())
    } else {
        s
    }
}

/// The value of `key` in the query `query`: that of the last pair with this
/// key.
pub open spec fn value_of(query: Seq<(String, String)>, key: Seq<char>) -> Option<Seq<char>>
    decreases query.len(),
{
    if query.len() == 0 {
        None
    } else if query.last().0@ == key {
        Some(query.last().1@)
    } else {
        value_of(query.drop_last(), key)
    }
}

/// The action that a link asks for: a link of the scheme `opencode` whose
/// path, slashes at its start aside, is `open-project`, and whose query
/// names a directory, asks to open that project.
pub open spec fn action_of(
    scheme: Seq<char>,
    path: Seq<char>,
    query: Seq<(String, String)>,
) -> Option<DeepLinkActionView> {
    if scheme != "opencode"@ {
        None
    } else if without_slashes(path) != "open-project"@ {
        None
    } else {
        match value_of(query, "directory"@) {
            None => None,
            Some(directory) => Some(
                DeepLinkActionView::OpenProject {
                    directory,
                    session: value_of(query, "session"@),
                },
            ),
        }
    }
}

/// The view of an action that may be absent.
pub open spec fn action_view(r: Option<DeepLinkAction>) -> Option<DeepLinkActionView> {
    match r {
        Some(a) => Some(a@),
        None => None,
    }
}

proof fn lemma_without_slashes(s: Seq<char>, i: int)
    requires
        0 <= i <= s.len(),
        forall|k: int| 0 <= k < i ==> #[trigger] s[k] == '/',
    ensures
        without_slashes(s) == without_slashes(s.skip(i)),
    decreases i,
{
    if i == 0 {
        assert(s.skip(0) == s);
    } else {
        lemma_without_slashes(s, i - 1);
        let t = s.skip(i - 1);
        assert(t[0] == s[i - 1]);
        assert(t.drop_first() == s.skip(i));
    }
}

fn is_text(s: &str, wanted: &str) -> (r: bool)
    ensures
        r == (s@ == wanted@),
{
    let a = chars_of(s);
    let b = chars_of(wanted);
    same_text(a.as_slice(), b.as_slice())
}

fn lookup(query: &Vec<(String, String)>, key: &str) -> (r: Option<String>)
    ensures
        match r {
            Some(v) => value_of(query@, key@) == Some(v@),
            None => value_of(query@, key@) is None,
        },
{
    let mut i: usize = query.len();
    assert(query@.take(i as int) == query@);
    while i > 0
        invariant
            i <= query.len(),
            value_of(query@, key@) == value_of(query@.take(i as int), key@),
        decreases i,
    {
        i -= 1;
        proof {
            let t = query@.take(i + 1);
            assert(t.last() == query@[i as int]);
            assert(t.drop_last() == query@.take(i as int));
        }
        if is_text(query[i].0.as_str(), key) {
            return Some(query[i].1.clone());
        }
    }
    None
}

impl DeepLinkAction {
    /// Reads the action that a link asks for; `None` for a link that asks
    /// for none.
    pub fn from_url(url: &LinkUrl) -> (r: Option<DeepLinkAction>)
        ensures
            action_view(r) == action_of(url.scheme@, url.path@, url.query@),
    {
        if !is_text(url.scheme.as_str(), "opencode") {
            return None;
        }
        let path = chars_of(url.path.as_str());
        let mut i: usize = 0;
        while i < path.len() && path[i] == '/'
            invariant
                i <= path.len(),
                forall|k: int| 0 <= k < i ==> #[trigger] path@[k] == '/',
            decreases path.len() - i,
        {
            i += 1;
        }
        proof {
            lemma_without_slashes(path@, i as int);
        }
        let action = string_of(copy_range(path.as_slice(), i, path.len()).as_slice());
        if !is_text(action.as_str(), "open-project") {
            return None;
        }
        let directory = match lookup(&url.query, "directory") {
            Some(d) => d,
            None => {
                return None;
            },
        };
        let session = lookup(&url.query, "session");
        Some(DeepLinkAction::OpenProject { directory, session })
    }
}

} // verus!
