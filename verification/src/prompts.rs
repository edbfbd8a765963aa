//! The prompts in flight: each prompt that was shown to the user waits
//! under its id for one reply.

use crate::envelope::{bytes_view, read, read_prompt, write_reply, written};
use crate::text::{chars_of, same_text};
use crate::token::{fresh_token, is_token};
use vstd::prelude::*;

verus! {

/// The seconds that a prompt waits for its reply.
pub const PROMPT_TIMEOUT_SECS: u64 = 120;

/// A prompt as it is shown to the user: the prompt's text under the id
/// that its reply has to name.
#[derive(Debug, PartialEq, Eq)]
pub struct SshPrompt {
    pub id: String,
    pub prompt: String,
}

/// What an [`SshPrompt`] holds, as sequences of characters.
pub struct SshPromptView {
    pub id: Seq<char>,
    pub prompt: Seq<char>,
}

impl View for SshPrompt {
    type V = SshPromptView;

    open spec fn view(&self) -> SshPromptView {
        SshPromptView { id: self.id@, prompt: self.prompt@ }
    }
}

impl Clone for SshPrompt {
    fn clone(&self) -> (r: SshPrompt)
        ensures
            r@ == self@,
    {
        SshPrompt { id: self.id.clone(), prompt: self.prompt.clone() }
    }
}

/// The map that the entries `entries` make: each id with its value, a
/// later entry before an earlier one of the same id.
pub open spec fn map_of<T>(entries: Seq<(String, T)>) -> Map<Seq<char>, T>
    decreases entries.len(),
{
    if entries.len() == 0 {
        Map::empty()
    } else {
        map_of(entries.drop_last()).insert(entries.last().0@, entries.last().1)
    }
}

/// No two of the entries `entries` have the same id.
pub open spec fn distinct_ids<T>(entries: Seq<(String, T)>) -> bool {
    forall|i: int, j: int|
        0 <= i < j < entries.len() ==> (#[trigger] entries[i]).0@ != (#[trigger] entries[j]).0@
}

proof fn lemma_map_of_keys<T>(entries: Seq<(String, T)>, id: Seq<char>)
    ensures
        map_of(entries).contains_key(id) <==> exists|i: int|
            0 <= i < entries.len() && (#[trigger] entries[i]).0@ == id,
    decreases entries.len(),
{
    if entries.len() > 0 {
        let head = entries.drop_last();
        lemma_map_of_keys(head, id);
        if map_of(entries).contains_key(id) {
            if entries.last().0@ == id {
                assert(entries[entries.len() - 1].0@ == id);
            } else {
                let i = choose|i: int| 0 <= i < head.len() && (#[trigger] head[i]).0@ == id;
                assert(entries[i].0@ == id);
            }
        }
        if exists|i: int| 0 <= i < entries.len() && (#[trigger] entries[i]).0@ == id {
            let i = choose|i: int| 0 <= i < entries.len() && (#[trigger] entries[i]).0@ == id;
            if i < head.len() {
                assert(head[i].0@ == id);
            }
        }
    }
}

proof fn lemma_map_of_value<T>(entries: Seq<(String, T)>, i: int)
    requires
        distinct_ids(entries),
        0 <= i < entries.len(),
    ensures
        map_of(entries).contains_key(entries[i].0@),
        map_of(entries)[entries[i].0@] == entries[i].1,
    decreases entries.len(),
{
    let head = entries.drop_last();
    if i < entries.len() - 1 {
        assert(distinct_ids(head)) by {
            assert forall|a: int, b: int| 0 <= a < b < head.len() implies (#[trigger] head[a]).0@
                != (#[trigger] head[b]).0@ by {
                assert(head[a] == entries[a] && head[b] == entries[b]);
            }
        }
        lemma_map_of_value(head, i);
        assert(head[i] == entries[i]);
        assert(entries[i].0@ != entries[entries.len() - 1].0@);
    }
}

proof fn lemma_map_of_remove<T>(entries: Seq<(String, T)>, i: int)
    requires
        distinct_ids(entries),
        0 <= i < entries.len(),
    ensures
        distinct_ids(entries.remove(i)),
        map_of(entries.remove(i)) == map_of(entries).remove(entries[i].0@),
    decreases entries.len(),
{
    let rest = entries.remove(i);
    assert(distinct_ids(rest)) by {
        assert forall|a: int, b: int| 0 <= a < b < rest.len() implies (#[trigger] rest[a]).0@ != (
        #[trigger] rest[b]).0@ by {
            let a2 = if a < i {
                a
            } else {
                a + 1
            };
            let b2 = if b < i {
                b
            } else {
                b + 1
            };
            assert(rest[a] == entries[a2] && rest[b] == entries[b2]);
        }
    }
    let head = entries.drop_last();
    if i == entries.len() - 1 {
        assert(rest =~= head);
        lemma_map_of_keys(head, entries[i].0@);
        if map_of(head).contains_key(entries[i].0@) {
            let k = choose|k: int| 0 <= k < head.len() && (#[trigger] head[k]).0@ == entries[i].0@;
            assert(head[k] == entries[k]);
        }
        assert(map_of(head) =~= map_of(entries).remove(entries[i].0@));
    } else {
        assert(distinct_ids(head)) by {
            assert forall|a: int, b: int| 0 <= a < b < head.len() implies (#[trigger] head[a]).0@
                != (#[trigger] head[b]).0@ by {
                assert(head[a] == entries[a] && head[b] == entries[b]);
            }
        }
        lemma_map_of_remove(head, i);
        assert(head[i] == entries[i]);
        assert(rest.drop_last() =~= head.remove(i));
        assert(rest.last() == entries.last());
        assert(entries[i].0@ != entries[entries.len() - 1].0@);
        assert(map_of(rest) =~= map_of(entries).remove(entries[i].0@));
    }
}

/// The table of the prompts in flight: under the id of each prompt, what
/// its reply is handed to. No id stands in it twice.
pub struct PromptTable<T> {
    entries: Vec<(String, T)>,
}

impl<T> PromptTable<T> {
    /// The invariant of the table: no id stands in it twice.
    pub closed spec fn wf(&self) -> bool {
        distinct_ids(self.entries@)
    }

    /// The prompts in flight: each id with what its reply is handed to.
    pub closed spec fn view(&self) -> Map<Seq<char>, T> {
        map_of(self.entries@)
    }

    /// A table without prompts.
    pub fn new() -> (r: PromptTable<T>)
        ensures
            r.wf(),
            r@ == Map::<Seq<char>, T>::empty(),
    {
        PromptTable { entries: Vec::new() }
    }

    fn position(&self, id: &str) -> (r: Option<usize>)
        ensures
            match r {
                Some(i) => i < self.entries@.len() && self.entries@[i as int].0@ == id@,
                None => !self@.contains_key(id@),
            },
    {
        let wanted = chars_of(id);
        let mut i: usize = 0;
        while i < self.entries.len()
            invariant
                i <= self.entries.len(),
                wanted@ == id@,
                forall|k: int| 0 <= k < i ==> (#[trigger] self.entries@[k]).0@ != id@,
            decreases self.entries.len() - i,
        {
            let key = chars_of(self.entries[i].0.as_str());
            if same_text(key.as_slice(), wanted.as_slice()) {
                return Some(i);
            }
            i += 1;
        }
        proof {
            lemma_map_of_keys(self.entries@, id@);
        }
        None
    }

    /// Whether a prompt waits under `id`.
    pub fn contains(&self, id: &str) -> (r: bool)
        ensures
            r == self@.contains_key(id@),
    {
        match self.position(id) {
            Some(i) => {
                proof {
                    lemma_map_of_keys(self.entries@, id@);
                }
                true
            },
            None => false,
        }
    }

    /// The number of prompts in flight.
    pub fn len(&self) -> (r: usize)
        requires
            self.wf(),
        ensures
            r == self@.dom().len(),
            self@.dom().finite(),
    {
        proof {
            lemma_map_of_len(self.entries@);
        }
        self.entries.len()
    }

    /// Takes the entry of `id` out of the table, if it has one.
    ///
    /// Afterwards no prompt waits under `id`, so that a second reply to
    /// the same prompt finds nothing; every other prompt is untouched.
    pub fn remove(&mut self, id: &str) -> (taken: Option<T>)
        requires
            old(self).wf(),
        ensures
            final(self).wf(),
            final(self)@ == old(self)@.remove(id@),
            taken == if old(self)@.contains_key(id@) {
                Some(old(self)@[id@])
            } else {
                None
            },
    {
        match self.position(id) {
            Some(i) => {
                proof {
                    lemma_map_of_value(self.entries@, i as int);
                    lemma_map_of_remove(self.entries@, i as int);
                }
                let entry = self.entries.remove(i);
                Some(entry.1)
            },
            None => {
                assert(self@ =~= self@.remove(id@));
                None
            },
        }
    }

    /// Puts `reply` under `id`, in place of what stood there.
    pub fn insert(&mut self, id: String, reply: T)
        requires
            old(self).wf(),
        ensures
            final(self).wf(),
            final(self)@ == old(self)@.insert(id@, reply),
    {
        let ghost before = self@;
        let _ = self.remove(id.as_str());
        proof {
            lemma_map_of_keys(self.entries@, id@);
        }
        let ghost entries = self.entries@;
        self.entries.push((id, reply));
        proof {
            assert(self.entries@.drop_last() =~= entries);
            assert(self@ =~= before.insert(id@, reply));
            assert forall|a: int, b: int| 0 <= a < b < self.entries@.len() implies (
            #[trigger] self.entries@[a]).0@ != (#[trigger] self.entries@[b]).0@ by {
                if b < entries.len() {
                    assert(self.entries@[a] == entries[a] && self.entries@[b] == entries[b]);
                } else {
                    assert(self.entries@[a] == entries[a]);
                }
            }
        }
    }

    /// Opens a prompt: puts `reply` into the table under a new id, and
    /// returns the prompt to show to the user. The entry stands in the table
    /// before the prompt is shown.
    pub fn open(&mut self, prompt: String, reply: T) -> (event: SshPrompt)
        requires
            old(self).wf(),
        ensures
            final(self).wf(),
            is_token(event.id@),
            event.prompt@ == prompt@,
            final(self)@ == old(self)@.insert(event.id@, reply),
    {
        let id = fresh_token();
        self.insert(id.clone(), reply);
        SshPrompt { id, prompt }
    }
}

proof fn lemma_map_of_len<T>(entries: Seq<(String, T)>)
    requires
        distinct_ids(entries),
    ensures
        map_of(entries).dom().finite(),
        map_of(entries).dom().len() == entries.len(),
    decreases entries.len(),
{
    if entries.len() > 0 {
        let head = entries.drop_last();
        assert(distinct_ids(head)) by {
            assert forall|a: int, b: int| 0 <= a < b < head.len() implies (#[trigger] head[a]).0@
                != (#[trigger] head[b]).0@ by {
                assert(head[a] == entries[a] && head[b] == entries[b]);
            }
        }
        lemma_map_of_len(head);
        lemma_map_of_keys(head, entries.last().0@);
        if map_of(head).contains_key(entries.last().0@) {
            let k = choose|k: int|
                0 <= k < head.len() && (#[trigger] head[k]).0@ == entries.last().0@;
            assert(head[k] == entries[k]);
            assert(entries[k].0@ != entries[entries.len() - 1].0@);
        }
        assert(map_of(entries).dom() =~= map_of(head).dom().insert(entries.last().0@));
    } else {
        assert(map_of(entries).dom() =~= Set::<Seq<char>>::empty());
    }
}

/// How the wait for a reply ended.
#[derive(Debug, PartialEq, Eq)]
pub enum Waited {
    /// The user replied.
    Replied(String),
    /// The reply did not come in time.
    TimedOut,
    /// What the reply was to be handed to is gone.
    Dropped,
}

/// The value that is sent back to the helper: the reply where the user
/// gave one, and the empty text otherwise.
pub open spec fn reply_of(waited: Waited) -> Seq<char> {
    match waited {
        Waited::Replied(value) => value@,
        Waited::TimedOut => Seq::empty(),
        Waited::Dropped => Seq::empty(),
    }
}

/// Chooses the value that is sent back to the helper.
pub fn reply_value(waited: Waited) -> (r: String)
    ensures
        r@ == reply_of(waited),
{
    match waited {
        Waited::Replied(value) => value,
        Waited::TimedOut => String::new(),
        Waited::Dropped => String::new(),
    }
}

/// The first half of one exchange with the helper: reads the prompt from
/// the bytes that the helper sent and opens it.
///
/// Where the bytes carry a prompt, the prompt stands in the table under a
/// new id and is returned, to be shown to the user. Where they do not, the
/// table is unchanged and nothing is returned: the connection is dropped.
pub fn begin_prompt<T>(table: &mut PromptTable<T>, bytes: &[u8], reply: T) -> (event: Option<
    SshPrompt,
>)
    requires
        old(table).wf(),
    ensures
        final(table).wf(),
        match event {
            Some(e) => read(bytes@) == Ok::<Seq<char>, Seq<char>>(e.prompt@) && is_token(e.id@)
                && final(table)@ == old(table)@.insert(e.id@, reply),
            None => read(bytes@) is Err && final(table)@ == old(table)@,
        },
{
    match read_prompt(bytes) {
        Ok(prompt) => Some(table.open(prompt, reply)),
        Err(_) => None,
    }
}

/// The second half of one exchange with the helper: closes the prompt `id`
/// and frames the value to send back.
///
/// Afterwards no prompt waits under `id`. The bytes to send carry the
/// user's reply, or the empty text where none came; nothing is sent where
/// the reply is too long for an envelope.
pub fn finish_prompt<T>(table: &mut PromptTable<T>, id: &str, waited: Waited) -> (bytes: Result<
    Vec<u8>,
    String,
>)
    requires
        old(table).wf(),
    ensures
        final(table).wf(),
        final(table)@ == old(table)@.remove(id@),
        bytes_view(bytes) == written(reply_of(waited)),
{
    let value = reply_value(waited);
    let _ = table.remove(id);
    write_reply(value.as_str())
}

/// A reply is consumed at most once: after the entry of an id was taken,
/// the table holds none for it, so that a second reply finds nothing and
/// changes nothing.
pub proof fn lemma_reply_once<T>(table: Map<Seq<char>, T>, id: Seq<char>)
    ensures
        !table.remove(id).contains_key(id),
        table.remove(id).remove(id) == table.remove(id),
{
    assert(table.remove(id).remove(id) =~= table.remove(id));
}

} // verus!
