//! Proxy bypass: the list of hosts that are never reached through a proxy,
//! made to hold the loopback.

use crate::text::{
    chars_of, copy_range, eq_ignore_case, is_space, join, join_texts, lemma_trim_end_shape,
    lemma_trim_start_shape, push_text, same_ignoring_case, string_of, trim, trim_end, trim_start,
    trimmed,
};
use vstd::prelude::*;

verus! {

/// The parts of `s` between the characters `sep`.
pub open spec fn split(s: Seq<char>, sep: char) -> Seq<Seq<char>>
    decreases s.len(),
{
    if s.len() == 0 {
        seq![Seq::empty()]
    } else {
        let head = split(s.drop_last(), sep);
        if s.last() == sep {
            head.push(Seq::empty())
        } else {
            head.drop_last().push(head.last().push(s.last()))
        }
    }
}

/// The entries among `parts`: each part without the white space around it,
/// the empty ones left out.
pub open spec fn kept(parts: Seq<Seq<char>>) -> Seq<Seq<char>>
    decreases parts.len(),
{
    if parts.len() == 0 {
        Seq::empty()
    } else if trim(parts.last()).len() == 0 {
        kept(parts.drop_last())
    } else {
        kept(parts.drop_last()).push(trim(parts.last()))
    }
}

/// The entries of a list of hosts that is written with commas.
pub open spec fn entries(value: Seq<char>) -> Seq<Seq<char>> {
    kept(split(value, ','))
}

/// `host` is among `items`, the case of ASCII letters aside.
pub open spec fn listed(items: Seq<Seq<char>>, host: Seq<char>) -> bool {
    exists|i: int| 0 <= i < items.len() && eq_ignore_case(#[trigger] items[i], host)
}

/// `items`, and `host` behind them where it is not among them.
pub open spec fn with_host(items: Seq<Seq<char>>, host: Seq<char>) -> Seq<Seq<char>> {
    if listed(items, host) {
        items
    } else {
        items.push(host)
    }
}

/// The three names of the loopback.
pub open spec fn loopback() -> Seq<Seq<char>> {
    seq!["127.0.0.1"@, "localhost"@, "::1"@]
}

/// `items`, and behind them each name of the loopback that is not among
/// them.
pub open spec fn with_loopback(items: Seq<Seq<char>>) -> Seq<Seq<char>> {
    with_host(with_host(with_host(items, loopback()[0]), loopback()[1]), loopback()[2])
}

/// The list of hosts `value` with the loopback in it, written with commas.
pub open spec fn bypass(value: Seq<char>) -> Seq<char> {
    join(with_loopback(entries(value)), ","@)
}

/// Decides whether `host` is among `items`, the case of ASCII letters
/// aside.
pub fn is_listed(items: &Vec<String>, host: &str) -> (r: bool)
    ensures
        r == listed(items.deep_view(), host@),
{
    let wanted = chars_of(host);
    let mut i: usize = 0;
    while i < items.len()
        invariant
            i <= items.len(),
            wanted@ == host@,
            forall|k: int|
                0 <= k < i ==> !eq_ignore_case(#[trigger] items.deep_view()[k], host@),
        decreases items.len() - i,
    {
        let item = chars_of(items[i].as_str());
        assert(items.deep_view()[i as int] == item@);
        if same_ignoring_case(item.as_slice(), wanted.as_slice()) {
            return true;
        }
        i += 1;
    }
    false
}

/// Reads the entries of a list of hosts that is written with commas.
pub fn list_entries(value: &str) -> (items: Vec<String>)
    ensures
        items.deep_view() == entries(value@),
{
    let chars = chars_of(value);
    let mut items: Vec<String> = Vec::new();
    let ghost mut parts: Seq<Seq<char>> = Seq::empty();
    let mut start: usize = 0;
    let mut i: usize = 0;
    proof {
        assert(chars@.take(0) =~= Seq::<char>::empty());
        assert(chars@.subrange(0, 0) =~= Seq::<char>::empty());
        assert(split(chars@.take(0), ',') =~= parts.push(chars@.subrange(0, 0)));
        assert(items.deep_view() =~= kept(parts));
    }
    while i < chars.len()
        invariant
            start <= i <= chars.len(),
            split(chars@.take(i as int), ',') == parts.push(
                chars@.subrange(start as int, i as int),
            ),
            items.deep_view() == kept(parts),
        decreases chars.len() - i,
    {
        let ghost current = chars@.subrange(start as int, i as int);
        proof {
            let t = chars@.take(i + 1);
            assert(t.drop_last() == chars@.take(i as int));
            assert(t.last() == chars@[i as int]);
            assert(parts.push(current).drop_last() =~= parts);
            assert(parts.push(current).last() == current);
        }
        if chars[i] == ',' {
            let part = trimmed(copy_range(chars.as_slice(), start, i).as_slice());
            let ghost before = items.deep_view();
            if part.len() > 0 {
                let text = string_of(part.as_slice());
                push_text(&mut items, text.as_str());
            }
            proof {
                assert(parts.push(current).drop_last() =~= parts);
                assert(items.deep_view() == kept(parts.push(current)));
                parts = parts.push(current);
                assert(chars@.subrange(i + 1, i + 1) =~= Seq::<char>::empty());
            }
            start = i + 1;
        } else {
            proof {
                assert(current.push(chars@[i as int]) =~= chars@.subrange(
                    start as int,
                    i + 1,
                ));
            }
        }
        i += 1;
    }
    let ghost current = chars@.subrange(start as int, i as int);
    assert(chars@.take(i as int) == chars@);
    let part = trimmed(copy_range(chars.as_slice(), start, i).as_slice());
    if part.len() > 0 {
        let text = string_of(part.as_slice());
        push_text(&mut items, text.as_str());
    }
    proof {
        assert(parts.push(current).drop_last() =~= parts);
        assert(items.deep_view() == kept(parts.push(current)));
    }
    items
}

/// Puts the loopback into a list of hosts that are never reached through a
/// proxy.
///
/// Returns the entries of `current` in their order, then `127.0.0.1`,
/// `localhost` and `::1` as far as they are not among them, with commas
/// between.
pub fn no_proxy_value(current: &str) -> (r: String)
    ensures
        r@ == bypass(current@),
{
    let mut items = list_entries(current);
    proof {
        assert(loopback()[0] == "127.0.0.1"@);
        assert(loopback()[1] == "localhost"@);
        assert(loopback()[2] == "::1"@);
    }
    if !is_listed(&items, "127.0.0.1") {
        push_text(&mut items, "127.0.0.1");
    }
    if !is_listed(&items, "localhost") {
        push_text(&mut items, "localhost");
    }
    if !is_listed(&items, "::1") {
        push_text(&mut items, "::1");
    }
    join_texts(&items, ",")
}

proof fn lemma_eq_ignore_case_refl(a: Seq<char>)
    ensures
        eq_ignore_case(a, a),
{
}

proof fn lemma_with_host(items: Seq<Seq<char>>, host: Seq<char>)
    ensures
        listed(with_host(items, host), host),
        items.is_prefix_of(with_host(items, host)),
        forall|other: Seq<char>|
            listed(items, other) ==> #[trigger] listed(with_host(items, host), other),
{
    let next = with_host(items, host);
    if !listed(items, host) {
        lemma_eq_ignore_case_refl(host);
        assert(next[items.len() as int] == host);
    }
    assert forall|other: Seq<char>| listed(items, other) implies #[trigger] listed(
        next,
        other,
    ) by {
        let i = choose|i: int| 0 <= i < items.len() && eq_ignore_case(#[trigger] items[i], other);
        assert(next[i] == items[i]);
    }
}

/// After the loopback is put into a list, each of its three names is in
/// the list, and the entries that were there stand first, in their order.
pub proof fn lemma_loopback_listed(items: Seq<Seq<char>>)
    ensures
        forall|k: int|
            0 <= k < 3 ==> listed(with_loopback(items), #[trigger] loopback()[k]),
        items.is_prefix_of(with_loopback(items)),
{
    let a = with_host(items, loopback()[0]);
    let b = with_host(a, loopback()[1]);
    let c = with_host(b, loopback()[2]);
    lemma_with_host(items, loopback()[0]);
    lemma_with_host(a, loopback()[1]);
    lemma_with_host(b, loopback()[2]);
    assert(listed(b, loopback()[0]));
    assert(listed(c, loopback()[0]));
    assert(listed(c, loopback()[1]));
    assert(listed(c, loopback()[2]));
}

/// A name of the loopback that is in the list already is not added again:
/// what is added holds each of the three names at most once, and only
/// names that were not among the entries.
pub proof fn lemma_loopback_once(items: Seq<Seq<char>>)
    ensures
        with_loopback(items) == items + with_loopback(items).skip(items.len() as int),
        forall|k: int|
            #![trigger loopback()[k]]
            0 <= k < 3 && listed(items, loopback()[k]) ==> !with_loopback(items).skip(
                items.len() as int,
            ).contains(loopback()[k]),
        with_loopback(items).skip(items.len() as int).no_duplicates(),
        forall|j: int|
            0 <= j < with_loopback(items).len() - items.len() ==> loopback().contains(
                #[trigger] with_loopback(items).skip(items.len() as int)[j],
            ),
{
    reveal_strlit("127.0.0.1");
    reveal_strlit("localhost");
    reveal_strlit("::1");
    let h0 = loopback()[0];
    let h1 = loopback()[1];
    let h2 = loopback()[2];
    assert(h0[0] == '1' && h1[0] == 'l' && h2[0] == ':');
    assert(h0 != h1 && h0 != h2 && h1 != h2);
    let a = with_host(items, h0);
    let b = with_host(a, h1);
    let c = with_host(b, h2);
    lemma_with_host(items, h0);
    lemma_with_host(a, h1);
    lemma_with_host(b, h2);
    let added = c.skip(items.len() as int);
    assert(c =~= items + added);
    assert(loopback().contains(h0)) by {
        assert(loopback()[0] == h0);
    }
    assert(loopback().contains(h1)) by {
        assert(loopback()[1] == h1);
    }
    assert(loopback().contains(h2)) by {
        assert(loopback()[2] == h2);
    }
    assert forall|k: int|
        #![trigger loopback()[k]]
        0 <= k < 3 && listed(items, loopback()[k]) implies !added.contains(loopback()[k]) by {
        let h = loopback()[k];
        assert(listed(a, h) && listed(b, h));
        if added.contains(h) {
            let j = choose|j: int| 0 <= j < added.len() && added[j] == h;
            assert(c[items.len() + j] == h);
        }
    }
}

/// Putting the loopback into a list that holds it changes nothing.
pub proof fn lemma_with_loopback_twice(items: Seq<Seq<char>>)
    ensures
        with_loopback(with_loopback(items)) == with_loopback(items),
{
    lemma_loopback_listed(items);
    let done = with_loopback(items);
    assert(listed(done, loopback()[0]));
    assert(listed(done, loopback()[1]));
    assert(listed(done, loopback()[2]));
}

/// `item` can stand in a list as it is: it is not empty, has no white
/// space at its ends, and holds no comma.
pub open spec fn is_entry(item: Seq<char>) -> bool {
    &&& item.len() > 0
    &&& !is_space(item[0])
    &&& !is_space(item.last())
    &&& forall|i: int| 0 <= i < item.len() ==> #[trigger] item[i] != ','
}

/// Each of `items` can stand in a list as it is.
pub open spec fn all_entries(items: Seq<Seq<char>>) -> bool {
    forall|i: int| 0 <= i < items.len() ==> is_entry(#[trigger] items[i])
}

proof fn lemma_split_whole(item: Seq<char>, sep: char)
    requires
        forall|i: int| 0 <= i < item.len() ==> #[trigger] item[i] != sep,
    ensures
        split(item, sep) == seq![item],
    decreases item.len(),
{
    if item.len() == 0 {
        assert(item =~= Seq::<char>::empty());
    } else {
        let head = item.drop_last();
        lemma_split_whole(head, sep);
        assert(item.last() == item[item.len() - 1]);
        assert(head.push(item.last()) =~= item);
        assert(seq![head].drop_last() =~= Seq::<Seq<char>>::empty());
        assert(seq![head].last() == head);
        assert(seq![head].drop_last().push(seq![head].last().push(item.last())) =~= seq![item]);
    }
}

proof fn lemma_split_append(x: Seq<char>, sep: char, item: Seq<char>)
    requires
        forall|i: int| 0 <= i < item.len() ==> #[trigger] item[i] != sep,
    ensures
        split(x + seq![sep] + item, sep) == split(x, sep).push(item),
    decreases item.len(),
{
    let whole = x + seq![sep] + item;
    if item.len() == 0 {
        assert(whole.drop_last() =~= x);
        assert(whole.last() == sep);
        assert(item =~= Seq::<char>::empty());
    } else {
        let head = item.drop_last();
        lemma_split_append(x, sep, head);
        assert(whole.drop_last() =~= x + seq![sep] + head);
        assert(whole.last() == item[item.len() - 1]);
        let before = split(x, sep).push(head);
        assert(before.drop_last() =~= split(x, sep));
        assert(head.push(item.last()) =~= item);
    }
}

proof fn lemma_split_join(items: Seq<Seq<char>>)
    requires
        items.len() > 0,
        all_entries(items),
    ensures
        split(join(items, ","@), ',') == items,
    decreases items.len(),
{
    reveal_strlit(",");
    assert(","@ =~= seq![',']);
    if items.len() == 1 {
        assert(is_entry(items[0]));
        lemma_split_whole(items[0], ',');
        assert(seq![items[0]] =~= items);
    } else {
        let head = items.drop_last();
        assert(all_entries(head)) by {
            assert forall|i: int| 0 <= i < head.len() implies is_entry(#[trigger] head[i]) by {
                assert(head[i] == items[i]);
            }
        }
        lemma_split_join(head);
        assert(is_entry(items[items.len() - 1]));
        lemma_split_append(join(head, ","@), ',', items.last());
        assert(head.push(items.last()) =~= items);
    }
}

proof fn lemma_trim_entry(item: Seq<char>)
    requires
        item.len() > 0,
        !is_space(item[0]),
        !is_space(item.last()),
    ensures
        trim(item) == item,
{
}

proof fn lemma_kept_entries(items: Seq<Seq<char>>)
    requires
        all_entries(items),
    ensures
        kept(items) == items,
    decreases items.len(),
{
    if items.len() == 0 {
        assert(items =~= Seq::<Seq<char>>::empty());
    } else {
        let head = items.drop_last();
        assert(all_entries(head)) by {
            assert forall|i: int| 0 <= i < head.len() implies is_entry(#[trigger] head[i]) by {
                assert(head[i] == items[i]);
            }
        }
        lemma_kept_entries(head);
        assert(is_entry(items[items.len() - 1]));
        lemma_trim_entry(items.last());
        assert(head.push(items.last()) =~= items);
    }
}

proof fn lemma_trim_is_entry(part: Seq<char>)
    requires
        forall|i: int| 0 <= i < part.len() ==> #[trigger] part[i] != ',',
        trim(part).len() > 0,
    ensures
        is_entry(trim(part)),
{
    lemma_trim_start_shape(part);
    let a = trim_start(part);
    lemma_trim_end_shape(a);
    let b = trim_end(a);
    assert(b == trim(part));
    let k = part.len() - a.len();
    assert(b[0] == a[0]);
    assert forall|i: int| 0 <= i < b.len() implies #[trigger] b[i] != ',' by {
        assert(b[i] == a[i]);
        assert(a[i] == part[k + i]);
    }
}

proof fn lemma_split_parts(s: Seq<char>, sep: char)
    ensures
        split(s, sep).len() > 0,
        forall|k: int, i: int|
            #![trigger split(s, sep)[k][i]]
            0 <= k < split(s, sep).len() && 0 <= i < split(s, sep)[k].len() ==> split(
                s,
                sep,
            )[k][i] != sep,
    decreases s.len(),
{
    if s.len() > 0 {
        lemma_split_parts(s.drop_last(), sep);
    }
}

proof fn lemma_kept_all_entries(parts: Seq<Seq<char>>)
    requires
        forall|k: int, i: int|
            #![trigger parts[k][i]]
            0 <= k < parts.len() && 0 <= i < parts[k].len() ==> parts[k][i] != ',',
    ensures
        all_entries(kept(parts)),
    decreases parts.len(),
{
    if parts.len() > 0 {
        let head = parts.drop_last();
        assert forall|k: int, i: int|
            #![trigger head[k][i]]
            0 <= k < head.len() && 0 <= i < head[k].len() implies head[k][i] != ',' by {
            assert(head[k] == parts[k]);
            assert(parts[k][i] != ',');
        }
        lemma_kept_all_entries(head);
        let last = parts[parts.len() - 1];
        if trim(last).len() > 0 {
            assert forall|i: int| 0 <= i < last.len() implies #[trigger] last[i] != ',' by {
                assert(parts[parts.len() - 1][i] != ',');
            }
            lemma_trim_is_entry(last);
        }
    }
}

proof fn lemma_loopback_entries()
    ensures
        all_entries(loopback()),
{
    reveal_strlit("127.0.0.1");
    reveal_strlit("localhost");
    reveal_strlit("::1");
    let a = "127.0.0.1"@;
    let b = "localhost"@;
    let c = "::1"@;
    assert(a.len() == 9 && b.len() == 9 && c.len() == 3);
    assert(is_entry(a)) by {
        assert(a[0] == '1' && a[1] == '2' && a[2] == '7' && a[3] == '.' && a[4] == '0' && a[5]
            == '.' && a[6] == '0' && a[7] == '.' && a[8] == '1');
    }
    assert(is_entry(b)) by {
        assert(b[0] == 'l' && b[1] == 'o' && b[2] == 'c' && b[3] == 'a' && b[4] == 'l' && b[5]
            == 'h' && b[6] == 'o' && b[7] == 's' && b[8] == 't');
    }
    assert(is_entry(c)) by {
        assert(c[0] == ':' && c[1] == ':' && c[2] == '1');
    }
}

/// The entries of a list are entries: each can stand in a list as it is.
pub proof fn lemma_entries_tidy(value: Seq<char>)
    ensures
        all_entries(entries(value)),
{
    lemma_split_parts(value, ',');
    lemma_kept_all_entries(split(value, ','));
}

/// The value that is written holds what was decided: read as a list, it
/// has the entries of the old value in their order, then the names of the
/// loopback that were missing. So each name of the loopback is in the new
/// value, the old entries are kept, and writing the loopback into the new
/// value again changes nothing.
pub proof fn lemma_bypass_reads_back(value: Seq<char>)
    ensures
        entries(bypass(value)) == with_loopback(entries(value)),
        forall|k: int| 0 <= k < 3 ==> listed(entries(bypass(value)), #[trigger] loopback()[k]),
        entries(value).is_prefix_of(entries(bypass(value))),
        bypass(bypass(value)) == bypass(value),
{
    let old = entries(value);
    let new = with_loopback(old);
    lemma_entries_tidy(value);
    lemma_loopback_entries();
    lemma_loopback_listed(old);
    assert(is_entry(loopback()[0]) && is_entry(loopback()[1]) && is_entry(loopback()[2]));
    let a = with_host(old, loopback()[0]);
    let b = with_host(a, loopback()[1]);
    assert(all_entries(a));
    assert(all_entries(b));
    assert(all_entries(new));
    assert(new.len() > 0) by {
        let i = choose|i: int| 0 <= i < new.len() && eq_ignore_case(#[trigger] new[i], loopback()[0]);
    }
    lemma_split_join(new);
    lemma_kept_entries(new);
    lemma_with_loopback_twice(old);
}

} // verus!
