use vstd::prelude::*;
use crate::options::{parse_bool, Settings};
use crate::header::is_word;
use crate::text::{chars_of, slice_of, replace_all, replaced, string_of};

verus! {

pub open spec fn is_alpha(c: char) -> bool {
    ('a' <= c && c <= 'z') || ('A' <= c && c <= 'Z')
}

/// Where the run of word characters that starts at `p` ends.
pub open spec fn word_end(s: Seq<char>, p: int) -> int
    decreases s.len() - p,
{
    if 0 <= p < s.len() && is_word(s[p]) {
        word_end(s, p + 1)
    } else {
        p
    }
}

/// The mentions in `s` from `i` on, left to right: `@`, a letter, then word
/// characters as far as they go; the search goes on after each one.
pub open spec fn mentions_from(s: Seq<char>, i: int) -> Seq<Seq<char>>
    decreases s.len() - i,
{
    if i < 0 || i >= s.len() {
        Seq::empty()
    } else if s[i] == '@' && i + 1 < s.len() && is_alpha(s[i + 1]) {
        let e = word_end(s, i + 2);
        let next = if i < e && e <= s.len() {
            e
        } else {
            i + 1
        };
        seq![s.subrange(i, next)] + mentions_from(s, next)
    } else {
        mentions_from(s, i + 1)
    }
}

pub open spec fn link_key() -> Seq<char> {
    seq!['{', 'l', 'i', 'n', 'k', '}']
}

pub open spec fn user_key() -> Seq<char> {
    seq!['{', 'u', '}']
}

pub open spec fn mention_key() -> Seq<char> {
    seq!['{', 'm', 'e', 'n', 't', 'i', 'o', 'n', '}']
}

/// The anchor markup before its placeholders are filled.
pub open spec fn anchor_template(new_window: bool) -> Seq<char> {
    if new_window {
        seq!['<', 'a', ' ', 'h', 'r', 'e', 'f', '=', '"', '{', 'l', 'i', 'n', 'k', '}', '"', ' ', 'r', 'e', 'l', '=', '"', 'n', 'o', 'o', 'p', 'e', 'n', 'e', 'r', ' ', 'n', 'o', 'r', 'e', 'f', 'e', 'r', 'r', 'e', 'r', '"', ' ', 't', 'a', 'r', 'g', 'e', 't', '=', '"', '_', 'b', 'l', 'a', 'n', 'k', '"', '>', '{', 'm', 'e', 'n', 't', 'i', 'o', 'n', '}', '<', '/', 'a', '>']
    } else {
        seq!['<', 'a', ' ', 'h', 'r', 'e', 'f', '=', '"', '{', 'l', 'i', 'n', 'k', '}', '"', '>', '{', 'm', 'e', 'n', 't', 'i', 'o', 'n', '}', '<', '/', 'a', '>']
    }
}

/// The anchor for one mention: the link template in place of `{link}`, then
/// the name without its `@` in place of `{u}`, then the mention in place of
/// `{mention}`.
pub open spec fn anchor(mention: Seq<char>, link: Seq<char>, new_window: bool) -> Seq<char> {
    replaced(
        replaced(replaced(anchor_template(new_window), link_key(), link), user_key(), mention.drop_first()),
        mention_key(),
        mention,
    )
}

/// `text` with each mention in turn, every copy of it, replaced by its anchor.
pub open spec fn linked(text: Seq<char>, ms: Seq<Seq<char>>, link: Seq<char>, new_window: bool) -> Seq<char>
    decreases ms.len(),
{
    if ms.len() == 0 {
        text
    } else {
        replaced(linked(text, ms.drop_last(), link, new_window), ms.last(), anchor(ms.last(), link, new_window))
    }
}

/// What mention linking makes of a text under these options.
pub open spec fn mentions_linked(text: Seq<char>, o: Settings) -> Seq<char> {
    linked(text, mentions_from(text, 0), o.mention_link_spec(), o.open_links_in_new_window.truthy())
}

fn key_chars(which: u8) -> (r: Vec<char>)
    ensures
        which == 0 ==> r@ == link_key(),
        which == 1 ==> r@ == user_key(),
        which >= 2 ==> r@ == mention_key(),
{
    if which == 0 {
        let r = vec!['{', 'l', 'i', 'n', 'k', '}'];
        assert(r@ =~= link_key());
        r
    } else if which == 1 {
        let r = vec!['{', 'u', '}'];
        assert(r@ =~= user_key());
        r
    } else {
        let r = vec!['{', 'm', 'e', 'n', 't', 'i', 'o', 'n', '}'];
        assert(r@ =~= mention_key());
        r
    }
}

fn template_chars(new_window: bool) -> (r: Vec<char>)
    ensures
        r@ == anchor_template(new_window),
{
    if new_window {
        let r = vec!['<', 'a', ' ', 'h', 'r', 'e', 'f', '=', '"', '{', 'l', 'i', 'n', 'k', '}', '"', ' ', 'r', 'e', 'l', '=', '"', 'n', 'o', 'o', 'p', 'e', 'n', 'e', 'r', ' ', 'n', 'o', 'r', 'e', 'f', 'e', 'r', 'r', 'e', 'r', '"', ' ', 't', 'a', 'r', 'g', 'e', 't', '=', '"', '_', 'b', 'l', 'a', 'n', 'k', '"', '>', '{', 'm', 'e', 'n', 't', 'i', 'o', 'n', '}', '<', '/', 'a', '>'];
        assert(r@ =~= anchor_template(new_window));
        r
    } else {
        let r = vec!['<', 'a', ' ', 'h', 'r', 'e', 'f', '=', '"', '{', 'l', 'i', 'n', 'k', '}', '"', '>', '{', 'm', 'e', 'n', 't', 'i', 'o', 'n', '}', '<', '/', 'a', '>'];
        assert(r@ =~= anchor_template(new_window));
        r
    }
}

proof fn lemma_word_end_bounds(s: Seq<char>, p: int)
    requires
        0 <= p,
    ensures
        p <= word_end(s, p),
        p <= s.len() ==> word_end(s, p) <= s.len(),
    decreases s.len() - p,
{
    if 0 <= p < s.len() && is_word(s[p]) {
        lemma_word_end_bounds(s, p + 1);
    }
}

/// Finds the mentions of a text, left to right.
pub fn find_mentions(s: &Vec<char>) -> (r: Vec<Vec<char>>)
    ensures
        r@.len() == mentions_from(s@, 0).len(),
        forall|k: int| 0 <= k < r@.len() ==> #[trigger] r@[k]@ == mentions_from(s@, 0)[k],
        forall|k: int| 0 <= k < r@.len() ==> (#[trigger] r@[k])@.len() > 0,
{
    let mut r: Vec<Vec<char>> = Vec::new();
    let mut i: usize = 0;
    while i < s.len()
        invariant
            i <= s@.len(),
            r@.len() + mentions_from(s@, i as int).len() == mentions_from(s@, 0).len(),
            forall|k: int| 0 <= k < r@.len() ==> #[trigger] r@[k]@ == mentions_from(s@, 0)[k],
            forall|k: int| 0 <= k < r@.len() ==> (#[trigger] r@[k])@.len() > 0,
            forall|k: int|
                0 <= k < mentions_from(s@, i as int).len() ==> #[trigger] mentions_from(s@, i as int)[k]
                    == mentions_from(s@, 0)[r@.len() + k],
        decreases s@.len() - i,
    {
        if s[i] == '@' && i + 1 < s.len() && ('a' <= s[i + 1] && s[i + 1] <= 'z' || 'A' <= s[i + 1] && s[i + 1] <= 'Z') {
            let mut e = i + 2;
            while e < s.len() && (('a' <= s[e] && s[e] <= 'z') || ('A' <= s[e] && s[e] <= 'Z') || ('0' <= s[e] && s[e] <= '9') || s[e] == '_')
                invariant
                    i + 2 <= e <= s@.len(),
                    word_end(s@, i as int + 2) == word_end(s@, e as int),
                decreases s@.len() - e,
            {
                e += 1;
            }
            proof {
                lemma_word_end_bounds(s@, i as int + 2);
            }
            let m = slice_of(s, i, e);
            let ghost old_r = r@;
            r.push(m);
            assert forall|k: int| 0 <= k < r@.len() implies #[trigger] r@[k]@ == mentions_from(s@, 0)[k] by {
                if k == old_r.len() {
                    assert(mentions_from(s@, i as int)[0] == s@.subrange(i as int, e as int));
                }
            }
            assert forall|k: int|
                0 <= k < mentions_from(s@, e as int).len() implies #[trigger] mentions_from(s@, e as int)[k]
                    == mentions_from(s@, 0)[r@.len() + k] by {
                assert(mentions_from(s@, i as int)[k + 1] == mentions_from(s@, e as int)[k]);
            }
            i = e;
        } else {
            i += 1;
        }
    }
    r
}

/// Turns each `@name` mention into a link to the user's page; every copy of
/// a mention is replaced, mention by mention, as the mentions are found in
/// the text as given.
pub fn add_link_to_mentions(text: &str, options: &Settings) -> (r: String)
    ensures
        r@ == mentions_linked(text@, *options),
{
    let t = chars_of(text);
    let ms = find_mentions(&t);
    let link = options.mention_link();
    let new_window = parse_bool(&options.open_links_in_new_window);
    let tpl = template_chars(new_window);
    let link_key_v = key_chars(0);
    let user_key_v = key_chars(1);
    let mention_key_v = key_chars(2);
    let ghost all = mentions_from(t@, 0);
    let mut ret = t.clone();
    let mut j: usize = 0;
    while j < ms.len()
        invariant
            j <= ms@.len(),
            ms@.len() == all.len(),
            forall|k: int| 0 <= k < ms@.len() ==> #[trigger] ms@[k]@ == all[k],
            forall|k: int| 0 <= k < ms@.len() ==> (#[trigger] ms@[k])@.len() > 0,
            ret@ == linked(t@, all.subrange(0, j as int), link@, new_window),
            tpl@ == anchor_template(new_window),
            link_key_v@ == link_key(),
            user_key_v@ == user_key(),
            mention_key_v@ == mention_key(),
        decreases ms@.len() - j,
    {
        let m = &ms[j];
        let name = slice_of(m, 1, m.len());
        assert(name@ =~= m@.drop_first());
        let a1 = replace_all(&tpl, &link_key_v, &link);
        let a2 = replace_all(&a1, &user_key_v, &name);
        let a3 = replace_all(&a2, &mention_key_v, m);
        ret = replace_all(&ret, m, &a3);
        assert(all.subrange(0, j as int + 1).drop_last() =~= all.subrange(0, j as int));
        j += 1;
    }
    assert(all.subrange(0, all.len() as int) =~= all);
    string_of(&ret)
}

} // verus!
