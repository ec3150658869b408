use vstd::prelude::*;
use crate::options::{parse_bool, Settings};
use crate::text::{chars_of, slice_of, decimal, decimal_chars, lower_of, lowercase, replace_all, replaced, string_of};

verus! {

/// A word character: an ASCII letter or digit, or `_`.
pub open spec fn is_word(c: char) -> bool {
    ('a' <= c && c <= 'z') || ('A' <= c && c <= 'Z') || ('0' <= c && c <= '9') || c == '_'
}

/// The punctuation that GitHub-style ids drop.
pub open spec fn is_gh_punct(c: char) -> bool {
    c == '&' || c == '+' || c == '$' || c == ',' || c == '/' || c == ':' || c == ';' || c == '='
        || c == '?' || c == '@' || c == '"' || c == '#' || c == '{' || c == '}' || c == '|'
        || c == '^' || c == '\u{a8}' || c == '~' || c == '[' || c == ']' || c == '`' || c == '*'
        || c == ')' || c == '(' || c == '%' || c == '.' || c == '!' || c == '\'' || c == '<'
        || c == '>'
}

pub open spec fn is_quote_or_space(c: char) -> bool {
    c == '"' || c == '\'' || c == ' '
}

/// The word characters of `s`, in order.
pub open spec fn word_chars(s: Seq<char>) -> Seq<char>
    decreases s.len(),
{
    if s.len() == 0 {
        s
    } else if is_word(s.last()) {
        word_chars(s.drop_last()).push(s.last())
    } else {
        word_chars(s.drop_last())
    }
}

/// `s` without the characters that GitHub-style ids drop.
pub open spec fn without_gh_punct(s: Seq<char>) -> Seq<char>
    decreases s.len(),
{
    if s.len() == 0 {
        s
    } else if is_gh_punct(s.last()) {
        without_gh_punct(s.drop_last())
    } else {
        without_gh_punct(s.drop_last()).push(s.last())
    }
}

/// `s` with each space replaced by a hyphen.
pub open spec fn hyphenate_spaces(s: Seq<char>) -> Seq<char> {
    s.map_values(|c: char| if c == ' ' { '-' } else { c })
}

/// `s` with each quote and each space replaced by a hyphen.
pub open spec fn hyphenate_quotes(s: Seq<char>) -> Seq<char> {
    s.map_values(|c: char| if is_quote_or_space(c) { '-' } else { c })
}

fn is_word_char(c: char) -> (r: bool)
    ensures
        r == is_word(c),
{
    ('a' <= c && c <= 'z') || ('A' <= c && c <= 'Z') || ('0' <= c && c <= '9') || c == '_'
}

fn is_gh_punct_char(c: char) -> (r: bool)
    ensures
        r == is_gh_punct(c),
{
    c == '&' || c == '+' || c == '$' || c == ',' || c == '/' || c == ':' || c == ';' || c == '='
        || c == '?' || c == '@' || c == '"' || c == '#' || c == '{' || c == '}' || c == '|'
        || c == '^' || c == '\u{a8}' || c == '~' || c == '[' || c == ']' || c == '`' || c == '*'
        || c == ')' || c == '(' || c == '%' || c == '.' || c == '!' || c == '\'' || c == '<'
        || c == '>'
}

/// Keeps the word characters.
pub fn keep_word_chars(s: &Vec<char>) -> (r: Vec<char>)
    ensures
        r@ == word_chars(s@),
{
    let mut r: Vec<char> = Vec::new();
    let mut i: usize = 0;
    while i < s.len()
        invariant
            i <= s@.len(),
            r@ == word_chars(s@.subrange(0, i as int)),
        decreases s@.len() - i,
    {
        assert(s@.subrange(0, i as int + 1).drop_last() =~= s@.subrange(0, i as int));
        if is_word_char(s[i]) {
            r.push(s[i]);
        }
        i += 1;
    }
    assert(s@.subrange(0, s@.len() as int) =~= s@);
    r
}

/// Drops the characters that GitHub-style ids leave out.
pub fn drop_gh_punct(s: &Vec<char>) -> (r: Vec<char>)
    ensures
        r@ == without_gh_punct(s@),
{
    let mut r: Vec<char> = Vec::new();
    let mut i: usize = 0;
    while i < s.len()
        invariant
            i <= s@.len(),
            r@ == without_gh_punct(s@.subrange(0, i as int)),
        decreases s@.len() - i,
    {
        assert(s@.subrange(0, i as int + 1).drop_last() =~= s@.subrange(0, i as int));
        if !is_gh_punct_char(s[i]) {
            r.push(s[i]);
        }
        i += 1;
    }
    assert(s@.subrange(0, s@.len() as int) =~= s@);
    r
}

/// Turns each space into a hyphen; with `quotes`, each quote too.
fn hyphenate(s: &Vec<char>, quotes: bool) -> (r: Vec<char>)
    ensures
        quotes ==> r@ == hyphenate_quotes(s@),
        !quotes ==> r@ == hyphenate_spaces(s@),
{
    let mut r: Vec<char> = Vec::new();
    let mut i: usize = 0;
    while i < s.len()
        invariant
            i <= s@.len(),
            r@.len() == i,
            forall|j: int|
                0 <= j < i ==> #[trigger] r@[j] == (if quotes {
                    hyphenate_quotes(s@)[j]
                } else {
                    hyphenate_spaces(s@)[j]
                }),
        decreases s@.len() - i,
    {
        let c = s[i];
        if c == ' ' || (quotes && (c == '"' || c == '\'')) {
            r.push('-');
        } else {
            r.push(c);
        }
        i += 1;
    }
    assert(quotes ==> r@ =~= hyphenate_quotes(s@));
    assert(!quotes ==> r@ =~= hyphenate_spaces(s@));
    r
}

} // verus!

verus! {

/// Whitespace as a JavaScript regular expression's `\s` reads it.
pub open spec fn is_space(c: char) -> bool {
    c == '\t' || c == '\n' || c == '\u{b}' || c == '\u{c}' || c == '\r' || c == ' ' || c
        == '\u{a0}' || c == '\u{1680}' || ('\u{2000}' <= c && c <= '\u{200a}') || c == '\u{2028}'
        || c == '\u{2029}' || c == '\u{202f}' || c == '\u{205f}' || c == '\u{3000}' || c
        == '\u{feff}'
}

/// A line terminator.
pub open spec fn is_line_end(c: char) -> bool {
    c == '\n' || c == '\r' || c == '\u{2028}' || c == '\u{2029}'
}

/// From `q` on, over whitespace, the last place where a line ends; `best` is
/// the last one seen before `q`.
pub open spec fn trailing_end(s: Seq<char>, q: int, best: Option<int>) -> Option<int>
    decreases s.len() - q,
{
    if q < 0 || q >= s.len() {
        Some(s.len() as int)
    } else if is_line_end(s[q]) {
        trailing_end(s, q + 1, Some(q))
    } else if is_space(s[q]) {
        trailing_end(s, q + 1, best)
    } else {
        best
    }
}

/// Scanning for the `}` that closes an annotation whose contents start at `c0`:
/// the first `}` after at least one character, with only whitespace after it up
/// to the end of a line, and no `{` before it. Gives that `}` and where the
/// whitespace after it ends.
pub open spec fn closing_brace(s: Seq<char>, e: int, c0: int) -> Option<(int, int)>
    decreases s.len() - e,
{
    if e < 0 || e >= s.len() {
        None
    } else if s[e] == '}' && e > c0 && trailing_end(s, e + 1, None) is Some {
        Some((e, trailing_end(s, e + 1, None)->0))
    } else if s[e] == '{' {
        None
    } else {
        closing_brace(s, e + 1, c0)
    }
}

/// An annotation whose `{` stands at `j`: its contents' start and end, and its end.
pub open spec fn braced_at(s: Seq<char>, j: int) -> Option<(int, int, int)> {
    if 0 <= j < s.len() && s[j] == '{' {
        match closing_brace(s, j + 1, j + 1) {
            Some((e, m)) => Some((j + 1, e, m)),
            None => None,
        }
    } else {
        None
    }
}

/// An annotation that starts at `i`, with or without one whitespace before its `{`.
pub open spec fn annotation_at(s: Seq<char>, i: int) -> Option<(int, int, int)> {
    if 0 <= i < s.len() && is_space(s[i]) && braced_at(s, i + 1) is Some {
        braced_at(s, i + 1)
    } else {
        braced_at(s, i)
    }
}

/// The leftmost annotation at or after `i`: its start, the start and end of
/// its contents, and its end.
pub open spec fn find_annotation(s: Seq<char>, i: int) -> Option<(int, int, int, int)>
    decreases s.len() - i,
{
    if i < 0 || i >= s.len() {
        None
    } else {
        match annotation_at(s, i) {
            Some((c0, c1, m)) => Some((i, c0, c1, m)),
            None => find_annotation(s, i + 1),
        }
    }
}

proof fn lemma_trailing_end_bounds(s: Seq<char>, q: int, best: Option<int>)
    requires
        0 <= q <= s.len(),
        best is Some ==> 0 <= best->0 < s.len(),
    ensures
        trailing_end(s, q, best) is Some ==> ({
            let x = trailing_end(s, q, best)->0;
            x <= s.len() && (x >= q || trailing_end(s, q, best) == best)
        }),
    decreases s.len() - q,
{
    if q < s.len() {
        if is_line_end(s[q]) {
            lemma_trailing_end_bounds(s, q + 1, Some(q));
        } else if is_space(s[q]) {
            lemma_trailing_end_bounds(s, q + 1, best);
        }
    }
}

proof fn lemma_closing_brace_bounds(s: Seq<char>, e: int, c0: int)
    requires
        0 <= c0 <= e,
    ensures
        closing_brace(s, e, c0) is Some ==> ({
            let f = closing_brace(s, e, c0)->0;
            e <= f.0 && c0 < f.0 && f.0 < f.1 && f.1 <= s.len()
        }),
    decreases s.len() - e,
{
    if 0 <= e < s.len() {
        lemma_trailing_end_bounds(s, e + 1, None);
        if !(s[e] == '}' && e > c0 && trailing_end(s, e + 1, None) is Some) && s[e] != '{' {
            lemma_closing_brace_bounds(s, e + 1, c0);
        }
    }
}

/// Where an annotation is found, its parts stand in order inside the text.
proof fn lemma_find_annotation_bounds(s: Seq<char>, i: int)
    requires
        0 <= i,
    ensures
        find_annotation(s, i) is Some ==> ({
            let f = find_annotation(s, i)->0;
            i <= f.0 && f.0 < f.1 && f.1 < f.2 && f.2 < f.3 && f.3 <= s.len()
        }),
    decreases s.len() - i,
{
    if i < s.len() {
        lemma_closing_brace_bounds(s, i + 1, i + 1);
        lemma_closing_brace_bounds(s, i + 2, i + 2);
        if annotation_at(s, i) is None {
            lemma_find_annotation_bounds(s, i + 1);
        }
    }
}

fn is_space_char(c: char) -> (r: bool)
    ensures
        r == is_space(c),
{
    c == '\t' || c == '\n' || c == '\u{b}' || c == '\u{c}' || c == '\r' || c == ' ' || c
        == '\u{a0}' || c == '\u{1680}' || ('\u{2000}' <= c && c <= '\u{200a}') || c == '\u{2028}'
        || c == '\u{2029}' || c == '\u{202f}' || c == '\u{205f}' || c == '\u{3000}' || c
        == '\u{feff}'
}

fn trailing_end_exec(s: &Vec<char>, p: usize) -> (r: Option<usize>)
    requires
        p <= s@.len(),
    ensures
        r is Some <==> trailing_end(s@, p as int, None) is Some,
        r is Some ==> r->0 as int == trailing_end(s@, p as int, None)->0,
{
    let mut q = p;
    let mut best: Option<usize> = None;
    while q < s.len()
        invariant
            p <= q <= s@.len(),
            best is Some ==> best->0 < s@.len(),
            trailing_end(s@, p as int, None) == trailing_end(
                s@,
                q as int,
                match best {
                    Some(b) => Some(b as int),
                    None => None,
                },
            ),
        decreases s@.len() - q,
    {
        let c = s[q];
        if c == '\n' || c == '\r' || c == '\u{2028}' || c == '\u{2029}' {
            best = Some(q);
        } else if !is_space_char(c) {
            return best;
        }
        q += 1;
    }
    Some(s.len())
}

fn closing_brace_exec(s: &Vec<char>, c0: usize) -> (r: Option<(usize, usize)>)
    requires
        c0 <= s@.len(),
    ensures
        r is Some <==> closing_brace(s@, c0 as int, c0 as int) is Some,
        r is Some ==> ({
            let f = closing_brace(s@, c0 as int, c0 as int)->0;
            (r->0).0 as int == f.0 && (r->0).1 as int == f.1
        }),
{
    let mut e = c0;
    while e < s.len()
        invariant
            c0 <= e <= s@.len(),
            closing_brace(s@, c0 as int, c0 as int) == closing_brace(s@, e as int, c0 as int),
        decreases s@.len() - e,
    {
        if s[e] == '}' && e > c0 {
            match trailing_end_exec(s, e + 1) {
                Some(m) => {
                    return Some((e, m));
                },
                None => {},
            }
        } else if s[e] == '{' {
            return None;
        }
        e += 1;
    }
    None
}

fn braced_at_exec(s: &Vec<char>, j: usize) -> (r: Option<(usize, usize, usize)>)
    requires
        j <= s@.len(),
    ensures
        r is Some <==> braced_at(s@, j as int) is Some,
        r is Some ==> ({
            let f = braced_at(s@, j as int)->0;
            (r->0).0 as int == f.0 && (r->0).1 as int == f.1 && (r->0).2 as int == f.2
        }),
{
    if j < s.len() && s[j] == '{' {
        match closing_brace_exec(s, j + 1) {
            Some((e, m)) => Some((j + 1, e, m)),
            None => None,
        }
    } else {
        None
    }
}

/// Finds the leftmost `{id}` annotation that ends a line: its start, the start
/// and end of the id, and its end.
pub fn find_annotation_exec(s: &Vec<char>) -> (r: Option<(usize, usize, usize, usize)>)
    ensures
        r is Some <==> find_annotation(s@, 0) is Some,
        r is Some ==> ({
            let f = find_annotation(s@, 0)->0;
            (r->0).0 as int == f.0 && (r->0).1 as int == f.1 && (r->0).2 as int == f.2 && (r->0).3 as int
                == f.3
        }),
{
    let mut i: usize = 0;
    while i < s.len()
        invariant
            i <= s@.len(),
            find_annotation(s@, 0) == find_annotation(s@, i as int),
        decreases s@.len() - i,
    {
        let mut a: Option<(usize, usize, usize)> = None;
        if is_space_char(s[i]) {
            a = braced_at_exec(s, i + 1);
        }
        if a.is_none() {
            a = braced_at_exec(s, i);
        }
        match a {
            Some((c0, c1, m)) => {
                return Some((i, c0, c1, m));
            },
            None => {},
        }
        i += 1;
    }
    None
}

} // verus!

verus! {

/// The text shown and the seed of the id: with `customizedHeaderId` and an
/// annotation, every copy of the annotation is taken out of the text and its
/// contents are the seed; otherwise both are the text.
pub open spec fn split_annotation(text: Seq<char>, o: Settings) -> (Seq<char>, Seq<char>) {
    if o.customized_header_id.truthy() && find_annotation(text, 0) is Some {
        let f = find_annotation(text, 0)->0;
        (replaced(text, text.subrange(f.0, f.3), Seq::empty()), text.subrange(f.1, f.2))
    } else {
        (text, text)
    }
}

/// The seed put in id form by the one rule the options pick.
pub open spec fn normalized(title: Seq<char>, o: Settings) -> Seq<char> {
    if o.gh_compatible_header_id.truthy() {
        lower_of(without_gh_punct(hyphenate_spaces(title)))
    } else if o.raw_header_id.truthy() {
        lower_of(hyphenate_quotes(title))
    } else {
        lower_of(word_chars(title))
    }
}

/// The id that a seed gives, with the prefix before or after normalizing.
pub open spec fn id_of(seed: Seq<char>, o: Settings) -> Seq<char> {
    if o.raw_prefix_header_id.truthy() {
        o.prefix_spec() + normalized(seed, o)
    } else {
        normalized(o.prefix_spec() + seed, o)
    }
}

pub open spec fn id_open() -> Seq<char> {
    seq![' ', 'i', 'd', '=', '"']
}

/// The id attribute for a seed: ` id="..."`, or nothing under `noHeaderId`.
pub open spec fn id_attr(seed: Seq<char>, o: Settings) -> Seq<char> {
    if o.no_header_id.truthy() {
        Seq::empty()
    } else {
        id_open() + id_of(seed, o) + seq!['"']
    }
}

/// A heading of this level around this text, its id taken from the text.
pub open spec fn heading_html(level: int, text: Seq<char>, o: Settings) -> Seq<char> {
    let (shown, seed) = split_annotation(text, o);
    seq!['<', 'h'] + decimal(level) + id_attr(seed, o) + seq!['>'] + shown + seq!['<', '/', 'h']
        + decimal(level) + seq!['>']
}

fn normalize(title: &Vec<char>, o: &Settings) -> (r: Vec<char>)
    ensures
        r@ == normalized(title@, *o),
{
    if parse_bool(&o.gh_compatible_header_id) {
        let spaced = hyphenate(title, false);
        lowercase(&drop_gh_punct(&spaced))
    } else if parse_bool(&o.raw_header_id) {
        lowercase(&hyphenate(title, true))
    } else {
        lowercase(&keep_word_chars(title))
    }
}

/// Computes a heading's id attribute from its text; under
/// `customizedHeaderId` it also takes the annotation out of the text.
pub fn handle_id(text: &mut String, options: &Settings) -> (r: String)
    ensures
        final(text)@ == split_annotation(old(text)@, *options).0,
        r@ == id_attr(split_annotation(old(text)@, *options).1, *options),
{
    let t = chars_of(text.as_str());
    let mut seed = t.clone();
    if parse_bool(&options.customized_header_id) {
        match find_annotation_exec(&t) {
            Some((i, c0, c1, m)) => {
                proof {
                    lemma_find_annotation_bounds(t@, 0);
                }
                let whole = slice_of(&t, i, m);
                let shown = replace_all(&t, &whole, &Vec::new());
                *text = string_of(&shown);
                seed = slice_of(&t, c0, c1);
            },
            None => {},
        }
    }
    if parse_bool(&options.no_header_id) {
        return String::new();
    }
    let prefix = options.prefix();
    let mut id: Vec<char>;
    if parse_bool(&options.raw_prefix_header_id) {
        id = prefix.clone();
        let mut n = normalize(&seed, options);
        id.append(&mut n);
    } else {
        let mut title = prefix.clone();
        let mut s2 = seed.clone();
        title.append(&mut s2);
        id = normalize(&title, options);
    }
    let mut r = vec![' ', 'i', 'd', '=', '"'];
    r.append(&mut id);
    r.push('"');
    assert(r@ =~= id_attr(seed@, *options));
    string_of(&r)
}

/// Writes a heading of this level around the text, with its id.
pub fn handle_header(text: &String, level: i128, options: &Settings) -> (r: String)
    ensures
        r@ == heading_html(level as int, text@, *options),
{
    let mut shown = text.clone();
    let id = handle_id(&mut shown, options);
    let lv = decimal_chars(level);
    let mut r = vec!['<', 'h'];
    let mut a = lv.clone();
    r.append(&mut a);
    let mut b = chars_of(id.as_str());
    r.append(&mut b);
    r.push('>');
    let mut c = chars_of(shown.as_str());
    r.append(&mut c);
    r.push('<');
    r.push('/');
    r.push('h');
    let mut d = lv.clone();
    r.append(&mut d);
    r.push('>');
    assert(r@ =~= heading_html(level as int, text@, *options));
    string_of(&r)
}

} // verus!

verus! {

/// Under `noHeaderId` a heading carries no id attribute, whatever its level
/// and text and whatever the other id options say.
pub proof fn lemma_no_header_id(level: int, text: Seq<char>, o: Settings)
    requires
        o.no_header_id.truthy(),
    ensures
        heading_html(level, text, o) == seq!['<', 'h'] + decimal(level) + seq!['>'] + split_annotation(
            text,
            o,
        ).0 + seq!['<', '/', 'h'] + decimal(level) + seq!['>'],
{
    assert(id_attr(split_annotation(text, o).1, o) =~= Seq::<char>::empty());
    assert(seq!['<', 'h'] + decimal(level) + Seq::<char>::empty() =~= seq!['<', 'h'] + decimal(level));
}

/// Two option sets that agree on the id options give every heading text the
/// same id attribute: the id is a function of the text and those options.
pub proof fn lemma_id_determined(text: Seq<char>, o1: Settings, o2: Settings)
    requires
        o1.no_header_id.truthy() == o2.no_header_id.truthy(),
        o1.customized_header_id.truthy() == o2.customized_header_id.truthy(),
        o1.gh_compatible_header_id.truthy() == o2.gh_compatible_header_id.truthy(),
        o1.raw_header_id.truthy() == o2.raw_header_id.truthy(),
        o1.raw_prefix_header_id.truthy() == o2.raw_prefix_header_id.truthy(),
        o1.prefix_spec() == o2.prefix_spec(),
    ensures
        split_annotation(text, o1) == split_annotation(text, o2),
        id_attr(split_annotation(text, o1).1, o1) == id_attr(split_annotation(text, o2).1, o2),
{
}

/// Exactly one normalization rule applies: GitHub-style where
/// `ghCompatibleHeaderId` is set, else raw where `rawHeaderId` is, else the
/// default; options other than these two never change which one fires.
pub proof fn lemma_one_normalization(title: Seq<char>, o1: Settings, o2: Settings)
    requires
        o1.gh_compatible_header_id.truthy() == o2.gh_compatible_header_id.truthy(),
        o1.raw_header_id.truthy() == o2.raw_header_id.truthy(),
    ensures
        normalized(title, o1) == normalized(title, o2),
        o1.gh_compatible_header_id.truthy() ==> normalized(title, o1) == lower_of(
            without_gh_punct(hyphenate_spaces(title)),
        ),
        !o1.gh_compatible_header_id.truthy() && o1.raw_header_id.truthy() ==> normalized(title, o1)
            == lower_of(hyphenate_quotes(title)),
        !o1.gh_compatible_header_id.truthy() && !o1.raw_header_id.truthy() ==> normalized(title, o1)
            == lower_of(word_chars(title)),
{
}

} // verus!
