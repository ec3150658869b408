use vstd::prelude::*;
use crate::cmark::{cmark_parse, cmark_render, emoji_of, parse_events, render_events, replace_emoji};
use crate::events::{in_views, out_views, InEvent, InView, OutEvent, OutView};
use crate::header::{handle_header, heading_html};
use crate::mention::{add_link_to_mentions, mentions_linked};
use crate::options::{parse_bool, parse_int, Settings};
use crate::text::{chars_of, slice_of, string_of};

verus! {

/// What the rewrite carries from one event to a later one.
pub enum Pending {
    Nothing,
    /// Inside a heading of this (offset) level.
    Heading(i128),
    /// A link to this destination has started and waits for its text.
    Link(String),
}

/// The state as values.
pub enum PendingView {
    Nothing,
    Heading(i128),
    Link(Seq<char>),
}

impl View for Pending {
    type V = PendingView;

    open spec fn view(&self) -> PendingView {
        match self {
            Pending::Nothing => PendingView::Nothing,
            Pending::Heading(l) => PendingView::Heading(*l),
            Pending::Link(d) => PendingView::Link(d@),
        }
    }
}

/// A heading level after the `headerLevelStart` offset.
pub open spec fn effective_level(level: int, o: Settings) -> int {
    match o.header_level_start.int_value() {
        Some(k) => k + level - 1,
        None => level,
    }
}

/// How many `#` the text starts with.
pub open spec fn hash_run(s: Seq<char>) -> nat
    decreases s.len(),
{
    if s.len() > 0 && s[0] == '#' {
        1 + hash_run(s.drop_first())
    } else {
        0
    }
}

pub open spec fn anchor_open() -> Seq<char> {
    seq!['<', 'a', ' ', 'h', 'r', 'e', 'f', '=', '"']
}

pub open spec fn anchor_middle() -> Seq<char> {
    seq!['"', ' ', 'r', 'e', 'l', '=', '"', 'n', 'o', 'o', 'p', 'e', 'n', 'e', 'r', ' ', 'n', 'o', 'r', 'e', 'f', 'e', 'r', 'r', 'e', 'r', '"', ' ', 't', 'a', 'r', 'g', 'e', 't', '=', '"', '_', 'b', 'l', 'a', 'n', 'k', '"', '>']
}

pub open spec fn anchor_close() -> Seq<char> {
    seq!['<', '/', 'a', '>']
}

/// A link that opens in a new window.
pub open spec fn new_window_link(dest: Seq<char>, text: Seq<char>) -> Seq<char> {
    anchor_open() + dest + anchor_middle() + text + anchor_close()
}

/// The rewrite of a text event at position `i`: the next state and the event out.
pub open spec fn text_step(st: PendingView, t: Seq<char>, i: usize, o: Settings) -> (PendingView, OutView) {
    let t0 = if o.emoji.truthy() {
        emoji_of(t)
    } else {
        t
    };
    let (st1, t1, html) = match st {
        PendingView::Heading(lv) => (st, heading_html(lv as int, t0, o), true),
        PendingView::Link(d) => (PendingView::Nothing, new_window_link(d, t0), true),
        PendingView::Nothing => if !o.require_space_before_heading_text.truthy() && hash_run(t0) > 0 {
            (
                PendingView::Nothing,
                heading_html(effective_level(hash_run(t0) as int, o), t0.skip(hash_run(t0) as int), o),
                true,
            )
        } else {
            (PendingView::Nothing, t0, false)
        },
    };
    if o.gh_mentions.truthy() && t1.contains('@') {
        (st1, OutView::Html(mentions_linked(t1, o)))
    } else if html {
        (st1, OutView::Html(t1))
    } else if o.emoji.truthy() {
        (st1, OutView::Text(t1))
    } else {
        (st1, OutView::Source(i))
    }
}

/// The rewrite of one event at position `i`: the next state, and the event
/// out, if any.
pub open spec fn step(st: PendingView, e: InView, i: usize, o: Settings) -> (PendingView, Option<OutView>) {
    match e {
        InView::StartHeading(l) => if 1 <= l && l <= 6 {
            (PendingView::Heading(effective_level(l as int, o) as i128), None)
        } else {
            (st, Some(OutView::Source(i)))
        },
        InView::EndHeading => (PendingView::Nothing, Some(OutView::SoftBreak)),
        InView::StartLink(d) => if o.open_links_in_new_window.truthy() {
            (PendingView::Link(d), None)
        } else {
            (st, Some(OutView::Source(i)))
        },
        InView::StartStrong | InView::EndStrong => if o.literal_mid_word_asterisks.truthy() {
            (st, Some(OutView::Text(seq!['*', '*'])))
        } else {
            (st, Some(OutView::Source(i)))
        },
        InView::Text(t) => {
            let (st2, out) = text_step(st, t, i, o);
            (st2, Some(out))
        },
        InView::SoftBreak => if o.simple_line_breaks.truthy() {
            (st, Some(OutView::HardBreak))
        } else {
            (st, Some(OutView::Source(i)))
        },
        InView::Other => (st, Some(OutView::Source(i))),
    }
}

/// The state after a stream of events, and the events out.
pub open spec fn run(evs: Seq<InView>, o: Settings) -> (PendingView, Seq<OutView>)
    decreases evs.len(),
{
    if evs.len() == 0 {
        (PendingView::Nothing, Seq::empty())
    } else {
        let (st, out) = run(evs.drop_last(), o);
        let (st2, e) = step(st, evs.last(), (evs.len() - 1) as usize, o);
        match e {
            Some(x) => (st2, out.push(x)),
            None => (st2, out),
        }
    }
}

/// The rewritten stream.
pub open spec fn transformed(evs: Seq<InView>, o: Settings) -> Seq<OutView> {
    run(evs, o).1
}

pub open spec fn opt_view(r: Option<OutEvent>) -> Option<OutView> {
    match r {
        Some(x) => Some(x@),
        None => None,
    }
}

/// A heading level after the `headerLevelStart` offset.
pub fn level_after_offset(level: u64, options: &Settings) -> (r: i128)
    ensures
        r as int == effective_level(level as int, *options),
{
    match parse_int(&options.header_level_start) {
        Some(k) => k as i128 + level as i128 - 1,
        None => level as i128,
    }
}

fn contains_at(t: &Vec<char>) -> (r: bool)
    ensures
        r == t@.contains('@'),
{
    let mut k: usize = 0;
    while k < t.len()
        invariant
            k <= t@.len(),
            forall|j: int| 0 <= j < k ==> t@[j] != '@',
        decreases t@.len() - k,
    {
        if t[k] == '@' {
            return true;
        }
        k += 1;
    }
    false
}

fn count_hashes(t: &Vec<char>) -> (r: usize)
    ensures
        r as int == hash_run(t@),
        r <= t@.len(),
{
    let mut k: usize = 0;
    assert(t@.subrange(0, t@.len() as int) =~= t@);
    while k < t.len() && t[k] == '#'
        invariant
            k <= t@.len(),
            hash_run(t@) == k + hash_run(t@.subrange(k as int, t@.len() as int)),
        decreases t@.len() - k,
    {
        assert(t@.subrange(k as int, t@.len() as int).drop_first() =~= t@.subrange(k as int + 1, t@.len() as int));
        k += 1;
    }
    assert(k < t@.len() ==> t@.subrange(k as int, t@.len() as int)[0] == t@[k as int]);
    k
}

fn link_markup(dest: &String, text: &Vec<char>) -> (r: Vec<char>)
    ensures
        r@ == new_window_link(dest@, text@),
{
    let mut r = vec!['<', 'a', ' ', 'h', 'r', 'e', 'f', '=', '"'];
    let mut d = chars_of(dest.as_str());
    r.append(&mut d);
    let mut m = vec!['"', ' ', 'r', 'e', 'l', '=', '"', 'n', 'o', 'o', 'p', 'e', 'n', 'e', 'r', ' ', 'n', 'o', 'r', 'e', 'f', 'e', 'r', 'r', 'e', 'r', '"', ' ', 't', 'a', 'r', 'g', 'e', 't', '=', '"', '_', 'b', 'l', 'a', 'n', 'k', '"', '>'];
    r.append(&mut m);
    let mut t = text.clone();
    r.append(&mut t);
    let mut c = vec!['<', '/', 'a', '>'];
    r.append(&mut c);
    assert(r@ =~= new_window_link(dest@, text@));
    r
}

/// The rewrite of a text event at position `index`.
fn rewrite_text(state: &Pending, t: &String, index: usize, options: &Settings) -> (r: OutEvent)
    ensures
        r@ == text_step(state@, t@, index, *options).1,
{
    let emoji = parse_bool(&options.emoji);
    let mut t0 = chars_of(t.as_str());
    if emoji {
        t0 = replace_emoji(&t0);
    }
    let t1: Vec<char>;
    let html: bool;
    match state {
        Pending::Heading(lv) => {
            t1 = chars_of(handle_header(&string_of(&t0), *lv, options).as_str());
            html = true;
        },
        Pending::Link(d) => {
            t1 = link_markup(d, &t0);
            html = true;
        },
        Pending::Nothing => {
            let n = count_hashes(&t0);
            if !parse_bool(&options.require_space_before_heading_text) && n > 0 {
                let level = level_after_offset(n as u64, options);
                let rest = slice_of(&t0, n, t0.len());
                t1 = chars_of(handle_header(&string_of(&rest), level, options).as_str());
                html = true;
            } else {
                t1 = t0;
                html = false;
            }
        },
    }
    if parse_bool(&options.gh_mentions) && contains_at(&t1) {
        OutEvent::Html(add_link_to_mentions(string_of(&t1).as_str(), options))
    } else if html {
        OutEvent::Html(string_of(&t1))
    } else if emoji {
        OutEvent::Text(string_of(&t1))
    } else {
        OutEvent::Source(index)
    }
}

/// The two asterisks written in place of a strong-emphasis delimiter.
fn asterisks() -> (r: String)
    ensures
        r@ == seq!['*', '*'],
{
    let v = vec!['*', '*'];
    string_of(&v)
}

/// Rewrites one event at position `index` of the stream, updating the
/// pending state; `None` where the event is taken out.
pub fn rewrite(state: &mut Pending, event: &InEvent, index: usize, options: &Settings) -> (r: Option<OutEvent>)
    ensures
        (final(state)@, opt_view(r)) == step(old(state)@, event@, index, *options),
{
    match event {
        InEvent::StartHeading(l) => {
            if 1 <= *l && *l <= 6 {
                *state = Pending::Heading(level_after_offset(*l as u64, options));
                None
            } else {
                Some(OutEvent::Source(index))
            }
        },
        InEvent::EndHeading => {
            *state = Pending::Nothing;
            Some(OutEvent::SoftBreak)
        },
        InEvent::StartLink(d) => {
            if parse_bool(&options.open_links_in_new_window) {
                *state = Pending::Link(d.clone());
                None
            } else {
                Some(OutEvent::Source(index))
            }
        },
        InEvent::StartStrong | InEvent::EndStrong => {
            if parse_bool(&options.literal_mid_word_asterisks) {
                Some(OutEvent::Text(asterisks()))
            } else {
                Some(OutEvent::Source(index))
            }
        },
        InEvent::Text(t) => {
            let out = rewrite_text(state, t, index, options);
            let clear = match state {
                Pending::Link(_) => true,
                _ => false,
            };
            if clear {
                *state = Pending::Nothing;
            }
            Some(out)
        },
        InEvent::SoftBreak => {
            if parse_bool(&options.simple_line_breaks) {
                Some(OutEvent::HardBreak)
            } else {
                Some(OutEvent::Source(index))
            }
        },
        InEvent::Other => Some(OutEvent::Source(index)),
    }
}

/// The parser extensions the options switch on, as the parser's bits:
/// footnotes always, strikethrough, tables and task lists on request.
pub open spec fn extension_bits(o: Settings) -> u32 {
    (4 + (if o.strikethrough.truthy() {
        8int
    } else {
        0
    }) + (if o.tables.truthy() {
        2int
    } else {
        0
    }) + (if o.tasklists.truthy() {
        16int
    } else {
        0
    })) as u32
}

/// The HTML for a Markdown text under these options.
pub open spec fn converted(content: Seq<char>, o: Settings) -> Seq<char> {
    let bits = extension_bits(o);
    cmark_render(content, bits, transformed(cmark_parse(content, bits), o))
}

fn extensions(options: &Settings) -> (r: u32)
    ensures
        r == extension_bits(*options),
{
    let mut r: u32 = 4;
    if parse_bool(&options.strikethrough) {
        r = r + 8;
    }
    if parse_bool(&options.tables) {
        r = r + 2;
    }
    if parse_bool(&options.tasklists) {
        r = r + 16;
    }
    r
}

/// Rewrites a whole stream of events in one forward pass.
pub fn transform(events: &Vec<InEvent>, options: &Settings) -> (r: Vec<OutEvent>)
    ensures
        out_views(r@) == transformed(in_views(events@), *options),
        forall|k: int| 0 <= k < r@.len() ==> (#[trigger] r@[k] is Source ==> r@[k]->Source_0 < events@.len()),
{
    let ghost evs = in_views(events@);
    let mut state = Pending::Nothing;
    let mut out: Vec<OutEvent> = Vec::new();
    let mut i: usize = 0;
    while i < events.len()
        invariant
            i <= events@.len(),
            evs == in_views(events@),
            (state@, out_views(out@)) == run(evs.subrange(0, i as int), *options),
            forall|k: int| 0 <= k < out@.len() ==> (#[trigger] out@[k] is Source ==> out@[k]->Source_0 < i),
        decreases events@.len() - i,
    {
        assert(evs.subrange(0, i as int + 1).drop_last() =~= evs.subrange(0, i as int));
        assert(evs.subrange(0, i as int + 1).last() == events@[i as int]@);
        let ghost before = out@;
        match rewrite(&mut state, &events[i], i, options) {
            Some(x) => {
                out.push(x);
                assert(out_views(out@) =~= out_views(before).push(x@));
            },
            None => {},
        }
        i += 1;
    }
    assert(evs.subrange(0, events@.len() as int) =~= evs);
    out
}

/// Renders a Markdown text to HTML under these options.
pub fn make_html(content: &str, options: &Settings) -> (r: String)
    ensures
        r@ == converted(content@, *options),
{
    let bits = extensions(options);
    let events = parse_events(content, bits);
    let out = transform(&events, options);
    render_events(content, bits, &out)
}

/// The stream that keeps every event as the parser gave it.
pub open spec fn unchanged(n: nat) -> Seq<OutView> {
    Seq::new(n, |i: int| OutView::Source(i as usize))
}

/// No heading: no heading start or end, and no text that starts with `#`.
pub open spec fn without_headings(evs: Seq<InView>) -> bool {
    forall|k: int|
        0 <= k < evs.len() ==> match #[trigger] evs[k] {
            InView::StartHeading(l) => !(1 <= l && l <= 6),
            InView::EndHeading => false,
            InView::Text(t) => hash_run(t) == 0,
            _ => true,
        }
}

proof fn lemma_defaults_keep_prefix(evs: Seq<InView>, o: Settings, n: int)
    requires
        o.is_default(),
        without_headings(evs),
        0 <= n <= evs.len(),
        evs.len() <= usize::MAX,
    ensures
        run(evs.subrange(0, n), o) == (PendingView::Nothing, unchanged(n as nat)),
    decreases n,
{
    if n > 0 {
        lemma_defaults_keep_prefix(evs, o, n - 1);
        assert(evs.subrange(0, n).drop_last() =~= evs.subrange(0, n - 1));
        assert(evs.subrange(0, n).last() == evs[n - 1]);
        assert(unchanged((n - 1) as nat).push(OutView::Source((n - 1) as usize)) =~= unchanged(n as nat));
    }
}

/// Under the default options a stream without headings comes out as the
/// parser gave it, so the HTML is the plain renderer's.
pub proof fn lemma_default_rendering(content: Seq<char>, o: Settings)
    requires
        o.is_default(),
        without_headings(cmark_parse(content, extension_bits(o))),
        cmark_parse(content, extension_bits(o)).len() <= usize::MAX,
    ensures
        transformed(cmark_parse(content, extension_bits(o)), o) == unchanged(
            cmark_parse(content, extension_bits(o)).len(),
        ),
        converted(content, o) == cmark_render(
            content,
            extension_bits(o),
            unchanged(cmark_parse(content, extension_bits(o)).len()),
        ),
{
    let evs = cmark_parse(content, extension_bits(o));
    lemma_defaults_keep_prefix(evs, o, evs.len() as int);
    assert(evs.subrange(0, evs.len() as int) =~= evs);
}

/// With `headerLevelStart` at `k`, a heading of level `n` is written at level
/// `k + n - 1`: its start sets that level, and its text comes out as a
/// heading of that level (links made of mentions where those are on).
pub proof fn lemma_level_offset(k: i64, n: u32, st: PendingView, t: Seq<char>, i: usize, j: usize, o: Settings)
    requires
        o.header_level_start == crate::options::OptionValue::Int(k),
        1 <= n <= 6,
    ensures
        step(st, InView::StartHeading(n), i, o) == (PendingView::Heading((k + n - 1) as i128), None::<OutView>),
        ({
            let shown = if o.emoji.truthy() {
                emoji_of(t)
            } else {
                t
            };
            let h = heading_html(k + n - 1, shown, o);
            step(PendingView::Heading((k + n - 1) as i128), InView::Text(t), j, o).1 == Some(
                if o.gh_mentions.truthy() && h.contains('@') {
                    OutView::Html(mentions_linked(h, o))
                } else {
                    OutView::Html(h)
                },
            )
        }),
        k == 1 ==> step(st, InView::StartHeading(n), i, o).0 == PendingView::Heading(n as i128),
{
}

/// Under `literalMidWordAsterisks` every strong-emphasis delimiter comes out
/// as the text `**`, and none passes to the renderer as emphasis.
pub proof fn lemma_literal_asterisks(evs: Seq<InView>, o: Settings)
    requires
        o.literal_mid_word_asterisks.truthy(),
        evs.len() <= usize::MAX,
    ensures
        forall|st: PendingView, i: usize|
            #[trigger] step(st, InView::StartStrong, i, o) == (st, Some(OutView::Text(seq!['*', '*']))),
        forall|st: PendingView, i: usize|
            #[trigger] step(st, InView::EndStrong, i, o) == (st, Some(OutView::Text(seq!['*', '*']))),
        forall|k: int|
            0 <= k < transformed(evs, o).len() ==> (#[trigger] transformed(evs, o)[k] is Source ==> {
                let e = evs[transformed(evs, o)[k]->Source_0 as int];
                e != InView::StartStrong && e != InView::EndStrong
            }),
{
    lemma_sources_kept(evs, o, evs.len() as int);
    assert(evs.subrange(0, evs.len() as int) =~= evs);
}

/// Under `literalMidWordAsterisks`, every `Source(i)` in the output of a
/// prefix names a position of that prefix that holds no strong-emphasis
/// delimiter.
proof fn lemma_sources_kept(evs: Seq<InView>, o: Settings, n: int)
    requires
        0 <= n <= evs.len(),
        evs.len() <= usize::MAX,
        o.literal_mid_word_asterisks.truthy(),
    ensures
        forall|k: int|
            0 <= k < run(evs.subrange(0, n), o).1.len() ==> (#[trigger] run(evs.subrange(0, n), o).1[k] is Source
                ==> {
                let p = run(evs.subrange(0, n), o).1[k]->Source_0 as int;
                0 <= p < n && evs[p] != InView::StartStrong && evs[p] != InView::EndStrong
            }),
    decreases n,
{
    if n > 0 {
        lemma_sources_kept(evs, o, n - 1);
        assert(evs.subrange(0, n).drop_last() =~= evs.subrange(0, n - 1));
        assert(evs.subrange(0, n).last() == evs[n - 1]);
    }
}

} // verus!
