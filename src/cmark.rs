use vstd::prelude::*;
use crate::events::{in_views, out_views, InEvent, InView, OutEvent, OutView};
use pulldown_cmark::{Event, Options, Parser, Tag};
use pulldown_cmark::Event::{End, SoftBreak, Start, Text};
use pulldown_cmark::Tag::{Heading, Link, Strong};

verus! {

/// The events that the Markdown parser gives for a text under these
/// extension bits.
pub uninterp spec fn cmark_parse(content: Seq<char>, extensions: u32) -> Seq<InView>;

/// The HTML that the renderer writes for a stream of events, the events kept
/// unchanged being those of the parse of `content`.
pub uninterp spec fn cmark_render(content: Seq<char>, extensions: u32, events: Seq<OutView>) -> Seq<char>;

/// What the emoji replacer makes of a text.
pub uninterp spec fn emoji_of(s: Seq<char>) -> Seq<char>;

/// Relies on `pulldown_cmark::Parser::new_ext`: the events of `content`,
/// which depend on the text and the extension bits alone, each sorted into
/// the kinds the rewrite rules tell apart.
#[verifier::external_body]
pub(crate) fn parse_events(content: &str, extensions: u32) -> (r: Vec<InEvent>)
    ensures
        in_views(r@) == cmark_parse(content@, extensions),
{
    Parser::new_ext(content, Options::from_bits_truncate(extensions)).map(|e| match e {
        Start(Heading(l)) => InEvent::StartHeading(l),
        End(Heading(_)) => InEvent::EndHeading,
        Start(Link(_, d, _)) => InEvent::StartLink(d.to_string()),
        Start(Strong) => InEvent::StartStrong,
        End(Strong) => InEvent::EndStrong,
        Text(t) => InEvent::Text(t.to_string()),
        SoftBreak => InEvent::SoftBreak,
        _ => InEvent::Other,
    }).collect()
}

/// Relies on `pulldown_cmark::html::push_html`: the HTML of a stream of
/// events, where `Source(i)` stands for the `i`-th event of the parse of
/// `content`; the result depends on these values alone.
#[verifier::external_body]
pub(crate) fn render_events(content: &str, extensions: u32, events: &Vec<OutEvent>) -> (r: String)
    requires
        forall|k: int| 0 <= k < events@.len() ==> (#[trigger] events@[k] is Source ==> events@[k]->Source_0 < cmark_parse(content@, extensions).len()),
    ensures
        r@ == cmark_render(content@, extensions, out_views(events@)),
{
    let src: Vec<Event> = Parser::new_ext(content, Options::from_bits_truncate(extensions)).collect();
    let mut out = String::new();
    pulldown_cmark::html::push_html(&mut out, events.iter().map(|e| match e {
        OutEvent::Source(i) => src[*i].clone(),
        OutEvent::Text(t) => Event::Text(t.clone().into()),
        OutEvent::Html(t) => Event::Html(t.clone().into()),
        OutEvent::SoftBreak => Event::SoftBreak,
        OutEvent::HardBreak => Event::HardBreak,
    }));
    out
}

/// Relies on `gh_emoji::Replacer::replace_all`: `:name:` shortcodes replaced
/// by their emoji; the result depends on the text alone.
#[verifier::external_body]
pub(crate) fn replace_emoji(v: &Vec<char>) -> (r: Vec<char>)
    ensures
        r@ == emoji_of(v@),
{
    let s: String = v.iter().collect();
    gh_emoji::Replacer::new().replace_all(&s).chars().collect()
}

} // verus!
