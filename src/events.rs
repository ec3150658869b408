use vstd::prelude::*;

verus! {

/// One event of the parser's stream, as far as the rewrite rules tell events
/// apart.
pub enum InEvent {
    /// The start of a heading of this level.
    StartHeading(u32),
    EndHeading,
    /// The start of a link to this destination.
    StartLink(String),
    StartStrong,
    EndStrong,
    Text(String),
    SoftBreak,
    /// Any other event, which no rule rewrites.
    Other,
}

/// One event of the rewritten stream.
pub enum OutEvent {
    /// The parser's event at this position, unchanged.
    Source(usize),
    /// Text, which the renderer escapes.
    Text(String),
    /// Markup, which the renderer writes as it stands.
    Html(String),
    SoftBreak,
    HardBreak,
}

} // verus!

verus! {

/// An input event with its text as characters.
pub enum InView {
    StartHeading(u32),
    EndHeading,
    StartLink(Seq<char>),
    StartStrong,
    EndStrong,
    Text(Seq<char>),
    SoftBreak,
    Other,
}

/// An output event with its text as characters.
pub enum OutView {
    Source(usize),
    Text(Seq<char>),
    Html(Seq<char>),
    SoftBreak,
    HardBreak,
}

impl View for InEvent {
    type V = InView;

    open spec fn view(&self) -> InView {
        match self {
            InEvent::StartHeading(l) => InView::StartHeading(*l),
            InEvent::EndHeading => InView::EndHeading,
            InEvent::StartLink(d) => InView::StartLink(d@),
            InEvent::StartStrong => InView::StartStrong,
            InEvent::EndStrong => InView::EndStrong,
            InEvent::Text(t) => InView::Text(t@),
            InEvent::SoftBreak => InView::SoftBreak,
            InEvent::Other => InView::Other,
        }
    }
}

impl View for OutEvent {
    type V = OutView;

    open spec fn view(&self) -> OutView {
        match self {
            OutEvent::Source(i) => OutView::Source(*i),
            OutEvent::Text(t) => OutView::Text(t@),
            OutEvent::Html(t) => OutView::Html(t@),
            OutEvent::SoftBreak => OutView::SoftBreak,
            OutEvent::HardBreak => OutView::HardBreak,
        }
    }
}

/// The views of a list of events.
pub open spec fn in_views(evs: Seq<InEvent>) -> Seq<InView> {
    evs.map_values(|e: InEvent| e@)
}

pub open spec fn out_views(evs: Seq<OutEvent>) -> Seq<OutView> {
    evs.map_values(|e: OutEvent| e@)
}

} // verus!
