//! The markdown events that the library reads and writes.
//!
//! An [`Event`] is generic over its text type `S` and its list of column
//! alignments `L`: the executable form [`MdEvent`] holds `String`s and a
//! `Vec`, its view [`EventView`] holds `Seq<char>`s and a `Seq`.
use vstd::prelude::*;

verus! {

/// The alignment of a table column.
#[derive(Clone, Copy, PartialEq, Eq, Structural, Debug)]
pub enum Alignment {
    /// No alignment given.
    Unspecified,
    Left,
    Right,
    Center,
}

/// The level of a heading, from `#` to `######`.
#[derive(Clone, Copy, PartialEq, Eq, Structural, Debug)]
pub enum HeadingLevel {
    H1,
    H2,
    H3,
    H4,
    H5,
    H6,
}

/// One markdown event, in document order.
///
/// `borrowed` is set where the parser handed the text out as a slice of the
/// source document; only such text opens or fills a NADI code block.
/// Events that nothing here renders are [`Event::Other`].
#[derive(Debug, PartialEq, Eq)]
pub enum Event<S, L> {
    Text { text: S, borrowed: bool },
    Code(S),
    Html(S),
    SoftBreak,
    HardBreak,
    StartParagraph,
    EndParagraph,
    StartStrong,
    EndStrong,
    StartLink(S),
    EndLink,
    StartFencedCode { info: S, borrowed: bool },
    StartIndentedCode,
    EndCodeBlock,
    StartList(Option<u64>),
    EndList,
    StartItem,
    EndItem,
    StartHeading(HeadingLevel),
    EndHeading,
    StartImage(S),
    EndImage,
    StartTable(L),
    StartTableHead,
    EndTableHead,
    EndTableCell,
    EndTable,
    Other,
}

/// An event as the library receives and returns it.
pub type MdEvent = Event<String, Vec<Alignment>>;

/// The mathematical value of an [`MdEvent`].
pub type EventView = Event<Seq<char>, Seq<Alignment>>;

impl View for Event<String, Vec<Alignment>> {
    type V = Event<Seq<char>, Seq<Alignment>>;

    open spec fn view(&self) -> EventView {
        match self {
            Event::Text { text, borrowed } => Event::Text { text: text@, borrowed: *borrowed },
            Event::Code(c) => Event::Code(c@),
            Event::Html(h) => Event::Html(h@),
            Event::SoftBreak => Event::SoftBreak,
            Event::HardBreak => Event::HardBreak,
            Event::StartParagraph => Event::StartParagraph,
            Event::EndParagraph => Event::EndParagraph,
            Event::StartStrong => Event::StartStrong,
            Event::EndStrong => Event::EndStrong,
            Event::StartLink(u) => Event::StartLink(u@),
            Event::EndLink => Event::EndLink,
            Event::StartFencedCode { info, borrowed } => Event::StartFencedCode {
                info: info@,
                borrowed: *borrowed,
            },
            Event::StartIndentedCode => Event::StartIndentedCode,
            Event::EndCodeBlock => Event::EndCodeBlock,
            Event::StartList(l) => Event::StartList(*l),
            Event::EndList => Event::EndList,
            Event::StartItem => Event::StartItem,
            Event::EndItem => Event::EndItem,
            Event::StartHeading(l) => Event::StartHeading(*l),
            Event::EndHeading => Event::EndHeading,
            Event::StartImage(u) => Event::StartImage(u@),
            Event::EndImage => Event::EndImage,
            Event::StartTable(a) => Event::StartTable(a@),
            Event::StartTableHead => Event::StartTableHead,
            Event::EndTableHead => Event::EndTableHead,
            Event::EndTableCell => Event::EndTableCell,
            Event::EndTable => Event::EndTable,
            Event::Other => Event::Other,
        }
    }
}

/// The views of a sequence of events.
pub open spec fn event_views(v: Seq<MdEvent>) -> Seq<EventView> {
    v.map_values(|e: MdEvent| e@)
}

} // verus!
