//! Events of a self-profiling trace.

use vstd::prelude::*;

verus! {

/// What an event carries besides its label.
#[derive(Debug, Clone, PartialEq, Eq)]
pub enum Payload {
    /// A span with both endpoints, in nanoseconds on the trace's clock.
    Interval { start: u64, end: u64 },
    /// A single point in time, in nanoseconds on the trace's clock.
    Instant(u64),
    /// A recorded number.
    Integer(u64),
    /// A recorded text.
    Text(String),
}

/// What a [`Payload`] is in contracts.
pub enum PayloadView {
    Interval { start: u64, end: u64 },
    Instant(u64),
    Integer(u64),
    Text(Seq<char>),
}

impl View for Payload {
    type V = PayloadView;

    open spec fn view(&self) -> PayloadView {
        match *self {
            Payload::Interval { start, end } => PayloadView::Interval { start, end },
            Payload::Instant(at) => PayloadView::Instant(at),
            Payload::Integer(value) => PayloadView::Integer(value),
            Payload::Text(text) => PayloadView::Text(text@),
        }
    }
}

/// One recorded occurrence in a trace.
#[derive(Debug, Clone, PartialEq, Eq)]
pub struct Event {
    pub label: String,
    pub payload: Payload,
}

/// What an [`Event`] is in contracts.
pub struct EventView {
    pub label: Seq<char>,
    pub payload: PayloadView,
}

impl View for Event {
    type V = EventView;

    open spec fn view(&self) -> EventView {
        EventView { label: self.label@, payload: self.payload@ }
    }
}

/// The views of a sequence of events, in recording order.
pub open spec fn event_views(events: Seq<Event>) -> Seq<EventView> {
    events.map_values(|e: Event| e@)
}

/// The labels that the section extractor tells apart. Every other label is
/// `Other`.
#[derive(Clone, Copy, Debug, PartialEq, Eq, Hash)]
pub enum Label {
    TypeCheckCrate,
    MirBorrowck,
    GenerateCrateMetadata,
    CodegenCrate,
    FinishOngoingCodegen,
    LinkCrate,
    Other,
}

impl Label {
    /// The label that a text stands for.
    pub open spec fn of(text: Seq<char>) -> Label {
        if text == "type_check_crate"@ {
            Label::TypeCheckCrate
        } else if text == "mir_borrowck"@ {
            Label::MirBorrowck
        } else if text == "generate_crate_metadata"@ {
            Label::GenerateCrateMetadata
        } else if text == "codegen_crate"@ {
            Label::CodegenCrate
        } else if text == "finish_ongoing_codegen"@ {
            Label::FinishOngoingCodegen
        } else if text == "link_crate"@ {
            Label::LinkCrate
        } else {
            Label::Other
        }
    }

    /// Classifies the text of a label.
    pub fn classify(text: &str) -> (label: Label)
        ensures
            label == Label::of(text@),
    {
        let text = text.to_owned();
        if text == "type_check_crate".to_owned() {
            Label::TypeCheckCrate
        } else if text == "mir_borrowck".to_owned() {
            Label::MirBorrowck
        } else if text == "generate_crate_metadata".to_owned() {
            Label::GenerateCrateMetadata
        } else if text == "codegen_crate".to_owned() {
            Label::CodegenCrate
        } else if text == "finish_ongoing_codegen".to_owned() {
            Label::FinishOngoingCodegen
        } else if text == "link_crate".to_owned() {
            Label::LinkCrate
        } else {
            Label::Other
        }
    }
}

impl EventView {
    /// The label of the event, classified.
    pub open spec fn kind(self) -> Label {
        Label::of(self.label)
    }

    /// The start of the event's interval, if it carries one.
    pub open spec fn interval_start(self) -> Option<u64> {
        match self.payload {
            PayloadView::Interval { start, .. } => Some(start),
            _ => None,
        }
    }

    /// The end of the event's interval, if it carries one.
    pub open spec fn interval_end(self) -> Option<u64> {
        match self.payload {
            PayloadView::Interval { end, .. } => Some(end),
            _ => None,
        }
    }

    /// The length of the event's interval. An event without an interval has no
    /// duration, nor has one whose interval ends before it starts.
    pub open spec fn duration(self) -> Option<u64> {
        match self.payload {
            PayloadView::Interval { start, end } => if start <= end {
                Some((end - start) as u64)
            } else {
                None
            },
            _ => None,
        }
    }
}

impl Event {
    /// The label of the event, classified.
    pub fn kind(&self) -> (label: Label)
        ensures
            label == self@.kind(),
    {
        Label::classify(self.label.as_str())
    }

    /// The start of the event's interval, if it carries one.
    pub fn interval_start(&self) -> (start: Option<u64>)
        ensures
            start == self@.interval_start(),
    {
        match self.payload {
            Payload::Interval { start, .. } => Some(start),
            _ => None,
        }
    }

    /// The end of the event's interval, if it carries one.
    pub fn interval_end(&self) -> (end: Option<u64>)
        ensures
            end == self@.interval_end(),
    {
        match self.payload {
            Payload::Interval { end, .. } => Some(end),
            _ => None,
        }
    }

    /// The length of the event's interval, where it has one that does not end
    /// before it starts.
    pub fn duration(&self) -> (length: Option<u64>)
        ensures
            length == self@.duration(),
    {
        match self.payload {
            Payload::Interval { start, end } => if start <= end {
                Some(end - start)
            } else {
                None
            },
            _ => None,
        }
    }
}

} // verus!
