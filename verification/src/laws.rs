//! What holds of the sections of every trace.
//!
//! The functions of [`crate::extract`] define each slot of the pass by
//! recursion over the events. The laws here say what follows for the sections
//! of whole traces; [`crate::lemmas`] holds the steps they rest on.

use crate::event::{event_views, Event, EventView, Label, PayloadView};
use crate::extract::{
    backend, backend_end, backend_start, borrowck_total, emitted_by, emitted_sections,
    first_event_start, frontend, linker_duration, optional_section, sections_of,
};
use crate::lemmas::{
    lemma_all_counts, lemma_backend_end, lemma_backend_end_none, lemma_backend_start,
    lemma_backend_start_none, lemma_borrowck_total_zero, lemma_derived_contains,
    lemma_emitted_contains, lemma_first_event_start, lemma_found_in_trace,
    lemma_linker_duration, lemma_linker_duration_none, lemma_timed_at_most_labelled,
    lemma_timed_one,
};
use crate::report::{timings_of, value_or_zero, MissingSection, PhaseTimings};
use crate::section::{section_views, CompilationSection, SectionKind, SectionView};
use vstd::prelude::*;

verus! {

/// How many of the sections carry the name of the kind.
pub open spec fn occurrences(sections: Seq<SectionView>, kind: SectionKind) -> nat
    decreases sections.len(),
{
    if sections.len() == 0 {
        0
    } else {
        occurrences(sections.drop_last(), kind) + if sections.last().name == kind.spec_name() {
            1nat
        } else {
            0nat
        }
    }
}

/// How many of the events carry the label and have a duration.
pub open spec fn timed(events: Seq<EventView>, label: Label) -> nat
    decreases events.len(),
{
    if events.len() == 0 {
        0
    } else {
        timed(events.drop_last(), label) + if events.last().kind() == label
            && events.last().duration() is Some {
            1nat
        } else {
            0nat
        }
    }
}

/// How many of the events carry the label.
pub open spec fn labelled(events: Seq<EventView>, label: Label) -> nat
    decreases events.len(),
{
    if events.len() == 0 {
        0
    } else {
        labelled(events.drop_last(), label) + if events.last().kind() == label {
            1nat
        } else {
            0nat
        }
    }
}

/// Whether the event can decide [`backend_start`].
pub open spec fn starts_backend(event: EventView) -> bool {
    event.kind() == Label::CodegenCrate && event.interval_start() is Some
}

/// The borrow-checking total of two traces, one after the other, is the sum of
/// their totals.
pub proof fn law_borrowck_total_adds_up(a: Seq<EventView>, b: Seq<EventView>)
    ensures
        borrowck_total(a + b) == borrowck_total(a) + borrowck_total(b),
    decreases b.len(),
{
    if b.len() == 0 {
        assert(a + b =~= a);
    } else {
        assert((a + b).drop_last() =~= a + b.drop_last());
        law_borrowck_total_adds_up(a, b.drop_last());
    }
}

/// A trace holds one `borrowck` section; at most one `Frontend`, one `Backend`
/// and one `Linker` section; one `typeck` section for each `type_check_crate`
/// event that has a duration and one `metadata` section for each
/// `generate_crate_metadata` event that has one: at most one of each where the
/// trace holds at most one event with the label.
pub proof fn law_section_counts(events: Seq<EventView>)
    ensures
        occurrences(sections_of(events), SectionKind::Borrowck) == 1,
        occurrences(sections_of(events), SectionKind::Frontend) <= 1,
        occurrences(sections_of(events), SectionKind::Backend) <= 1,
        occurrences(sections_of(events), SectionKind::Linker) <= 1,
        occurrences(sections_of(events), SectionKind::Frontend) == 1 <==> frontend(events) is Some,
        occurrences(sections_of(events), SectionKind::Backend) == 1 <==> backend(events) is Some,
        occurrences(sections_of(events), SectionKind::Linker) == 1 <==> linker_duration(events)
            is Some,
        occurrences(sections_of(events), SectionKind::Typeck) == timed(
            events,
            Label::TypeCheckCrate,
        ),
        occurrences(sections_of(events), SectionKind::Metadata) == timed(
            events,
            Label::GenerateCrateMetadata,
        ),
        occurrences(sections_of(events), SectionKind::Typeck) <= labelled(
            events,
            Label::TypeCheckCrate,
        ),
        occurrences(sections_of(events), SectionKind::Metadata) <= labelled(
            events,
            Label::GenerateCrateMetadata,
        ),
{
    lemma_timed_at_most_labelled(events, Label::TypeCheckCrate);
    lemma_timed_at_most_labelled(events, Label::GenerateCrateMetadata);
    lemma_all_counts(events, SectionKind::Borrowck);
    lemma_all_counts(events, SectionKind::Frontend);
    lemma_all_counts(events, SectionKind::Backend);
    lemma_all_counts(events, SectionKind::Linker);
    lemma_all_counts(events, SectionKind::Typeck);
    lemma_all_counts(events, SectionKind::Metadata);
}

/// Where a trace holds one `type_check_crate` event, with the interval from
/// `t0` to `t1`, its sections hold one `typeck` section, and its value is
/// `t1 - t0`. The same holds of a `generate_crate_metadata` event and the
/// `metadata` section.
pub proof fn law_own_duration(events: Seq<EventView>, at: int, t0: u64, t1: u64)
    requires
        0 <= at < events.len(),
        events[at].kind() == Label::TypeCheckCrate || events[at].kind()
            == Label::GenerateCrateMetadata,
        events[at].payload == (PayloadView::Interval { start: t0, end: t1 }),
        t0 <= t1,
        forall|i: int|
            0 <= i < events.len() && i != at ==> #[trigger] events[i].kind() != events[at].kind(),
    ensures
        events[at].kind() == Label::TypeCheckCrate ==> {
            &&& sections_of(events).contains(SectionKind::Typeck.with_value((t1 - t0) as u64))
            &&& occurrences(sections_of(events), SectionKind::Typeck) == 1
        },
        events[at].kind() == Label::GenerateCrateMetadata ==> {
            &&& sections_of(events).contains(SectionKind::Metadata.with_value((t1 - t0) as u64))
            &&& occurrences(sections_of(events), SectionKind::Metadata) == 1
        },
{
    let length = (t1 - t0) as u64;
    assert(events[at].duration() == Some(length));
    let own = emitted_by(events[at]);
    lemma_timed_one(events, events[at].kind(), at);
    law_section_counts(events);
    if events[at].kind() == Label::TypeCheckCrate {
        assert(own[0] == SectionKind::Typeck.with_value(length));
        lemma_emitted_contains(events, at, SectionKind::Typeck.with_value(length));
    } else {
        assert(own[0] == SectionKind::Metadata.with_value(length));
        lemma_emitted_contains(events, at, SectionKind::Metadata.with_value(length));
    }
}

/// The last section of every trace is `borrowck`; where the durations of the
/// `mir_borrowck` events add up to no more than `u64::MAX`, its value is their
/// exact sum, and without any such event it is zero.
pub proof fn law_borrowck(events: Seq<EventView>)
    ensures
        sections_of(events).len() > 0,
        sections_of(events).last().name == SectionKind::Borrowck.spec_name(),
        borrowck_total(events) <= u64::MAX ==> sections_of(events).last().value
            == borrowck_total(events),
        (forall|i: int| 0 <= i < events.len() ==> #[trigger] events[i].kind() != Label::MirBorrowck)
            ==> sections_of(events).last() == SectionKind::Borrowck.with_value(0),
{
    if forall|i: int| 0 <= i < events.len() ==> #[trigger] events[i].kind() != Label::MirBorrowck {
        lemma_borrowck_total_zero(events);
    }
}

/// Where one `codegen_crate` event starts at `ta`, one
/// `finish_ongoing_codegen` event ends at `tb`, after `ta`, and the first event
/// with an interval stands no later in the trace and starts at `t0`, no later
/// than `ta`: the sections hold `Frontend` with `ta - t0` and `Backend` with
/// `tb - ta`.
pub proof fn law_frontend_and_backend(
    events: Seq<EventView>,
    first: int,
    codegen: int,
    finish: int,
    t0: u64,
    ta: u64,
    tb: u64,
)
    requires
        0 <= first <= codegen < events.len(),
        0 <= finish < events.len(),
        events[first].interval_start() == Some(t0),
        forall|i: int| 0 <= i < first ==> (#[trigger] events[i]).interval_start() is None,
        events[codegen].kind() == Label::CodegenCrate,
        events[codegen].interval_start() == Some(ta),
        forall|i: int|
            0 <= i < events.len() && i != codegen ==> #[trigger] events[i].kind()
                != Label::CodegenCrate,
        events[finish].kind() == Label::FinishOngoingCodegen,
        events[finish].interval_end() == Some(tb),
        forall|i: int|
            0 <= i < events.len() && i != finish ==> #[trigger] events[i].kind()
                != Label::FinishOngoingCodegen,
        t0 <= ta < tb,
    ensures
        frontend(events) == Some((ta - t0) as u64),
        backend(events) == Some((tb - ta) as u64),
        sections_of(events).contains(SectionKind::Frontend.with_value((ta - t0) as u64)),
        sections_of(events).contains(SectionKind::Backend.with_value((tb - ta) as u64)),
{
    lemma_first_event_start(events, first);
    lemma_backend_start(events, codegen);
    lemma_backend_end(events, finish);
    lemma_derived_contains(events);
}

/// A trace without a `finish_ongoing_codegen` event has no `Backend` section,
/// and its other sections are what they are for any trace.
pub proof fn law_no_finish_no_backend(events: Seq<EventView>)
    requires
        forall|i: int|
            0 <= i < events.len() ==> #[trigger] events[i].kind() != Label::FinishOngoingCodegen,
    ensures
        backend(events) is None,
        occurrences(sections_of(events), SectionKind::Backend) == 0,
        sections_of(events) == emitted_sections(events) + optional_section(
            SectionKind::Frontend,
            frontend(events),
        ) + optional_section(SectionKind::Linker, linker_duration(events)) + seq![
            SectionKind::Borrowck.with_value(borrowck_total(events) as u64),
        ],
{
    lemma_backend_end_none(events);
    law_section_counts(events);
    assert(sections_of(events) =~= emitted_sections(events) + optional_section(
        SectionKind::Frontend,
        frontend(events),
    ) + optional_section(SectionKind::Linker, linker_duration(events)) + seq![
        SectionKind::Borrowck.with_value(borrowck_total(events) as u64),
    ]);
}

/// A trace without a `codegen_crate` event that carries an interval has
/// neither a `Frontend` nor a `Backend` section.
pub proof fn law_no_codegen_no_frontend_no_backend(events: Seq<EventView>)
    requires
        forall|i: int| 0 <= i < events.len() ==> !starts_backend(#[trigger] events[i]),
    ensures
        frontend(events) is None,
        backend(events) is None,
        occurrences(sections_of(events), SectionKind::Frontend) == 0,
        occurrences(sections_of(events), SectionKind::Backend) == 0,
{
    lemma_backend_start_none(events);
    law_section_counts(events);
}

/// The `Linker` section holds the duration that the last `link_crate` event
/// reports of itself, whatever the codegen events say; a trace without a
/// `link_crate` event has no `Linker` section.
pub proof fn law_linker(events: Seq<EventView>)
    ensures
        forall|at: int|
            0 <= at < events.len() && #[trigger] events[at].kind() == Label::LinkCrate && (forall|
                i: int,
            |
                at < i < events.len() ==> #[trigger] events[i].kind() != Label::LinkCrate)
                ==> linker_duration(events) == events[at].duration(),
        (forall|i: int| 0 <= i < events.len() ==> #[trigger] events[i].kind() != Label::LinkCrate)
            ==> linker_duration(events) is None,
        linker_duration(events) matches Some(length) ==> sections_of(events).contains(
            SectionKind::Linker.with_value(length),
        ),
        linker_duration(events) is None ==> occurrences(sections_of(events), SectionKind::Linker)
            == 0,
{
    assert forall|at: int|
        0 <= at < events.len() && #[trigger] events[at].kind() == Label::LinkCrate && (forall|
            i: int,
        |
            at < i < events.len() ==> #[trigger] events[i].kind()
                != Label::LinkCrate) implies linker_duration(events) == events[at].duration() by {
        lemma_linker_duration(events, at);
    }
    if forall|i: int| 0 <= i < events.len() ==> #[trigger] events[i].kind() != Label::LinkCrate {
        lemma_linker_duration_none(events);
    }
    lemma_derived_contains(events);
    law_section_counts(events);
}

/// Where the backend is recorded to start before the first event of the trace
/// starts, there is no `Frontend` section; where it is recorded to end before
/// it starts, there is no `Backend` section.
pub proof fn law_negative_span_omitted(events: Seq<EventView>)
    ensures
        (first_event_start(events) matches Some(a) && backend_start(events) matches Some(b) && b
            < a) ==> occurrences(sections_of(events), SectionKind::Frontend) == 0,
        (backend_start(events) matches Some(a) && backend_end(events) matches Some(b) && b < a)
            ==> occurrences(sections_of(events), SectionKind::Backend) == 0,
{
    law_section_counts(events);
}

/// Two runs on traces that hold the same events give the same sections, name
/// for name and value for value.
pub proof fn law_extraction_repeats(
    events: Seq<Event>,
    again: Seq<Event>,
    first: Seq<CompilationSection>,
    second: Seq<CompilationSection>,
)
    requires
        event_views(events) == event_views(again),
        section_views(first) == sections_of(event_views(events)),
        section_views(second) == sections_of(event_views(again)),
    ensures
        first.len() == second.len(),
        forall|i: int|
            0 <= i < first.len() ==> first[i].name@ == second[i].name@ && first[i].value
                == second[i].value,
{
    assert(section_views(first).len() == first.len());
    assert(section_views(second).len() == second.len());
    assert forall|i: int| 0 <= i < first.len() implies first[i].name@ == second[i].name@
        && first[i].value == second[i].value by {
        assert(section_views(first)[i] == first[i]@);
        assert(section_views(second)[i] == second[i]@);
    }
}

/// The timings that are read off the sections of a trace: the first of
/// `Frontend`, `Backend` and `Linker` that the trace does not give is reported
/// missing; where it gives all three, the timings hold them, the
/// borrow-checking total, and for `typeck` and `metadata` the first such
/// section of a single event, or zero.
pub proof fn law_timings_of_trace(events: Seq<EventView>)
    ensures
        timings_of(sections_of(events)) == match (
            frontend(events),
            backend(events),
            linker_duration(events),
        ) {
            (None, _, _) => Err::<PhaseTimings, MissingSection>(MissingSection::Frontend),
            (Some(_), None, _) => Err(MissingSection::Backend),
            (Some(_), Some(_), None) => Err(MissingSection::Linker),
            (Some(f), Some(b), Some(l)) => Ok(
                PhaseTimings {
                    frontend: f,
                    backend: b,
                    linker: l,
                    typeck: value_or_zero(emitted_sections(events), SectionKind::Typeck),
                    borrowck: borrowck_total(events) as u64,
                    metadata: value_or_zero(emitted_sections(events), SectionKind::Metadata),
                },
            ),
        },
{
    lemma_found_in_trace(events, SectionKind::Frontend);
    lemma_found_in_trace(events, SectionKind::Backend);
    lemma_found_in_trace(events, SectionKind::Linker);
    lemma_found_in_trace(events, SectionKind::Typeck);
    lemma_found_in_trace(events, SectionKind::Borrowck);
    lemma_found_in_trace(events, SectionKind::Metadata);
}

} // verus!
