//! The section extractor: one forward pass over the events of a trace.
//!
//! The pass keeps five slots. Each is defined here as a function of the events
//! seen so far; [`sections_of`] puts the sections together, and
//! [`compute_compilation_sections`] computes them.

use crate::event::{event_views, Event, EventView, Label};
use crate::section::{section_views, CompilationSection, SectionKind, SectionView};
use vstd::prelude::*;

verus! {

/// The start of the first event, in recording order, that carries an interval,
/// whatever its label.
pub open spec fn first_event_start(events: Seq<EventView>) -> Option<u64>
    decreases events.len(),
{
    if events.len() == 0 {
        None
    } else {
        match first_event_start(events.drop_last()) {
            Some(start) => Some(start),
            None => events.last().interval_start(),
        }
    }
}

/// The start of the first `codegen_crate` event that carries an interval.
pub open spec fn backend_start(events: Seq<EventView>) -> Option<u64>
    decreases events.len(),
{
    if events.len() == 0 {
        None
    } else {
        match backend_start(events.drop_last()) {
            Some(start) => Some(start),
            None => if events.last().kind() == Label::CodegenCrate {
                events.last().interval_start()
            } else {
                None
            },
        }
    }
}

/// The end of the interval of the last `finish_ongoing_codegen` event. A later
/// such event replaces what an earlier one gave, also where it carries no
/// interval.
pub open spec fn backend_end(events: Seq<EventView>) -> Option<u64>
    decreases events.len(),
{
    if events.len() == 0 {
        None
    } else if events.last().kind() == Label::FinishOngoingCodegen {
        events.last().interval_end()
    } else {
        backend_end(events.drop_last())
    }
}

/// The duration that the last `link_crate` event reports of itself. A later
/// such event replaces what an earlier one gave, also where it has no duration.
pub open spec fn linker_duration(events: Seq<EventView>) -> Option<u64>
    decreases events.len(),
{
    if events.len() == 0 {
        None
    } else if events.last().kind() == Label::LinkCrate {
        events.last().duration()
    } else {
        linker_duration(events.drop_last())
    }
}

/// What one event adds to the borrow-checking total.
pub open spec fn borrowck_share(event: EventView) -> nat {
    if event.kind() == Label::MirBorrowck {
        match event.duration() {
            Some(length) => length as nat,
            None => 0,
        }
    } else {
        0
    }
}

/// The sum of the durations of all `mir_borrowck` events.
pub open spec fn borrowck_total(events: Seq<EventView>) -> nat
    decreases events.len(),
{
    if events.len() == 0 {
        0
    } else {
        borrowck_total(events.drop_last()) + borrowck_share(events.last())
    }
}

/// The section that one event gives rise to by itself: `typeck` for a
/// `type_check_crate` event, `metadata` for a `generate_crate_metadata` event,
/// each with the event's own duration.
pub open spec fn emitted_by(event: EventView) -> Seq<SectionView> {
    match (event.kind(), event.duration()) {
        (Label::TypeCheckCrate, Some(length)) => seq![SectionKind::Typeck.with_value(length)],
        (Label::GenerateCrateMetadata, Some(length)) => seq![
            SectionKind::Metadata.with_value(length),
        ],
        _ => Seq::empty(),
    }
}

/// The sections that the events give rise to one by one, in recording order.
pub open spec fn emitted_sections(events: Seq<EventView>) -> Seq<SectionView>
    decreases events.len(),
{
    if events.len() == 0 {
        Seq::empty()
    } else {
        emitted_sections(events.drop_last()) + emitted_by(events.last())
    }
}

/// The time from `from` to `to`, where both are there and `to` is not before
/// `from`.
pub open spec fn elapsed(from: Option<u64>, to: Option<u64>) -> Option<u64> {
    match (from, to) {
        (Some(a), Some(b)) => if a <= b {
            Some((b - a) as u64)
        } else {
            None
        },
        _ => None,
    }
}

/// The value of the `Frontend` section, where there is one.
pub open spec fn frontend(events: Seq<EventView>) -> Option<u64> {
    elapsed(first_event_start(events), backend_start(events))
}

/// The value of the `Backend` section, where there is one.
pub open spec fn backend(events: Seq<EventView>) -> Option<u64> {
    elapsed(backend_start(events), backend_end(events))
}

/// No section where there is no value, else the one section of that kind.
pub open spec fn optional_section(kind: SectionKind, value: Option<u64>) -> Seq<SectionView> {
    match value {
        Some(v) => seq![kind.with_value(v)],
        None => Seq::empty(),
    }
}

/// The sections that are put together when the pass is over: `Frontend`,
/// `Backend` and `Linker` as far as they were observed, then `borrowck`.
pub open spec fn derived_sections(events: Seq<EventView>) -> Seq<SectionView> {
    optional_section(SectionKind::Frontend, frontend(events)) + optional_section(
        SectionKind::Backend,
        backend(events),
    ) + optional_section(SectionKind::Linker, linker_duration(events)) + seq![
        SectionKind::Borrowck.with_value(borrowck_total(events) as u64),
    ]
}

/// The compilation sections of a trace.
pub open spec fn sections_of(events: Seq<EventView>) -> Seq<SectionView> {
    emitted_sections(events) + derived_sections(events)
}

/// Whether the sections of a trace can be computed: the durations of the
/// `mir_borrowck` events add up to no more than `u64::MAX`.
pub open spec fn extractable(events: Seq<EventView>) -> bool {
    borrowck_total(events) <= u64::MAX
}

/// The borrow-checking total of a prefix is no more than that of the whole.
pub proof fn lemma_borrowck_total_prefix(events: Seq<EventView>, n: int)
    requires
        0 <= n <= events.len(),
    ensures
        borrowck_total(events.take(n)) <= borrowck_total(events),
    decreases events.len(),
{
    if n == events.len() {
        assert(events.take(n) =~= events);
    } else {
        assert(events.drop_last().take(n) =~= events.take(n));
        lemma_borrowck_total_prefix(events.drop_last(), n);
    }
}

/// The time from `from` to `to`; `None` where one of them is missing or the
/// subtraction would go below zero.
pub fn checked_elapsed(from: Option<u64>, to: Option<u64>) -> (span: Option<u64>)
    ensures
        span == elapsed(from, to),
{
    match (from, to) {
        (Some(a), Some(b)) => b.checked_sub(a),
        _ => None,
    }
}

/// Tells whether [`compute_compilation_sections`] can be called on the events.
pub fn can_extract(events: &[Event]) -> (ok: bool)
    ensures
        ok == extractable(event_views(events@)),
{
    let ghost all = event_views(events@);
    let mut total: u64 = 0;
    let mut i: usize = 0;
    while i < events.len()
        invariant
            i <= events.len(),
            all == event_views(events@),
            total == borrowck_total(all.take(i as int)),
        decreases events.len() - i,
    {
        let event = &events[i];
        proof {
            assert(all.take(i + 1).drop_last() =~= all.take(i as int));
            assert(all.take(i + 1).last() == event@);
        }
        match (event.kind(), event.duration()) {
            (Label::MirBorrowck, Some(length)) => {
                match total.checked_add(length) {
                    Some(sum) => {
                        total = sum;
                    },
                    None => {
                        proof {
                            lemma_borrowck_total_prefix(all, i + 1);
                        }
                        return false;
                    },
                }
            },
            _ => {},
        }
        i += 1;
    }
    proof {
        assert(all.take(i as int) =~= all);
    }
    true
}

/// Computes the compilation sections of a trace in one forward pass.
///
/// The sections that single events give rise to come first, in recording
/// order; `Frontend`, `Backend` and `Linker` follow as far as their endpoints
/// were observed; `borrowck` comes last and is always there. An event whose
/// duration is asked for and that has none gives rise to no section and adds
/// nothing to the total.
pub fn compute_compilation_sections(events: &[Event]) -> (sections: Vec<CompilationSection>)
    requires
        extractable(event_views(events@)),
    ensures
        section_views(sections@) == sections_of(event_views(events@)),
{
    let ghost all = event_views(events@);
    let mut first_start: Option<u64> = None;
    let mut codegen_start: Option<u64> = None;
    let mut codegen_end: Option<u64> = None;
    let mut link_time: Option<u64> = None;
    let mut mir_borrowck: u64 = 0;
    let mut sections: Vec<CompilationSection> = Vec::new();

    let mut i: usize = 0;
    while i < events.len()
        invariant
            i <= events.len(),
            all == event_views(events@),
            extractable(all),
            first_start == first_event_start(all.take(i as int)),
            codegen_start == backend_start(all.take(i as int)),
            codegen_end == backend_end(all.take(i as int)),
            link_time == linker_duration(all.take(i as int)),
            mir_borrowck == borrowck_total(all.take(i as int)),
            section_views(sections@) == emitted_sections(all.take(i as int)),
        decreases events.len() - i,
    {
        let event = &events[i];
        let ghost before = section_views(sections@);
        proof {
            assert(all.take(i + 1).drop_last() =~= all.take(i as int));
            assert(all.take(i + 1).last() == event@);
            assert(all[i as int] == event@);
            lemma_borrowck_total_prefix(all, i + 1);
        }
        if first_start.is_none() {
            first_start = event.interval_start();
        }
        match event.kind() {
            Label::TypeCheckCrate => {
                match event.duration() {
                    Some(length) => {
                        sections.push(SectionKind::Typeck.section(length));
                    },
                    None => {},
                }
            },
            Label::MirBorrowck => {
                match event.duration() {
                    Some(length) => {
                        mir_borrowck = mir_borrowck + length;
                    },
                    None => {},
                }
            },
            Label::GenerateCrateMetadata => {
                match event.duration() {
                    Some(length) => {
                        sections.push(SectionKind::Metadata.section(length));
                    },
                    None => {},
                }
            },
            Label::CodegenCrate => {
                if codegen_start.is_none() {
                    codegen_start = event.interval_start();
                }
            },
            Label::FinishOngoingCodegen => {
                codegen_end = event.interval_end();
            },
            Label::LinkCrate => {
                link_time = event.duration();
            },
            Label::Other => {},
        }
        proof {
            assert(section_views(sections@) =~= before + emitted_by(event@));
        }
        i += 1;
    }
    proof {
        assert(all.take(i as int) =~= all);
    }
    let ghost emitted = section_views(sections@);
    match checked_elapsed(first_start, codegen_start) {
        Some(span) => {
            sections.push(SectionKind::Frontend.section(span));
        },
        None => {},
    }
    let ghost with_frontend = section_views(sections@);
    match checked_elapsed(codegen_start, codegen_end) {
        Some(span) => {
            sections.push(SectionKind::Backend.section(span));
        },
        None => {},
    }
    let ghost with_backend = section_views(sections@);
    match link_time {
        Some(length) => {
            sections.push(SectionKind::Linker.section(length));
        },
        None => {},
    }
    let ghost with_linker = section_views(sections@);
    sections.push(SectionKind::Borrowck.section(mir_borrowck));
    proof {
        assert(with_frontend =~= emitted + optional_section(SectionKind::Frontend, frontend(all)));
        assert(with_backend =~= with_frontend + optional_section(
            SectionKind::Backend,
            backend(all),
        ));
        assert(with_linker =~= with_backend + optional_section(
            SectionKind::Linker,
            linker_duration(all),
        ));
        assert(section_views(sections@) =~= with_linker + seq![
            SectionKind::Borrowck.with_value(mir_borrowck),
        ]);
        assert(section_views(sections@) =~= sections_of(all));
    }
    sections
}

/// Computes the compilation sections of a trace, where they can be computed:
/// `None` where the durations of the `mir_borrowck` events add up to more than
/// `u64::MAX`.
pub fn checked_compilation_sections(events: &[Event]) -> (sections: Option<
    Vec<CompilationSection>,
>)
    ensures
        match sections {
            Some(found) => extractable(event_views(events@)) && section_views(found@)
                == sections_of(event_views(events@)),
            None => !extractable(event_views(events@)),
        },
{
    if can_extract(events) {
        Some(compute_compilation_sections(events))
    } else {
        None
    }
}

} // verus!
