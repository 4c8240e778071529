//! The steps that the laws of [`crate::laws`] rest on: how counting and
//! looking up behave on sections that are put together, and which event
//! decides each slot of the pass.

use crate::event::{EventView, Label};
use crate::extract::{
    backend, backend_end, backend_start, borrowck_total, derived_sections, emitted_by,
    emitted_sections, first_event_start, frontend, linker_duration, optional_section,
    sections_of,
};
use crate::laws::{labelled, occurrences, starts_backend, timed};
use crate::report::first_value;
use crate::section::{lemma_names_distinct, SectionKind, SectionView};
use vstd::prelude::*;

verus! {

/// Counting over a concatenation adds up.
pub proof fn lemma_occurrences_concat(a: Seq<SectionView>, b: Seq<SectionView>, kind: SectionKind)
    ensures
        occurrences(a + b, kind) == occurrences(a, kind) + occurrences(b, kind),
    decreases b.len(),
{
    if b.len() == 0 {
        assert(a + b =~= a);
    } else {
        assert((a + b).drop_last() =~= a + b.drop_last());
        lemma_occurrences_concat(a, b.drop_last(), kind);
    }
}

/// A single section counts once under its own kind and not under another.
pub proof fn lemma_occurrences_single(of: SectionKind, value: u64, kind: SectionKind)
    ensures
        occurrences(seq![of.with_value(value)], kind) == if of == kind {
            1nat
        } else {
            0nat
        },
{
    reveal_with_fuel(occurrences, 2);
    let one = seq![of.with_value(value)];
    assert(one.drop_last().len() == 0);
    assert(one.last() == of.with_value(value));
    if of.spec_name() == kind.spec_name() {
        lemma_names_distinct(of, kind);
    }
}

/// What an optional section counts under a kind.
pub proof fn lemma_occurrences_optional(of: SectionKind, value: Option<u64>, kind: SectionKind)
    ensures
        occurrences(optional_section(of, value), kind) == if of == kind && value is Some {
            1nat
        } else {
            0nat
        },
{
    match value {
        Some(v) => {
            lemma_occurrences_single(of, v, kind);
        },
        None => {},
    }
}

/// The sections that single events give rise to: one `typeck` for each
/// `type_check_crate` event with a duration, one `metadata` for each
/// `generate_crate_metadata` event with a duration, and no other.
pub proof fn lemma_occurrences_emitted(events: Seq<EventView>, kind: SectionKind)
    ensures
        occurrences(emitted_sections(events), kind) == match kind {
            SectionKind::Typeck => timed(events, Label::TypeCheckCrate),
            SectionKind::Metadata => timed(events, Label::GenerateCrateMetadata),
            _ => 0,
        },
    decreases events.len(),
{
    if events.len() > 0 {
        lemma_occurrences_emitted(events.drop_last(), kind);
        lemma_occurrences_concat(
            emitted_sections(events.drop_last()),
            emitted_by(events.last()),
            kind,
        );
        match (events.last().kind(), events.last().duration()) {
            (Label::TypeCheckCrate, Some(length)) => {
                lemma_occurrences_single(SectionKind::Typeck, length, kind);
            },
            (Label::GenerateCrateMetadata, Some(length)) => {
                lemma_occurrences_single(SectionKind::Metadata, length, kind);
            },
            _ => {},
        }
    }
}

/// What the sections put together at the end count under a kind.
pub proof fn lemma_occurrences_derived(events: Seq<EventView>, kind: SectionKind)
    ensures
        occurrences(derived_sections(events), kind) == match kind {
            SectionKind::Frontend => if frontend(events) is Some {
                1nat
            } else {
                0nat
            },
            SectionKind::Backend => if backend(events) is Some {
                1nat
            } else {
                0nat
            },
            SectionKind::Linker => if linker_duration(events) is Some {
                1nat
            } else {
                0nat
            },
            SectionKind::Borrowck => 1,
            _ => 0,
        },
{
    let f = optional_section(SectionKind::Frontend, frontend(events));
    let b = optional_section(SectionKind::Backend, backend(events));
    let l = optional_section(SectionKind::Linker, linker_duration(events));
    let total = borrowck_total(events) as u64;
    let k = seq![SectionKind::Borrowck.with_value(total)];
    lemma_occurrences_optional(SectionKind::Frontend, frontend(events), kind);
    lemma_occurrences_optional(SectionKind::Backend, backend(events), kind);
    lemma_occurrences_optional(SectionKind::Linker, linker_duration(events), kind);
    lemma_occurrences_single(SectionKind::Borrowck, total, kind);
    lemma_occurrences_concat(f, b, kind);
    lemma_occurrences_concat(f + b, l, kind);
    lemma_occurrences_concat(f + b + l, k, kind);
}

/// No more events with a label have a duration than carry the label.
pub proof fn lemma_timed_at_most_labelled(events: Seq<EventView>, label: Label)
    ensures
        timed(events, label) <= labelled(events, label),
    decreases events.len(),
{
    if events.len() > 0 {
        lemma_timed_at_most_labelled(events.drop_last(), label);
    }
}

/// No event with the label: none is counted.
pub proof fn lemma_labelled_none(events: Seq<EventView>, label: Label)
    requires
        forall|i: int| 0 <= i < events.len() ==> #[trigger] events[i].kind() != label,
    ensures
        labelled(events, label) == 0,
        timed(events, label) == 0,
    decreases events.len(),
{
    if events.len() > 0 {
        let rest = events.drop_last();
        assert forall|i: int| 0 <= i < rest.len() implies #[trigger] rest[i].kind() != label by {
            assert(rest[i] == events[i]);
        }
        lemma_labelled_none(rest, label);
        assert(events.last() == events[events.len() - 1]);
    }
}

/// Exactly one event with the label, and it has a duration: one is counted.
pub proof fn lemma_timed_one(events: Seq<EventView>, label: Label, at: int)
    requires
        0 <= at < events.len(),
        events[at].kind() == label,
        events[at].duration() is Some,
        forall|i: int| 0 <= i < events.len() && i != at ==> #[trigger] events[i].kind() != label,
    ensures
        timed(events, label) == 1,
    decreases events.len(),
{
    let rest = events.drop_last();
    assert(events.last() == events[events.len() - 1]);
    if at == events.len() - 1 {
        assert forall|i: int| 0 <= i < rest.len() implies #[trigger] rest[i].kind() != label by {
            assert(rest[i] == events[i]);
        }
        lemma_labelled_none(rest, label);
    } else {
        assert(rest[at] == events[at]);
        assert forall|i: int| 0 <= i < rest.len() && i != at implies #[trigger] rest[i].kind()
            != label by {
            assert(rest[i] == events[i]);
        }
        lemma_timed_one(rest, label, at);
    }
}

/// Each section that one event gives rise to is among the sections of the
/// trace.
pub proof fn lemma_emitted_contains(events: Seq<EventView>, at: int, section: SectionView)
    requires
        0 <= at < events.len(),
        emitted_by(events[at]).contains(section),
    ensures
        emitted_sections(events).contains(section),
        sections_of(events).contains(section),
    decreases events.len(),
{
    let rest = emitted_sections(events.drop_last());
    let own = emitted_by(events.last());
    if at == events.len() - 1 {
        let k = choose|k: int| 0 <= k < own.len() && own[k] == section;
        assert((rest + own)[rest.len() + k] == section);
    } else {
        assert(events.drop_last()[at] == events[at]);
        lemma_emitted_contains(events.drop_last(), at, section);
        let k = choose|k: int| 0 <= k < rest.len() && rest[k] == section;
        assert((rest + own)[k] == section);
    }
    let k = choose|k: int|
        0 <= k < emitted_sections(events).len() && emitted_sections(events)[k] == section;
    assert(sections_of(events)[k] == section);
}

/// The first event with an interval decides [`first_event_start`].
pub proof fn lemma_first_event_start(events: Seq<EventView>, at: int)
    requires
        0 <= at < events.len(),
        events[at].interval_start() is Some,
        forall|i: int| 0 <= i < at ==> (#[trigger] events[i]).interval_start() is None,
    ensures
        first_event_start(events) == events[at].interval_start(),
    decreases events.len(),
{
    let rest = events.drop_last();
    if at == events.len() - 1 {
        assert forall|i: int| 0 <= i < rest.len() implies (#[trigger] rest[i]).interval_start()
            is None by {
            assert(rest[i] == events[i]);
        }
        lemma_first_event_start_none(rest);
    } else {
        assert(rest[at] == events[at]);
        assert forall|i: int| 0 <= i < at implies (#[trigger] rest[i]).interval_start()
            is None by {
            assert(rest[i] == events[i]);
        }
        lemma_first_event_start(rest, at);
    }
}

/// Without an event that carries an interval, [`first_event_start`] is absent.
pub proof fn lemma_first_event_start_none(events: Seq<EventView>)
    requires
        forall|i: int| 0 <= i < events.len() ==> (#[trigger] events[i]).interval_start() is None,
    ensures
        first_event_start(events) is None,
    decreases events.len(),
{
    if events.len() > 0 {
        let rest = events.drop_last();
        assert forall|i: int| 0 <= i < rest.len() implies (#[trigger] rest[i]).interval_start()
            is None by {
            assert(rest[i] == events[i]);
        }
        lemma_first_event_start_none(rest);
        assert(events.last() == events[events.len() - 1]);
    }
}

/// The first `codegen_crate` event with an interval decides [`backend_start`].
pub proof fn lemma_backend_start(events: Seq<EventView>, at: int)
    requires
        0 <= at < events.len(),
        starts_backend(events[at]),
        forall|i: int| 0 <= i < at ==> !starts_backend(#[trigger] events[i]),
    ensures
        backend_start(events) == events[at].interval_start(),
    decreases events.len(),
{
    let rest = events.drop_last();
    if at == events.len() - 1 {
        assert forall|i: int| 0 <= i < rest.len() implies !starts_backend(#[trigger] rest[i]) by {
            assert(rest[i] == events[i]);
        }
        lemma_backend_start_none(rest);
    } else {
        assert(rest[at] == events[at]);
        assert forall|i: int| 0 <= i < at implies !starts_backend(#[trigger] rest[i]) by {
            assert(rest[i] == events[i]);
        }
        lemma_backend_start(rest, at);
    }
}

/// Without a `codegen_crate` event that carries an interval,
/// [`backend_start`] is absent.
pub proof fn lemma_backend_start_none(events: Seq<EventView>)
    requires
        forall|i: int| 0 <= i < events.len() ==> !starts_backend(#[trigger] events[i]),
    ensures
        backend_start(events) is None,
    decreases events.len(),
{
    if events.len() > 0 {
        let rest = events.drop_last();
        assert forall|i: int| 0 <= i < rest.len() implies !starts_backend(#[trigger] rest[i]) by {
            assert(rest[i] == events[i]);
        }
        lemma_backend_start_none(rest);
        assert(events.last() == events[events.len() - 1]);
        assert(!starts_backend(events.last()));
    }
}

/// The last `finish_ongoing_codegen` event decides [`backend_end`].
pub proof fn lemma_backend_end(events: Seq<EventView>, at: int)
    requires
        0 <= at < events.len(),
        events[at].kind() == Label::FinishOngoingCodegen,
        forall|i: int|
            at < i < events.len() ==> #[trigger] events[i].kind() != Label::FinishOngoingCodegen,
    ensures
        backend_end(events) == events[at].interval_end(),
    decreases events.len(),
{
    if at < events.len() - 1 {
        let rest = events.drop_last();
        assert(events.last() == events[events.len() - 1]);
        assert(rest[at] == events[at]);
        assert forall|i: int| at < i < rest.len() implies #[trigger] rest[i].kind()
            != Label::FinishOngoingCodegen by {
            assert(rest[i] == events[i]);
        }
        lemma_backend_end(rest, at);
    }
}

/// Without a `finish_ongoing_codegen` event, [`backend_end`] is absent.
pub proof fn lemma_backend_end_none(events: Seq<EventView>)
    requires
        forall|i: int|
            0 <= i < events.len() ==> #[trigger] events[i].kind() != Label::FinishOngoingCodegen,
    ensures
        backend_end(events) is None,
    decreases events.len(),
{
    if events.len() > 0 {
        let rest = events.drop_last();
        assert forall|i: int| 0 <= i < rest.len() implies #[trigger] rest[i].kind()
            != Label::FinishOngoingCodegen by {
            assert(rest[i] == events[i]);
        }
        lemma_backend_end_none(rest);
        assert(events.last() == events[events.len() - 1]);
    }
}

/// The last `link_crate` event decides [`linker_duration`].
pub proof fn lemma_linker_duration(events: Seq<EventView>, at: int)
    requires
        0 <= at < events.len(),
        events[at].kind() == Label::LinkCrate,
        forall|i: int| at < i < events.len() ==> #[trigger] events[i].kind() != Label::LinkCrate,
    ensures
        linker_duration(events) == events[at].duration(),
    decreases events.len(),
{
    if at < events.len() - 1 {
        let rest = events.drop_last();
        assert(events.last() == events[events.len() - 1]);
        assert(rest[at] == events[at]);
        assert forall|i: int| at < i < rest.len() implies #[trigger] rest[i].kind()
            != Label::LinkCrate by {
            assert(rest[i] == events[i]);
        }
        lemma_linker_duration(rest, at);
    }
}

/// Without a `link_crate` event, [`linker_duration`] is absent.
pub proof fn lemma_linker_duration_none(events: Seq<EventView>)
    requires
        forall|i: int| 0 <= i < events.len() ==> #[trigger] events[i].kind() != Label::LinkCrate,
    ensures
        linker_duration(events) is None,
    decreases events.len(),
{
    if events.len() > 0 {
        let rest = events.drop_last();
        assert forall|i: int| 0 <= i < rest.len() implies #[trigger] rest[i].kind()
            != Label::LinkCrate by {
            assert(rest[i] == events[i]);
        }
        lemma_linker_duration_none(rest);
        assert(events.last() == events[events.len() - 1]);
    }
}

/// Without a `mir_borrowck` event the borrow-checking total is zero.
pub proof fn lemma_borrowck_total_zero(events: Seq<EventView>)
    requires
        forall|i: int| 0 <= i < events.len() ==> #[trigger] events[i].kind() != Label::MirBorrowck,
    ensures
        borrowck_total(events) == 0,
    decreases events.len(),
{
    if events.len() > 0 {
        let rest = events.drop_last();
        assert forall|i: int| 0 <= i < rest.len() implies #[trigger] rest[i].kind()
            != Label::MirBorrowck by {
            assert(rest[i] == events[i]);
        }
        lemma_borrowck_total_zero(rest);
        assert(events.last() == events[events.len() - 1]);
    }
}

/// The count of a kind over all sections is the count over those that single
/// events give rise to plus the count over those put together at the end.
pub proof fn lemma_all_counts(events: Seq<EventView>, kind: SectionKind)
    ensures
        occurrences(sections_of(events), kind) == occurrences(emitted_sections(events), kind)
            + occurrences(derived_sections(events), kind),
        occurrences(emitted_sections(events), kind) == match kind {
            SectionKind::Typeck => timed(events, Label::TypeCheckCrate),
            SectionKind::Metadata => timed(events, Label::GenerateCrateMetadata),
            _ => 0,
        },
        occurrences(derived_sections(events), kind) == match kind {
            SectionKind::Frontend => if frontend(events) is Some {
                1nat
            } else {
                0nat
            },
            SectionKind::Backend => if backend(events) is Some {
                1nat
            } else {
                0nat
            },
            SectionKind::Linker => if linker_duration(events) is Some {
                1nat
            } else {
                0nat
            },
            SectionKind::Borrowck => 1,
            _ => 0,
        },
{
    lemma_occurrences_concat(emitted_sections(events), derived_sections(events), kind);
    lemma_occurrences_emitted(events, kind);
    lemma_occurrences_derived(events, kind);
}

/// Each of `Frontend`, `Backend` and `Linker` that has a value is among the
/// sections of the trace.
pub proof fn lemma_derived_contains(events: Seq<EventView>)
    ensures
        frontend(events) matches Some(v) ==> sections_of(events).contains(
            SectionKind::Frontend.with_value(v),
        ),
        backend(events) matches Some(v) ==> sections_of(events).contains(
            SectionKind::Backend.with_value(v),
        ),
        linker_duration(events) matches Some(v) ==> sections_of(events).contains(
            SectionKind::Linker.with_value(v),
        ),
{
    let e = emitted_sections(events);
    let f = optional_section(SectionKind::Frontend, frontend(events));
    let b = optional_section(SectionKind::Backend, backend(events));
    let l = optional_section(SectionKind::Linker, linker_duration(events));
    let all = sections_of(events);
    if frontend(events) is Some {
        assert(all[e.len() as int] == f[0]);
    }
    if backend(events) is Some {
        assert(all[(e.len() + f.len()) as int] == b[0]);
    }
    if linker_duration(events) is Some {
        assert(all[(e.len() + f.len() + b.len()) as int] == l[0]);
    }
}

/// Looking a name up in a concatenation: the first part is asked first.
pub proof fn lemma_first_value_concat(a: Seq<SectionView>, b: Seq<SectionView>, name: Seq<char>)
    ensures
        first_value(a + b, name) == match first_value(a, name) {
            Some(value) => Some(value),
            None => first_value(b, name),
        },
    decreases a.len(),
{
    if a.len() == 0 {
        assert(a + b =~= b);
    } else {
        assert((a + b).first() == a.first());
        assert((a + b).drop_first() =~= a.drop_first() + b);
        lemma_first_value_concat(a.drop_first(), b, name);
    }
}

/// A kind that no section is counted under is not found.
pub proof fn lemma_uncounted_is_absent(sections: Seq<SectionView>, kind: SectionKind)
    requires
        occurrences(sections, kind) == 0,
    ensures
        first_value(sections, kind.spec_name()) is None,
    decreases sections.len(),
{
    if sections.len() > 0 {
        let one = seq![sections.first()];
        assert(sections =~= one + sections.drop_first());
        lemma_occurrences_concat(one, sections.drop_first(), kind);
        reveal_with_fuel(occurrences, 2);
        assert(one.drop_last().len() == 0);
        lemma_uncounted_is_absent(sections.drop_first(), kind);
    }
}

/// An optional section is found under its own kind, with its value, and under
/// no other.
pub proof fn lemma_first_value_optional(of: SectionKind, value: Option<u64>, kind: SectionKind)
    ensures
        first_value(optional_section(of, value), kind.spec_name()) == if of == kind {
            value
        } else {
            None
        },
{
    reveal_with_fuel(first_value, 2);
    match value {
        Some(v) => {
            let one = optional_section(of, value);
            assert(one.drop_first().len() == 0);
            if of.spec_name() == kind.spec_name() {
                lemma_names_distinct(of, kind);
            }
        },
        None => {},
    }
}

/// What is found under each kind among the sections of a trace: the values
/// of `Frontend`, `Backend` and `Linker` as far as they are there, the
/// borrow-checking total, and for `typeck` and `metadata` what is found among
/// the sections of single events.
pub proof fn lemma_found_in_trace(events: Seq<EventView>, kind: SectionKind)
    ensures
        first_value(sections_of(events), kind.spec_name()) == match kind {
            SectionKind::Frontend => frontend(events),
            SectionKind::Backend => backend(events),
            SectionKind::Linker => linker_duration(events),
            SectionKind::Borrowck => Some(borrowck_total(events) as u64),
            _ => first_value(emitted_sections(events), kind.spec_name()),
        },
{
    let name = kind.spec_name();
    let e = emitted_sections(events);
    let f = optional_section(SectionKind::Frontend, frontend(events));
    let b = optional_section(SectionKind::Backend, backend(events));
    let l = optional_section(SectionKind::Linker, linker_duration(events));
    let k = optional_section(SectionKind::Borrowck, Some(borrowck_total(events) as u64));
    assert(sections_of(events) =~= e + (f + (b + (l + k))));
    lemma_first_value_concat(e, f + (b + (l + k)), name);
    lemma_first_value_concat(f, b + (l + k), name);
    lemma_first_value_concat(b, l + k, name);
    lemma_first_value_concat(l, k, name);
    lemma_first_value_optional(SectionKind::Frontend, frontend(events), kind);
    lemma_first_value_optional(SectionKind::Backend, backend(events), kind);
    lemma_first_value_optional(SectionKind::Linker, linker_duration(events), kind);
    lemma_first_value_optional(SectionKind::Borrowck, Some(borrowck_total(events) as u64), kind);
    lemma_occurrences_emitted(events, kind);
    if kind != SectionKind::Typeck && kind != SectionKind::Metadata {
        lemma_uncounted_is_absent(e, kind);
    }
}

} // verus!
