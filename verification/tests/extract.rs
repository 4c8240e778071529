use analysis::{
    can_extract, compute_compilation_sections, CompilationSection, Event, Label, Payload,
    SectionKind,
};

fn interval(label: &str, start: u64, end: u64) -> Event {
    Event { label: label.to_string(), payload: Payload::Interval { start, end } }
}

fn instant(label: &str, at: u64) -> Event {
    Event { label: label.to_string(), payload: Payload::Instant(at) }
}

fn integer(label: &str, value: u64) -> Event {
    Event { label: label.to_string(), payload: Payload::Integer(value) }
}

fn text(label: &str, value: &str) -> Event {
    Event { label: label.to_string(), payload: Payload::Text(value.to_string()) }
}

fn run(events: &[Event]) -> Vec<(String, u64)> {
    assert!(can_extract(events));
    let sections: Vec<CompilationSection> = compute_compilation_sections(events);
    sections.iter().map(|s| (s.name.clone(), s.value)).collect()
}

fn named(pairs: &[(&str, u64)]) -> Vec<(String, u64)> {
    pairs.iter().map(|(name, value)| (name.to_string(), *value)).collect()
}

fn value_of(sections: &[(String, u64)], name: &str) -> Vec<u64> {
    sections.iter().filter(|(n, _)| n == name).map(|(_, v)| *v).collect()
}

#[test]
fn one_event_of_each_phase() {
    let events = vec![
        interval("type_check_crate", 0, 80),
        interval("codegen_crate", 100, 100),
        interval("finish_ongoing_codegen", 300, 500),
        interval("link_crate", 450, 500),
    ];
    assert_eq!(
        run(&events),
        named(&[
            ("typeck", 80),
            ("Frontend", 100),
            ("Backend", 400),
            ("Linker", 50),
            ("borrowck", 0),
        ])
    );
}

#[test]
fn empty_trace_has_only_borrowck() {
    assert_eq!(run(&[]), named(&[("borrowck", 0)]));
}

#[test]
fn typeck_is_the_length_of_its_own_interval() {
    let sections = run(&[interval("other", 5, 6), interval("type_check_crate", 1_000, 4_500)]);
    assert_eq!(value_of(&sections, "typeck"), vec![3_500]);
}

#[test]
fn metadata_is_the_length_of_its_own_interval() {
    let sections = run(&[interval("generate_crate_metadata", 7, 19)]);
    assert_eq!(sections, named(&[("metadata", 12), ("borrowck", 0)]));
}

#[test]
fn sections_of_single_events_come_in_recording_order() {
    let sections = run(&[
        interval("generate_crate_metadata", 50, 60),
        interval("type_check_crate", 0, 40),
        interval("generate_crate_metadata", 70, 75),
    ]);
    assert_eq!(
        sections,
        named(&[("metadata", 10), ("typeck", 40), ("metadata", 5), ("borrowck", 0)])
    );
}

#[test]
fn borrowck_is_zero_without_borrowck_events() {
    let sections = run(&[interval("type_check_crate", 0, 1), interval("link_crate", 2, 3)]);
    assert_eq!(value_of(&sections, "borrowck"), vec![0]);
    assert_eq!(sections.last(), Some(&("borrowck".to_string(), 0)));
}

#[test]
fn borrowck_is_the_sum_of_all_borrowck_events() {
    let sections = run(&[
        interval("mir_borrowck", 0, 10),
        interval("other", 0, 1_000),
        interval("mir_borrowck", 5, 7),
        interval("mir_borrowck", 100, 100),
        interval("mir_borrowck", 200, 1_200),
    ]);
    assert_eq!(value_of(&sections, "borrowck"), vec![10 + 2 + 0 + 1_000]);
}

#[test]
fn borrowck_total_may_reach_the_largest_value() {
    let events = vec![interval("mir_borrowck", 0, u64::MAX - 1), interval("mir_borrowck", 3, 4)];
    assert_eq!(run(&events), named(&[("borrowck", u64::MAX)]));
}

#[test]
fn borrowck_total_beyond_the_largest_value_cannot_be_extracted() {
    let events = vec![interval("mir_borrowck", 0, u64::MAX), interval("mir_borrowck", 3, 4)];
    assert!(!can_extract(&events));
    let fine = vec![interval("type_check_crate", 0, u64::MAX), interval("link_crate", 0, u64::MAX)];
    assert!(can_extract(&fine));
}

#[test]
fn checked_sections_are_the_sections_or_nothing() {
    let events = vec![interval("mir_borrowck", 0, u64::MAX), interval("mir_borrowck", 3, 4)];
    assert_eq!(analysis::checked_compilation_sections(&events), None);
    let events = vec![interval("mir_borrowck", 0, 7), interval("type_check_crate", 3, 4)];
    assert_eq!(
        analysis::checked_compilation_sections(&events),
        Some(compute_compilation_sections(&events))
    );
    assert_eq!(
        analysis::checked_compilation_sections(&[]),
        Some(vec![CompilationSection { name: "borrowck".to_string(), value: 0 }])
    );
}

#[test]
fn frontend_and_backend_come_from_the_boundaries() {
    let sections = run(&[
        interval("early", 20, 30),
        interval("codegen_crate", 120, 180),
        interval("finish_ongoing_codegen", 400, 950),
    ]);
    assert_eq!(sections, named(&[("Frontend", 100), ("Backend", 830), ("borrowck", 0)]));
}

#[test]
fn frontend_may_start_at_the_codegen_event_itself() {
    let sections = run(&[interval("codegen_crate", 120, 180)]);
    assert_eq!(sections, named(&[("Frontend", 0), ("borrowck", 0)]));
}

#[test]
fn first_event_start_is_taken_once() {
    let sections = run(&[
        interval("a", 50, 60),
        interval("b", 10, 20),
        interval("codegen_crate", 70, 80),
    ]);
    assert_eq!(value_of(&sections, "Frontend"), vec![20]);
}

#[test]
fn first_event_start_skips_events_without_an_interval() {
    let sections = run(&[
        integer("artifact_size", 3),
        instant("marker", 1),
        text("note", "x"),
        interval("type_check_crate", 40, 60),
        interval("codegen_crate", 100, 110),
    ]);
    assert_eq!(sections, named(&[("typeck", 20), ("Frontend", 60), ("borrowck", 0)]));
}

#[test]
fn no_backend_without_a_finish_event() {
    let sections = run(&[
        interval("type_check_crate", 0, 80),
        interval("mir_borrowck", 10, 20),
        interval("generate_crate_metadata", 81, 90),
        interval("codegen_crate", 100, 200),
        interval("link_crate", 300, 350),
    ]);
    assert_eq!(
        sections,
        named(&[
            ("typeck", 80),
            ("metadata", 9),
            ("Frontend", 100),
            ("Linker", 50),
            ("borrowck", 10),
        ])
    );
}

#[test]
fn no_frontend_and_no_backend_without_a_codegen_event() {
    let sections = run(&[interval("a", 0, 1), interval("finish_ongoing_codegen", 5, 9)]);
    assert_eq!(sections, named(&[("borrowck", 0)]));
}

#[test]
fn frontend_is_left_out_where_the_backend_starts_too_early() {
    let sections = run(&[
        interval("late", 500, 600),
        interval("codegen_crate", 100, 200),
        interval("finish_ongoing_codegen", 300, 400),
    ]);
    assert_eq!(sections, named(&[("Backend", 300), ("borrowck", 0)]));
}

#[test]
fn backend_is_left_out_where_it_ends_before_it_starts() {
    let sections = run(&[
        interval("codegen_crate", 100, 200),
        interval("finish_ongoing_codegen", 10, 50),
    ]);
    assert_eq!(sections, named(&[("Frontend", 0), ("borrowck", 0)]));
}

#[test]
fn backend_starts_with_the_first_codegen_event() {
    let sections = run(&[
        interval("a", 0, 1),
        interval("codegen_crate", 100, 110),
        interval("codegen_crate", 200, 210),
        interval("finish_ongoing_codegen", 300, 400),
    ]);
    assert_eq!(sections, named(&[("Frontend", 100), ("Backend", 300), ("borrowck", 0)]));
}

#[test]
fn backend_start_waits_for_a_codegen_event_with_an_interval() {
    let sections = run(&[
        interval("a", 0, 1),
        instant("codegen_crate", 50),
        interval("codegen_crate", 200, 210),
        interval("finish_ongoing_codegen", 300, 400),
    ]);
    assert_eq!(sections, named(&[("Frontend", 200), ("Backend", 200), ("borrowck", 0)]));
}

#[test]
fn backend_ends_with_the_last_finish_event() {
    let sections = run(&[
        interval("codegen_crate", 100, 110),
        interval("finish_ongoing_codegen", 300, 400),
        interval("finish_ongoing_codegen", 350, 900),
    ]);
    assert_eq!(value_of(&sections, "Backend"), vec![800]);
}

#[test]
fn a_later_finish_event_without_an_interval_clears_the_end() {
    let sections = run(&[
        interval("codegen_crate", 100, 110),
        interval("finish_ongoing_codegen", 300, 400),
        integer("finish_ongoing_codegen", 1),
    ]);
    assert_eq!(sections, named(&[("Frontend", 0), ("borrowck", 0)]));
}

#[test]
fn linker_is_the_last_link_event() {
    let sections = run(&[interval("link_crate", 0, 10), interval("link_crate", 100, 130)]);
    assert_eq!(sections, named(&[("Linker", 30), ("borrowck", 0)]));
}

#[test]
fn linker_does_not_depend_on_codegen() {
    let sections = run(&[
        interval("codegen_crate", 100, 110),
        interval("link_crate", 150, 450),
        interval("finish_ongoing_codegen", 200, 400),
    ]);
    assert_eq!(
        sections,
        named(&[("Frontend", 0), ("Backend", 300), ("Linker", 300), ("borrowck", 0)])
    );
}

#[test]
fn a_later_link_event_without_a_duration_clears_the_linker() {
    let sections = run(&[interval("link_crate", 0, 10), interval("link_crate", 9, 3)]);
    assert_eq!(sections, named(&[("borrowck", 0)]));
}

#[test]
fn events_without_a_duration_give_no_section() {
    let sections = run(&[
        interval("type_check_crate", 9, 3),
        instant("generate_crate_metadata", 4),
        integer("mir_borrowck", 77),
        interval("mir_borrowck", 10, 12),
    ]);
    assert_eq!(sections, named(&[("borrowck", 2)]));
}

#[test]
fn other_labels_give_no_section() {
    let sections = run(&[
        interval("typeck", 0, 5),
        interval("type_check_crate ", 0, 5),
        interval("Type_check_crate", 0, 5),
        interval("", 0, 5),
        interval("link", 0, 5),
    ]);
    assert_eq!(sections, named(&[("borrowck", 0)]));
}

#[test]
fn running_twice_gives_the_same_sections() {
    let events = vec![
        interval("type_check_crate", 0, 80),
        interval("mir_borrowck", 3, 9),
        interval("codegen_crate", 100, 100),
        interval("finish_ongoing_codegen", 300, 500),
        interval("link_crate", 450, 500),
    ];
    let first = compute_compilation_sections(&events);
    let second = compute_compilation_sections(&events.clone());
    assert_eq!(first, second);
}

#[test]
fn labels_are_classified() {
    assert_eq!(Label::classify("type_check_crate"), Label::TypeCheckCrate);
    assert_eq!(Label::classify("mir_borrowck"), Label::MirBorrowck);
    assert_eq!(Label::classify("generate_crate_metadata"), Label::GenerateCrateMetadata);
    assert_eq!(Label::classify("codegen_crate"), Label::CodegenCrate);
    assert_eq!(Label::classify("finish_ongoing_codegen"), Label::FinishOngoingCodegen);
    assert_eq!(Label::classify("link_crate"), Label::LinkCrate);
    assert_eq!(Label::classify("link"), Label::Other);
    assert_eq!(Label::classify(""), Label::Other);
    assert_eq!(interval("codegen_crate", 0, 0).kind(), Label::CodegenCrate);
}

#[test]
fn payload_accessors() {
    let span = interval("x", 3, 10);
    assert_eq!(span.interval_start(), Some(3));
    assert_eq!(span.interval_end(), Some(10));
    assert_eq!(span.duration(), Some(7));
    let backwards = interval("x", 10, 3);
    assert_eq!(backwards.interval_start(), Some(10));
    assert_eq!(backwards.interval_end(), Some(3));
    assert_eq!(backwards.duration(), None);
    for event in [instant("x", 5), integer("x", 5), text("x", "5")] {
        assert_eq!(event.interval_start(), None);
        assert_eq!(event.interval_end(), None);
        assert_eq!(event.duration(), None);
    }
    assert_eq!(interval("x", 0, u64::MAX).duration(), Some(u64::MAX));
}

#[test]
fn section_names() {
    assert_eq!(SectionKind::Frontend.name(), "Frontend");
    assert_eq!(SectionKind::Backend.name(), "Backend");
    assert_eq!(SectionKind::Linker.name(), "Linker");
    assert_eq!(SectionKind::Typeck.name(), "typeck");
    assert_eq!(SectionKind::Borrowck.name(), "borrowck");
    assert_eq!(SectionKind::Metadata.name(), "metadata");
    assert_eq!(
        SectionKind::Linker.section(9),
        CompilationSection { name: "Linker".to_string(), value: 9 }
    );
}

#[test]
fn default_section_is_empty() {
    assert_eq!(CompilationSection::default(), CompilationSection { name: String::new(), value: 0 });
}

#[test]
fn elapsed_time_is_checked() {
    assert_eq!(analysis::extract::checked_elapsed(Some(3), Some(10)), Some(7));
    assert_eq!(analysis::extract::checked_elapsed(Some(10), Some(10)), Some(0));
    assert_eq!(analysis::extract::checked_elapsed(Some(10), Some(3)), None);
    assert_eq!(analysis::extract::checked_elapsed(None, Some(3)), None);
    assert_eq!(analysis::extract::checked_elapsed(Some(10), None), None);
    assert_eq!(analysis::extract::checked_elapsed(None, None), None);
}
