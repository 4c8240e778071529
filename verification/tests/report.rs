use analysis::{
    phase_timings, section_value, CompilationSection, MissingSection, PhaseTimings, SectionKind,
};

fn section(name: &str, value: u64) -> CompilationSection {
    CompilationSection { name: name.to_string(), value }
}

#[test]
fn timings_are_read_off_the_sections() {
    let sections = vec![
        section("typeck", 80),
        section("metadata", 9),
        section("Frontend", 100),
        section("Backend", 400),
        section("Linker", 50),
        section("borrowck", 10),
    ];
    assert_eq!(
        phase_timings(&sections),
        Ok(PhaseTimings {
            frontend: 100,
            backend: 400,
            linker: 50,
            typeck: 80,
            borrowck: 10,
            metadata: 9,
        })
    );
}

#[test]
fn optional_sections_count_as_zero() {
    let sections = vec![section("Linker", 3), section("Backend", 2), section("Frontend", 1)];
    assert_eq!(
        phase_timings(&sections),
        Ok(PhaseTimings { frontend: 1, backend: 2, linker: 3, typeck: 0, borrowck: 0, metadata: 0 })
    );
}

#[test]
fn missing_frontend_is_reported_first() {
    assert_eq!(phase_timings(&[]), Err(MissingSection::Frontend));
    assert_eq!(
        phase_timings(&[section("Backend", 2), section("borrowck", 0)]),
        Err(MissingSection::Frontend)
    );
}

#[test]
fn missing_backend_is_reported_before_linker() {
    assert_eq!(phase_timings(&[section("Frontend", 1)]), Err(MissingSection::Backend));
    assert_eq!(
        phase_timings(&[section("Frontend", 1), section("Linker", 1)]),
        Err(MissingSection::Backend)
    );
}

#[test]
fn missing_linker_is_reported() {
    assert_eq!(
        phase_timings(&[section("Frontend", 1), section("Backend", 2), section("typeck", 5)]),
        Err(MissingSection::Linker)
    );
}

#[test]
fn names_are_matched_exactly() {
    let sections = vec![section("frontend", 1), section("Backend", 2), section("Linker", 3)];
    assert_eq!(phase_timings(&sections), Err(MissingSection::Frontend));
}

#[test]
fn the_first_section_with_a_name_counts() {
    let sections = vec![section("typeck", 5), section("Linker", 7), section("typeck", 9)];
    assert_eq!(section_value(&sections, SectionKind::Typeck), Some(5));
    assert_eq!(section_value(&sections, SectionKind::Linker), Some(7));
    assert_eq!(section_value(&sections, SectionKind::Backend), None);
    assert_eq!(section_value(&[], SectionKind::Borrowck), None);
}

#[test]
fn missing_section_messages() {
    assert_eq!(MissingSection::Frontend.message(), "Could not find frontend");
    assert_eq!(MissingSection::Backend.message(), "Could not find backend");
    assert_eq!(MissingSection::Linker.message(), "Could not find linker");
    assert_eq!(MissingSection::Frontend.kind(), SectionKind::Frontend);
    assert_eq!(MissingSection::Backend.kind(), SectionKind::Backend);
    assert_eq!(MissingSection::Linker.kind(), SectionKind::Linker);
}
