//! Reading the phase timings of one trace off its sections.
//!
//! `Frontend`, `Backend` and `Linker` are required: a trace without one of them
//! has no timings. `typeck`, `borrowck` and `metadata` count as zero where they
//! are missing.

use crate::section::{section_views, CompilationSection, SectionKind, SectionView};
use vstd::prelude::*;

verus! {

/// The six phase timings of one trace, in nanoseconds.
#[derive(Clone, Copy, Debug, PartialEq, Eq)]
pub struct PhaseTimings {
    pub frontend: u64,
    pub backend: u64,
    pub linker: u64,
    pub typeck: u64,
    pub borrowck: u64,
    pub metadata: u64,
}

/// The required section that a trace lacks.
#[derive(Clone, Copy, Debug, PartialEq, Eq)]
pub enum MissingSection {
    Frontend,
    Backend,
    Linker,
}

impl MissingSection {
    /// The text of the error.
    pub open spec fn spec_message(self) -> Seq<char> {
        match self {
            MissingSection::Frontend => "Could not find frontend"@,
            MissingSection::Backend => "Could not find backend"@,
            MissingSection::Linker => "Could not find linker"@,
        }
    }

    /// The kind of the section that is missing.
    pub open spec fn spec_kind(self) -> SectionKind {
        match self {
            MissingSection::Frontend => SectionKind::Frontend,
            MissingSection::Backend => SectionKind::Backend,
            MissingSection::Linker => SectionKind::Linker,
        }
    }

    /// The text of the error.
    pub fn message(&self) -> (text: String)
        ensures
            text@ == self.spec_message(),
    {
        match self {
            MissingSection::Frontend => "Could not find frontend".to_owned(),
            MissingSection::Backend => "Could not find backend".to_owned(),
            MissingSection::Linker => "Could not find linker".to_owned(),
        }
    }

    /// The kind of the section that is missing.
    pub fn kind(&self) -> (kind: SectionKind)
        ensures
            kind == self.spec_kind(),
    {
        match self {
            MissingSection::Frontend => SectionKind::Frontend,
            MissingSection::Backend => SectionKind::Backend,
            MissingSection::Linker => SectionKind::Linker,
        }
    }
}

/// The value of the first section that carries the name, if there is one.
pub open spec fn first_value(sections: Seq<SectionView>, name: Seq<char>) -> Option<u64>
    decreases sections.len(),
{
    if sections.len() == 0 {
        None
    } else if sections.first().name == name {
        Some(sections.first().value)
    } else {
        first_value(sections.drop_first(), name)
    }
}

/// The value of the first section of the kind, or zero.
pub open spec fn value_or_zero(sections: Seq<SectionView>, kind: SectionKind) -> u64 {
    match first_value(sections, kind.spec_name()) {
        Some(value) => value,
        None => 0,
    }
}

/// The timings that the sections give, or the first of `Frontend`, `Backend`
/// and `Linker`, in this order, that is missing.
pub open spec fn timings_of(sections: Seq<SectionView>) -> Result<PhaseTimings, MissingSection> {
    match first_value(sections, SectionKind::Frontend.spec_name()) {
        None => Err(MissingSection::Frontend),
        Some(frontend) => match first_value(sections, SectionKind::Backend.spec_name()) {
            None => Err(MissingSection::Backend),
            Some(backend) => match first_value(sections, SectionKind::Linker.spec_name()) {
                None => Err(MissingSection::Linker),
                Some(linker) => Ok(
                    PhaseTimings {
                        frontend,
                        backend,
                        linker,
                        typeck: value_or_zero(sections, SectionKind::Typeck),
                        borrowck: value_or_zero(sections, SectionKind::Borrowck),
                        metadata: value_or_zero(sections, SectionKind::Metadata),
                    },
                ),
            },
        },
    }
}

/// Whether `value` is the value of the first section with the name: of a
/// section that carries the name while none before it does, or of none where
/// no section carries the name.
pub open spec fn is_first_match(
    sections: Seq<SectionView>,
    name: Seq<char>,
    value: Option<u64>,
) -> bool {
    match value {
        Some(v) => exists|i: int|
            0 <= i < sections.len() && sections[i].name == name && sections[i].value == v
                && forall|j: int| 0 <= j < i ==> (#[trigger] sections[j]).name != name,
        None => forall|i: int| 0 <= i < sections.len() ==> (#[trigger] sections[i]).name != name,
    }
}

/// [`first_value`] finds the first section with the name, and nothing where no
/// section carries it.
pub proof fn lemma_first_value(sections: Seq<SectionView>, name: Seq<char>)
    ensures
        is_first_match(sections, name, first_value(sections, name)),
    decreases sections.len(),
{
    if sections.len() > 0 {
        let rest = sections.drop_first();
        if sections.first().name == name {
            assert(sections[0].name == name && sections[0].value == sections.first().value);
        } else {
            lemma_first_value(rest, name);
            match first_value(rest, name) {
                Some(value) => {
                    let i = choose|i: int|
                        0 <= i < rest.len() && rest[i].name == name && rest[i].value == value
                            && forall|j: int| 0 <= j < i ==> (#[trigger] rest[j]).name != name;
                    assert(sections[i + 1] == rest[i]);
                    assert forall|j: int| 0 <= j < i + 1 implies (#[trigger] sections[j]).name
                        != name by {
                        if j > 0 {
                            assert(sections[j] == rest[j - 1]);
                        }
                    }
                },
                None => {
                    assert forall|i: int| 0 <= i < sections.len() implies (
                    #[trigger] sections[i]).name != name by {
                        if i > 0 {
                            assert(sections[i] == rest[i - 1]);
                        }
                    }
                },
            }
        }
    }
}

/// The value of the first section of the kind, if there is one.
pub fn section_value(sections: &[CompilationSection], kind: SectionKind) -> (value: Option<u64>)
    ensures
        value == first_value(section_views(sections@), kind.spec_name()),
        is_first_match(section_views(sections@), kind.spec_name(), value),
{
    let ghost all = section_views(sections@);
    let name = kind.name();
    let mut i: usize = 0;
    proof {
        assert(all.skip(0) =~= all);
        lemma_first_value(all, name@);
    }
    while i < sections.len()
        invariant
            i <= sections.len(),
            all == section_views(sections@),
            name@ == kind.spec_name(),
            first_value(all, name@) == first_value(all.skip(i as int), name@),
        decreases sections.len() - i,
    {
        proof {
            assert(all.skip(i as int).first() == sections[i as int]@);
            assert(all.skip(i as int).drop_first() =~= all.skip(i + 1));
        }
        if sections[i].name == name {
            proof {
                lemma_first_value(all, name@);
            }
            return Some(sections[i].value);
        }
        i += 1;
    }
    None
}

/// Reads the timings of a trace off its sections.
pub fn phase_timings(sections: &[CompilationSection]) -> (timings: Result<
    PhaseTimings,
    MissingSection,
>)
    ensures
        timings == timings_of(section_views(sections@)),
{
    let frontend = match section_value(sections, SectionKind::Frontend) {
        Some(value) => value,
        None => {
            return Err(MissingSection::Frontend);
        },
    };
    let backend = match section_value(sections, SectionKind::Backend) {
        Some(value) => value,
        None => {
            return Err(MissingSection::Backend);
        },
    };
    let linker = match section_value(sections, SectionKind::Linker) {
        Some(value) => value,
        None => {
            return Err(MissingSection::Linker);
        },
    };
    let typeck = match section_value(sections, SectionKind::Typeck) {
        Some(value) => value,
        None => 0,
    };
    let borrowck = match section_value(sections, SectionKind::Borrowck) {
        Some(value) => value,
        None => 0,
    };
    let metadata = match section_value(sections, SectionKind::Metadata) {
        Some(value) => value,
        None => 0,
    };
    Ok(PhaseTimings { frontend, backend, linker, typeck, borrowck, metadata })
}

} // verus!
