//! Named durations of compilation phases.

use vstd::prelude::*;

verus! {

/// The fixed vocabulary of section names.
#[derive(Clone, Copy, Debug, PartialEq, Eq, Hash)]
pub enum SectionKind {
    Frontend,
    Backend,
    Linker,
    Typeck,
    Borrowck,
    Metadata,
}

/// What a [`CompilationSection`] is in contracts: its name as a sequence of
/// characters and its value.
pub struct SectionView {
    pub name: Seq<char>,
    pub value: u64,
}

/// A derived, named duration.
#[derive(Debug, Clone, PartialEq, Eq)]
pub struct CompilationSection {
    pub name: String,
    /// A magnitude in nanoseconds. It is meaningful only relative to the sum of
    /// the values of all sections of the same trace.
    pub value: u64,
}

impl View for CompilationSection {
    type V = SectionView;

    open spec fn view(&self) -> SectionView {
        SectionView { name: self.name@, value: self.value }
    }
}

impl Default for CompilationSection {
    fn default() -> (section: CompilationSection)
        ensures
            section@.name == Seq::<char>::empty(),
            section@.value == 0,
    {
        CompilationSection { name: String::new(), value: 0 }
    }
}

/// The views of a sequence of sections, in order.
pub open spec fn section_views(sections: Seq<CompilationSection>) -> Seq<SectionView> {
    sections.map_values(|s: CompilationSection| s@)
}

impl SectionKind {
    /// The name under which a section of this kind is reported.
    pub open spec fn spec_name(self) -> Seq<char> {
        match self {
            SectionKind::Frontend => "Frontend"@,
            SectionKind::Backend => "Backend"@,
            SectionKind::Linker => "Linker"@,
            SectionKind::Typeck => "typeck"@,
            SectionKind::Borrowck => "borrowck"@,
            SectionKind::Metadata => "metadata"@,
        }
    }

    /// The section of this kind with the given value, as contracts see it.
    pub open spec fn with_value(self, value: u64) -> SectionView {
        SectionView { name: self.spec_name(), value }
    }

    /// The name under which a section of this kind is reported.
    pub fn name(&self) -> (name: String)
        ensures
            name@ == self.spec_name(),
    {
        match self {
            SectionKind::Frontend => "Frontend".to_owned(),
            SectionKind::Backend => "Backend".to_owned(),
            SectionKind::Linker => "Linker".to_owned(),
            SectionKind::Typeck => "typeck".to_owned(),
            SectionKind::Borrowck => "borrowck".to_owned(),
            SectionKind::Metadata => "metadata".to_owned(),
        }
    }

    /// Builds the section of this kind with the given value.
    pub fn section(&self, value: u64) -> (section: CompilationSection)
        ensures
            section@ == self.with_value(value),
    {
        CompilationSection { name: self.name(), value }
    }
}

/// Two kinds that share a name are one kind.
pub proof fn lemma_names_distinct(a: SectionKind, b: SectionKind)
    requires
        a.spec_name() == b.spec_name(),
    ensures
        a == b,
{
    reveal_strlit("Frontend");
    reveal_strlit("Backend");
    reveal_strlit("Linker");
    reveal_strlit("typeck");
    reveal_strlit("borrowck");
    reveal_strlit("metadata");
    let n = a.spec_name();
    let m = b.spec_name();
    assert(n.len() == m.len());
    assert(n[0] == m[0]);
}

} // verus!
