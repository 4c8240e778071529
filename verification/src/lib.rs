//! Compilation-phase timings derived from a compiler's self-profiling trace.
//!
//! A trace is an ordered sequence of labelled [`Event`]s. The trace loader
//! ([`extract_profiling_data`]) decodes the bytes of a profiling-data file into
//! such a sequence. The section extractor ([`compute_compilation_sections`])
//! walks the sequence once and produces the named durations of the compilation
//! phases, and [`phase_timings`] reads the six timings of a run off them.
//! What holds of the sections of every trace is stated and proved in [`laws`].

pub mod event;
pub mod extract;
pub mod laws;
pub mod lemmas;
pub mod loader;
pub mod profdata;
pub mod report;
pub mod run;
pub mod section;

pub use event::{Event, Label, Payload};
pub use extract::{can_extract, checked_compilation_sections, compute_compilation_sections};
pub use loader::{extract_profiling_data, TraceFormatError};
pub use profdata::validate::is_decodable;
pub use report::{phase_timings, section_value, MissingSection, PhaseTimings};
pub use run::{run_labels, RunLabels};
pub use section::{CompilationSection, SectionKind};
