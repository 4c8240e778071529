//! The layout of a paged profiling-data file, as far as it must be known to
//! tell whether a buffer can be handed to the decoder.
//!
//! A file is a header of eight bytes followed by pages. Each page belongs to
//! one of three streams: the events, the string data and the string index.
//! [`decodable`](validate::decodable) says which buffers are well formed down
//! to every string that an event refers to.

pub mod bytes;
pub mod pages;
pub mod strings;
pub mod validate;
