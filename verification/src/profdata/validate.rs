//! Which buffers can be handed to the decoder.
//!
//! The decoder trusts the sizes, ids and addresses that it reads: it panics
//! where one of them points outside the buffer, where a stream is not a whole
//! number of entries, and where a string has no end, and it does not return
//! where strings refer to each other in a circle. [`decodable`] leaves all of
//! that out, and strings that nest deeper or grow longer than the two limits
//! of [`crate::profdata::strings`], so that a buffer it admits is decoded or
//! refused in an orderly way. [`is_decodable`] computes it.

use crate::profdata::bytes::{
    has_header, le_number, number_size, read_number, starts_with_header, Part, HEADER_SIZE,
    VERSION_NARROW, VERSION_WIDE,
};
use crate::profdata::pages::{
    pages_ok, split_pages, stream, TAG_EVENTS, TAG_STRING_DATA, TAG_STRING_INDEX,
};
use crate::profdata::strings::{
    index_fits, reads_safely, table_of, Table, TableView, METADATA_ID,
};
use vstd::prelude::*;

verus! {

/// The size of one event in the event stream: the id of its kind, the id of
/// its label and arguments, the thread, and twelve bytes of payload.
pub open spec fn raw_event_size(wide: bool) -> nat {
    2 * number_size(wide) + 16
}

/// Whether the event stream, after its header, is a whole number of events.
pub open spec fn events_fit(events: Seq<u8>, wide: bool) -> bool {
    events.len() >= HEADER_SIZE && (events.len() - HEADER_SIZE) % (raw_event_size(wide) as int)
        == 0
}

/// Whether both strings of the event at `at` can be read.
pub open spec fn event_reads_safely(table: TableView, events: Seq<u8>, at: int) -> bool {
    &&& reads_safely(table, le_number(events, at + number_size(table.wide), table.wide) as u64)
    &&& reads_safely(table, le_number(events, at, table.wide) as u64)
}

/// Whether the strings of all events from `pos` on can be read. What is left
/// of the stream after the last whole event is not read.
pub open spec fn events_read_safely(table: TableView, events: Seq<u8>, pos: int) -> bool
    decreases events.len() - pos,
{
    if pos < 0 || pos + raw_event_size(table.wide) > events.len() {
        true
    } else {
        event_reads_safely(table, events, pos) && events_read_safely(
            table,
            events,
            pos + raw_event_size(table.wide),
        )
    }
}

/// The format version that the header of the file names, where it is one of
/// the two that can be decoded.
pub open spec fn file_version(bytes: Seq<u8>) -> Option<u32> {
    if has_header(bytes, Part::File, VERSION_WIDE) {
        Some(VERSION_WIDE)
    } else if has_header(bytes, Part::File, VERSION_NARROW) {
        Some(VERSION_NARROW)
    } else {
        None
    }
}

/// Whether the streams of a file of the given version are well formed: each
/// has its header, the index and the events are whole numbers of entries, and
/// the metadata string and the strings of all events can be read.
pub open spec fn streams_ok(
    events: Seq<u8>,
    string_data: Seq<u8>,
    string_index: Seq<u8>,
    version: u32,
) -> bool {
    let wide = version == VERSION_WIDE;
    let table = table_of(string_data, string_index, wide);
    &&& has_header(events, Part::Events, version)
    &&& has_header(string_data, Part::StringData, version)
    &&& has_header(string_index, Part::StringIndex, version)
    &&& index_fits(string_index, wide)
    &&& events_fit(events, wide)
    &&& reads_safely(table, METADATA_ID)
    &&& events_read_safely(table, events, HEADER_SIZE as int)
}

/// Whether the buffer is a well-formed file: it has the header of a file in
/// one of the two versions, what follows are whole pages, and the three
/// streams that the pages make up are well formed.
///
/// A well-formed file may still be refused by the decoder: where the string
/// with the metadata id is missing, or is not the metadata that the decoder
/// expects.
pub open spec fn decodable(bytes: Seq<u8>) -> bool {
    match file_version(bytes) {
        None => false,
        Some(version) => {
            &&& pages_ok(bytes, HEADER_SIZE as int)
            &&& streams_ok(
                stream(bytes, HEADER_SIZE as int, TAG_EVENTS),
                stream(bytes, HEADER_SIZE as int, TAG_STRING_DATA),
                stream(bytes, HEADER_SIZE as int, TAG_STRING_INDEX),
                version,
            )
        },
    }
}

/// Tells whether the strings of all events can be read.
fn all_events_read(table: &Table, events: &[u8]) -> (ok: bool)
    ensures
        ok == events_read_safely(table@, events@, HEADER_SIZE as int),
{
    let number: usize = if table.wide {
        8
    } else {
        4
    };
    let size: usize = 2 * number + 16;
    let mut pos: usize = HEADER_SIZE;
    while pos <= events.len() && events.len() - pos >= size
        invariant
            number == number_size(table.wide),
            size == raw_event_size(table.wide),
            HEADER_SIZE <= pos,
            events_read_safely(table@, events@, HEADER_SIZE as int) == events_read_safely(
                table@,
                events@,
                pos as int,
            ),
        decreases events.len() - pos,
    {
        let kind = read_number(events, pos, table.wide);
        let label = read_number(events, pos + number, table.wide);
        if !(table.can_read(label) && table.can_read(kind)) {
            return false;
        }
        pos += size;
    }
    true
}

/// Tells whether the buffer is a well-formed file.
pub fn is_decodable(bytes: &[u8]) -> (ok: bool)
    ensures
        ok == decodable(bytes@),
{
    let version = if starts_with_header(bytes, Part::File, VERSION_WIDE) {
        VERSION_WIDE
    } else if starts_with_header(bytes, Part::File, VERSION_NARROW) {
        VERSION_NARROW
    } else {
        return false;
    };
    let wide = version == VERSION_WIDE;
    let streams = match split_pages(bytes) {
        Some(streams) => streams,
        None => {
            return false;
        },
    };
    let events = streams.events;
    let string_data = streams.string_data;
    let string_index = streams.string_index;
    if !starts_with_header(events.as_slice(), Part::Events, version) || !starts_with_header(
        string_data.as_slice(),
        Part::StringData,
        version,
    ) || !starts_with_header(string_index.as_slice(), Part::StringIndex, version) {
        return false;
    }
    let index_left = string_index.len() - HEADER_SIZE;
    let events_left = events.len() - HEADER_SIZE;
    let whole = if wide {
        index_left % 16 == 0 && events_left % 32 == 0
    } else {
        index_left % 8 == 0 && events_left % 24 == 0
    };
    if !whole {
        return false;
    }
    let table = Table::new(string_data, string_index.as_slice(), wide);
    table.can_read(METADATA_ID) && all_events_read(&table, events.as_slice())
}

} // verus!
