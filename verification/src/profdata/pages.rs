//! Pages and the streams they make up.
//!
//! A page is a tag of one byte, the size of its body as a four-byte number,
//! and the body. The body is not empty. The bodies of the pages with one tag,
//! in file order, are one stream.

use crate::profdata::bytes::{le_u32, read_u32, HEADER_SIZE};
use vstd::prelude::*;

verus! {

/// The size of a page's tag and size field.
pub const PAGE_HEADER_SIZE: usize = 5;

/// The tag of the pages of the event stream.
pub const TAG_EVENTS: u8 = 0;

/// The tag of the pages of the string data.
pub const TAG_STRING_DATA: u8 = 1;

/// The tag of the pages of the string index.
pub const TAG_STRING_INDEX: u8 = 2;

/// The size of the body of the page that starts at `pos`.
pub open spec fn page_len(bytes: Seq<u8>, pos: int) -> nat {
    le_u32(bytes, pos + 1)
}

/// Where the page that starts at `pos` ends.
pub open spec fn page_end(bytes: Seq<u8>, pos: int) -> int {
    pos + PAGE_HEADER_SIZE + page_len(bytes, pos)
}

/// Whether a whole page with a known tag and a body that is not empty starts
/// at `pos`.
pub open spec fn page_fits(bytes: Seq<u8>, pos: int) -> bool {
    &&& 0 <= pos
    &&& pos + PAGE_HEADER_SIZE <= bytes.len()
    &&& bytes[pos] <= TAG_STRING_INDEX
    &&& page_len(bytes, pos) > 0
    &&& page_end(bytes, pos) <= bytes.len()
}

/// Whether the bytes from `pos` on are whole pages, one after the other, up to
/// the end of the buffer.
pub open spec fn pages_ok(bytes: Seq<u8>, pos: int) -> bool
    decreases bytes.len() - pos,
{
    if pos >= bytes.len() {
        true
    } else {
        page_fits(bytes, pos) && pages_ok(bytes, page_end(bytes, pos))
    }
}

/// The bodies of the pages with the tag from `pos` on, one after the other.
pub open spec fn stream(bytes: Seq<u8>, pos: int, tag: u8) -> Seq<u8>
    decreases bytes.len() - pos,
{
    if pos >= bytes.len() || !page_fits(bytes, pos) {
        Seq::empty()
    } else {
        let body = bytes.subrange(pos + PAGE_HEADER_SIZE, page_end(bytes, pos));
        let rest = stream(bytes, page_end(bytes, pos), tag);
        if bytes[pos] == tag {
            body + rest
        } else {
            rest
        }
    }
}

/// The three streams of a file.
pub struct Streams {
    pub events: Vec<u8>,
    pub string_data: Vec<u8>,
    pub string_index: Vec<u8>,
}

/// Copies `bytes[from..to]` to the end of `stream`.
fn append_body(stream: &mut Vec<u8>, bytes: &[u8], from: usize, to: usize)
    requires
        from <= to <= bytes.len(),
    ensures
        final(stream)@ == old(stream)@ + bytes@.subrange(from as int, to as int),
{
    let ghost before = stream@;
    let mut i: usize = from;
    while i < to
        invariant
            from <= i <= to <= bytes.len(),
            stream@ == before + bytes@.subrange(from as int, i as int),
        decreases to - i,
    {
        stream.push(bytes[i]);
        proof {
            assert(bytes@.subrange(from as int, i + 1) =~= bytes@.subrange(from as int, i as int).push(
                bytes@[i as int],
            ));
        }
        i += 1;
    }
}

/// Splits the pages that follow the file header into the three streams, where
/// they are whole pages up to the end of the buffer.
pub fn split_pages(bytes: &[u8]) -> (streams: Option<Streams>)
    ensures
        streams is Some <==> pages_ok(bytes@, HEADER_SIZE as int),
        streams matches Some(s) ==> {
            &&& s.events@ == stream(bytes@, HEADER_SIZE as int, TAG_EVENTS)
            &&& s.string_data@ == stream(bytes@, HEADER_SIZE as int, TAG_STRING_DATA)
            &&& s.string_index@ == stream(bytes@, HEADER_SIZE as int, TAG_STRING_INDEX)
        },
{
    let ghost start = HEADER_SIZE as int;
    let mut events: Vec<u8> = Vec::new();
    let mut string_data: Vec<u8> = Vec::new();
    let mut string_index: Vec<u8> = Vec::new();
    let mut pos: usize = HEADER_SIZE;
    while pos < bytes.len()
        invariant
            start == HEADER_SIZE,
            start <= pos,
            pages_ok(bytes@, start) == pages_ok(bytes@, pos as int),
            stream(bytes@, start, TAG_EVENTS) == events@ + stream(bytes@, pos as int, TAG_EVENTS),
            stream(bytes@, start, TAG_STRING_DATA) == string_data@ + stream(
                bytes@,
                pos as int,
                TAG_STRING_DATA,
            ),
            stream(bytes@, start, TAG_STRING_INDEX) == string_index@ + stream(
                bytes@,
                pos as int,
                TAG_STRING_INDEX,
            ),
        decreases bytes.len() - pos,
    {
        let left = bytes.len() - pos;
        if left < PAGE_HEADER_SIZE {
            return None;
        }
        let tag = bytes[pos];
        let size = read_u32(bytes, pos + 1) as usize;
        if tag > TAG_STRING_INDEX || size == 0 || size > left - PAGE_HEADER_SIZE {
            return None;
        }
        let body = pos + PAGE_HEADER_SIZE;
        let end = body + size;
        assert(end == page_end(bytes@, pos as int));
        assert(page_fits(bytes@, pos as int));
        if tag == TAG_EVENTS {
            append_body(&mut events, bytes, body, end);
        } else if tag == TAG_STRING_DATA {
            append_body(&mut string_data, bytes, body, end);
        } else {
            append_body(&mut string_index, bytes, body, end);
        }
        proof {
            let page = bytes@.subrange(body as int, end as int);
            assert forall|t: u8| #![auto] stream(bytes@, pos as int, t) == if bytes@[pos as int] == t {
                page + stream(bytes@, end as int, t)
            } else {
                stream(bytes@, end as int, t)
            } by {}
            assert(stream(bytes@, start, TAG_EVENTS) =~= events@ + stream(
                bytes@,
                end as int,
                TAG_EVENTS,
            ));
            assert(stream(bytes@, start, TAG_STRING_DATA) =~= string_data@ + stream(
                bytes@,
                end as int,
                TAG_STRING_DATA,
            ));
            assert(stream(bytes@, start, TAG_STRING_INDEX) =~= string_index@ + stream(
                bytes@,
                end as int,
                TAG_STRING_INDEX,
            ));
        }
        pos = end;
    }
    proof {
        assert(stream(bytes@, pos as int, TAG_EVENTS) =~= Seq::<u8>::empty());
        assert(stream(bytes@, start, TAG_EVENTS) =~= events@);
        assert(stream(bytes@, start, TAG_STRING_DATA) =~= string_data@);
        assert(stream(bytes@, start, TAG_STRING_INDEX) =~= string_index@);
    }
    Some(Streams { events, string_data, string_index })
}

} // verus!
