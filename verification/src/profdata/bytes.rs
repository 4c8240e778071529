//! Little-endian numbers and stream headers.

use vstd::prelude::*;

verus! {

/// The size of the header of a file and of each stream.
pub const HEADER_SIZE: usize = 8;

/// The older of the two file format versions that can be decoded.
pub const VERSION_NARROW: u32 = 8;

/// The newer of the two file format versions. It stores string ids and
/// addresses in eight bytes where the older one uses four.
pub const VERSION_WIDE: u32 = 9;

/// The number that the four bytes at `at` encode, least significant byte
/// first.
pub open spec fn le_u32(bytes: Seq<u8>, at: int) -> nat {
    (bytes[at] as nat) + 256 * (bytes[at + 1] as nat) + 65536 * (bytes[at + 2] as nat) + 16777216
        * (bytes[at + 3] as nat)
}

/// The number that the eight bytes at `at` encode, least significant byte
/// first.
pub open spec fn le_u64(bytes: Seq<u8>, at: int) -> nat {
    le_u32(bytes, at) + 4294967296 * le_u32(bytes, at + 4)
}

/// The number of `size` bytes at `at`, where `size` is four or eight.
pub open spec fn le_number(bytes: Seq<u8>, at: int, wide: bool) -> nat {
    if wide {
        le_u64(bytes, at)
    } else {
        le_u32(bytes, at)
    }
}

/// The number of bytes that hold a string id or an address.
pub open spec fn number_size(wide: bool) -> nat {
    if wide {
        8
    } else {
        4
    }
}

/// Reads the four-byte number at `at`.
pub fn read_u32(bytes: &[u8], at: usize) -> (value: u32)
    requires
        at + 4 <= bytes.len(),
    ensures
        value == le_u32(bytes@, at as int),
{
    let b0 = bytes[at] as u32;
    let b1 = bytes[at + 1] as u32;
    let b2 = bytes[at + 2] as u32;
    let b3 = bytes[at + 3] as u32;
    b0 + 256 * b1 + 65536 * b2 + 16777216 * b3
}

/// Reads the eight-byte number at `at`.
pub fn read_u64(bytes: &[u8], at: usize) -> (value: u64)
    requires
        at + 8 <= bytes.len(),
    ensures
        value == le_u64(bytes@, at as int),
{
    let low = read_u32(bytes, at) as u64;
    let high = read_u32(bytes, at + 4) as u64;
    low + 4294967296 * high
}

/// Reads the number of four or eight bytes at `at`.
pub fn read_number(bytes: &[u8], at: usize, wide: bool) -> (value: u64)
    requires
        at + number_size(wide) <= bytes.len(),
    ensures
        value == le_number(bytes@, at as int, wide),
{
    if wide {
        read_u64(bytes, at)
    } else {
        read_u32(bytes, at) as u64
    }
}

/// The three streams of a file and the file itself, each of which starts with
/// a header: a mark of four bytes and the format version.
#[derive(Clone, Copy, Debug, PartialEq, Eq)]
pub enum Part {
    File,
    Events,
    StringData,
    StringIndex,
}

impl Part {
    /// The four bytes that a part starts with.
    pub open spec fn spec_mark(self) -> Seq<u8> {
        match self {
            Part::File => seq![0x4Du8, 0x4Du8, 0x50u8, 0x44u8],
            Part::Events => seq![0x4Du8, 0x4Du8, 0x45u8, 0x53u8],
            Part::StringData => seq![0x4Du8, 0x4Du8, 0x53u8, 0x44u8],
            Part::StringIndex => seq![0x4Du8, 0x4Du8, 0x53u8, 0x49u8],
        }
    }

    /// The third and fourth byte of the mark; the first two are `M`.
    fn mark_tail(&self) -> (tail: (u8, u8))
        ensures
            self.spec_mark() == seq![0x4Du8, 0x4Du8, tail.0, tail.1],
    {
        match self {
            Part::File => (0x50, 0x44),
            Part::Events => (0x45, 0x53),
            Part::StringData => (0x53, 0x44),
            Part::StringIndex => (0x53, 0x49),
        }
    }
}

/// Whether the bytes start with the header of the part in the given version.
pub open spec fn has_header(bytes: Seq<u8>, part: Part, version: u32) -> bool {
    &&& bytes.len() >= HEADER_SIZE
    &&& bytes.subrange(0, 4) == part.spec_mark()
    &&& le_u32(bytes, 4) == version
}

/// Tells whether the bytes start with the header of the part in the given
/// version.
pub fn starts_with_header(bytes: &[u8], part: Part, version: u32) -> (ok: bool)
    ensures
        ok == has_header(bytes@, part, version),
{
    if bytes.len() < HEADER_SIZE {
        return false;
    }
    let tail = part.mark_tail();
    let marked = bytes[0] == 0x4D && bytes[1] == 0x4D && bytes[2] == tail.0 && bytes[3] == tail.1;
    proof {
        let head = bytes@.subrange(0, 4);
        let mark = part.spec_mark();
        if marked {
            assert(head =~= mark);
        } else {
            assert(head[0] == bytes@[0] && head[1] == bytes@[1] && head[2] == bytes@[2] && head[3]
                == bytes@[3]);
        }
    }
    marked && read_u32(bytes, 4) == version
}

} // verus!
