//! The string table: the string data, and the index that maps virtual string
//! ids to addresses in it.
//!
//! A string is a list of components that ends with a terminator byte. A
//! component is a run of text bytes or a reference: a tag byte followed by the
//! id of another string. [`reads_safely`] says of which ids the string can be
//! put together without reading outside the data, without following
//! references deeper than [`MAX_NESTING`] levels, and within [`MAX_STEPS`]
//! steps.

use crate::profdata::bytes::{le_number, number_size, read_number, HEADER_SIZE};
use std::collections::HashMap;
use vstd::prelude::*;

verus! {

/// The byte that ends a string.
pub const TERMINATOR: u8 = 0xFF;

/// The byte that a reference to another string starts with.
pub const REFERENCE: u8 = 0xFE;

/// The id of the string that holds the metadata of the trace. Ids up to this
/// one are virtual: the index gives their addresses.
pub const METADATA_ID: u64 = 100_000_001;

/// The id that stands for no string.
pub const INVALID_ID: u64 = 100_000_002;

/// The first id that is an address in the string data, shifted by this amount.
pub const FIRST_REGULAR_ID: u64 = 100_000_003;

/// How many levels of references the strings of a decodable file may nest.
pub const MAX_NESTING: u32 = 256;

/// How many steps the reading of one string of a decodable file may take. A
/// step is one byte of text, one reference or one terminator, those of the
/// strings that the references name included, so that a string is put together
/// from no more pieces than this.
pub const MAX_STEPS: u64 = 16_777_216;

/// The size of one entry of the index: an id and an address.
pub open spec fn entry_size(wide: bool) -> nat {
    2 * number_size(wide)
}

/// The size of a reference: the tag byte and an id.
pub open spec fn reference_size(wide: bool) -> nat {
    1 + number_size(wide)
}

/// The map that the entries of the index stream from `pos` on add to `map`,
/// one after the other. Where an id occurs twice, the later entry counts. What
/// is left of the stream after the last whole entry is not read.
pub open spec fn index_from(index: Seq<u8>, wide: bool, pos: int, map: Map<u64, u64>) -> Map<
    u64,
    u64,
>
    decreases index.len() - pos,
{
    if pos < 0 || pos + entry_size(wide) > index.len() {
        map
    } else {
        index_from(
            index,
            wide,
            pos + entry_size(wide),
            map.insert(
                le_number(index, pos, wide) as u64,
                le_number(index, pos + number_size(wide), wide) as u64,
            ),
        )
    }
}

/// The map that the entries of the index stream make up.
pub open spec fn index_of(index: Seq<u8>, wide: bool) -> Map<u64, u64> {
    index_from(index, wide, HEADER_SIZE as int, Map::empty())
}

/// Whether the index stream, after its header, is a whole number of entries.
pub open spec fn index_fits(index: Seq<u8>, wide: bool) -> bool {
    index.len() >= HEADER_SIZE && (index.len() - HEADER_SIZE) % (entry_size(wide) as int) == 0
}

/// What a string table is in contracts.
pub struct TableView {
    pub data: Seq<u8>,
    pub index: Map<u64, u64>,
    pub wide: bool,
}

/// The string table of one file.
pub struct Table {
    pub data: Vec<u8>,
    pub index: HashMap<u64, u64>,
    pub wide: bool,
}

impl View for Table {
    type V = TableView;

    open spec fn view(&self) -> TableView {
        TableView { data: self.data@, index: self.index@, wide: self.wide }
    }
}

/// The table that a string data stream and an index stream make up.
pub open spec fn table_of(data: Seq<u8>, index: Seq<u8>, wide: bool) -> TableView {
    TableView { data, index: index_of(index, wide), wide }
}

/// The address of the string with the id, if it has one: a virtual id has the
/// address that the index gives it, the invalid id has none, and every other
/// id is its own address, shifted.
pub open spec fn resolve(table: TableView, id: u64) -> Option<u64> {
    if id <= METADATA_ID {
        if table.index.contains_key(id) {
            Some(table.index[id])
        } else {
            None
        }
    } else if id == INVALID_ID {
        None
    } else {
        Some((id - FIRST_REGULAR_ID) as u64)
    }
}

/// The position of the first terminator at or after `from`, or the length of
/// the data where there is none.
pub open spec fn next_terminator(data: Seq<u8>, from: int) -> int
    decreases data.len() - from,
{
    if from < 0 || from >= data.len() {
        data.len() as int
    } else if data[from] == TERMINATOR {
        from
    } else {
        next_terminator(data, from + 1)
    }
}

/// The position of the first terminator or reference tag at or after `from`,
/// or the length of the data where there is none.
pub open spec fn next_marker(data: Seq<u8>, from: int) -> int
    decreases data.len() - from,
{
    if from < 0 || from >= data.len() {
        data.len() as int
    } else if data[from] == TERMINATOR || data[from] == REFERENCE {
        from
    } else {
        next_marker(data, from + 1)
    }
}

/// The id that the reference at `pos` holds.
pub open spec fn reference_id(table: TableView, pos: int) -> u64 {
    le_number(table.data, pos + 1, table.wide) as u64
}

/// The steps that are left of `steps` when the components from `pos` on have
/// been read one after the other, up to a terminator or, inside a run of
/// text, to the end of the data; `None` where they cannot be read.
///
/// They can be read where each position that is read lies inside the data,
/// each reference is there in full and is followed no deeper than `depth`
/// levels, the string that a reference names can be read in the same way, one
/// level deeper, and the steps last. A reference to an id without an address
/// reads as a fixed text.
pub open spec fn walk_steps_left(table: TableView, pos: int, depth: nat, steps: nat) -> Option<nat>
    decreases depth, table.data.len() - pos,
{
    if pos < 0 || pos >= table.data.len() || steps == 0 {
        None
    } else if table.data[pos] == TERMINATOR {
        Some((steps - 1) as nat)
    } else if table.data[pos] == REFERENCE {
        if pos + reference_size(table.wide) > table.data.len() || depth == 0 {
            None
        } else {
            let inner = match resolve(table, reference_id(table, pos)) {
                Some(addr) => walk_steps_left(
                    table,
                    addr as int,
                    (depth - 1) as nat,
                    (steps - 1) as nat,
                ),
                None => Some((steps - 1) as nat),
            };
            match inner {
                Some(left) => walk_steps_left(
                    table,
                    pos + reference_size(table.wide),
                    depth,
                    left,
                ),
                None => None,
            }
        }
    } else if next_marker(table.data, pos + 1) >= table.data.len() {
        Some((steps - 1) as nat)
    } else {
        walk_steps_left(table, pos + 1, depth, (steps - 1) as nat)
    }
}

/// The steps that are left of `steps` when the string with the id has been
/// read; `None` where it cannot be read.
///
/// An id without an address reads as a fixed text. Otherwise a terminator must
/// follow the address. A string that starts with a reference, and whose first
/// terminator stands as many bytes after its address as the address and the
/// size of a reference add up to, reads as the string that the reference
/// names. Every other string is read component by component.
pub open spec fn read_steps_left(table: TableView, id: u64, depth: nat, steps: nat) -> Option<nat>
    decreases depth,
{
    match resolve(table, id) {
        None => Some(steps),
        Some(addr) => {
            let end = next_terminator(table.data, addr as int);
            if addr >= table.data.len() || end >= table.data.len() {
                None
            } else if table.data[addr as int] == REFERENCE && end - addr == addr + reference_size(
                table.wide,
            ) {
                if depth == 0 || steps == 0 {
                    None
                } else {
                    read_steps_left(
                        table,
                        reference_id(table, addr as int),
                        (depth - 1) as nat,
                        (steps - 1) as nat,
                    )
                }
            } else {
                walk_steps_left(table, addr as int, depth, steps)
            }
        },
    }
}

/// Whether the string with the id can be read within the limits on nesting
/// and on steps.
pub open spec fn reads_safely(table: TableView, id: u64) -> bool {
    read_steps_left(table, id, MAX_NESTING as nat, MAX_STEPS as nat) is Some
}

/// Whether a count of steps that was computed is the one that was specified.
pub open spec fn same_steps(computed: Option<u64>, specified: Option<nat>) -> bool {
    match computed {
        Some(left) => specified == Some(left as nat),
        None => specified is None,
    }
}

/// A run of text takes one step for each byte and then reads like what
/// follows it.
pub proof fn lemma_text_run(table: TableView, pos: int, marker: int, depth: nat, steps: nat)
    requires
        0 <= pos < marker < table.data.len(),
        table.data[pos] != TERMINATOR,
        table.data[pos] != REFERENCE,
        marker == next_marker(table.data, pos + 1),
    ensures
        walk_steps_left(table, pos, depth, steps) == if steps >= marker - pos {
            walk_steps_left(table, marker, depth, (steps - (marker - pos)) as nat)
        } else {
            None
        },
    decreases marker - pos,
{
    if steps > 0 && pos + 1 < marker {
        lemma_text_run(table, pos + 1, marker, depth, (steps - 1) as nat);
    }
}

/// Finds the first terminator at or after `from`.
pub fn find_terminator(data: &[u8], from: usize) -> (at: usize)
    requires
        from <= data.len(),
    ensures
        at == next_terminator(data@, from as int),
        from <= at <= data.len(),
{
    let mut at: usize = from;
    while at < data.len() && data[at] != TERMINATOR
        invariant
            from <= at <= data.len(),
            next_terminator(data@, from as int) == next_terminator(data@, at as int),
        decreases data.len() - at,
    {
        at += 1;
    }
    at
}

/// Finds the first terminator or reference tag at or after `from`.
pub fn find_marker(data: &[u8], from: usize) -> (at: usize)
    requires
        from <= data.len(),
    ensures
        at == next_marker(data@, from as int),
        from <= at <= data.len(),
{
    let mut at: usize = from;
    while at < data.len() && data[at] != TERMINATOR && data[at] != REFERENCE
        invariant
            from <= at <= data.len(),
            next_marker(data@, from as int) == next_marker(data@, at as int),
        decreases data.len() - at,
    {
        at += 1;
    }
    at
}

/// Reads the index stream into a map.
pub fn read_index(index: &[u8], wide: bool) -> (map: HashMap<u64, u64>)
    ensures
        map@ == index_of(index@, wide),
{
    broadcast use vstd::std_specs::hash::group_hash_axioms;

    let number: usize = if wide {
        8
    } else {
        4
    };
    let entry: usize = 2 * number;
    let mut map: HashMap<u64, u64> = HashMap::new();
    let mut pos: usize = HEADER_SIZE;
    while pos <= index.len() && index.len() - pos >= entry
        invariant
            number == number_size(wide),
            entry == entry_size(wide),
            HEADER_SIZE <= pos,
            index_of(index@, wide) == index_from(index@, wide, pos as int, map@),
        decreases index.len() - pos,
    {
        let id = read_number(index, pos, wide);
        let addr = read_number(index, pos + number, wide);
        map.insert(id, addr);
        pos += entry;
    }
    map
}

impl Table {
    /// Puts the table of a file together from its two streams.
    pub fn new(data: Vec<u8>, index: &[u8], wide: bool) -> (table: Table)
        ensures
            table@ == table_of(data@, index@, wide),
    {
        Table { data, index: read_index(index, wide), wide }
    }

    /// The address of the string with the id, if it has one.
    pub fn resolve(&self, id: u64) -> (addr: Option<u64>)
        ensures
            addr == resolve(self@, id),
    {
        broadcast use vstd::std_specs::hash::group_hash_axioms;

        if id <= METADATA_ID {
            match self.index.get(&id) {
                Some(addr) => Some(*addr),
                None => None,
            }
        } else if id == INVALID_ID {
            None
        } else {
            Some(id - FIRST_REGULAR_ID)
        }
    }

    /// The size of a reference in this table.
    fn reference_size(&self) -> (size: usize)
        ensures
            size == reference_size(self.wide),
    {
        if self.wide {
            9
        } else {
            5
        }
    }

    /// Reads the components from `start` on, following references no deeper
    /// than `depth` levels, and tells how many of `steps` are left.
    pub fn walk(&self, start: usize, depth: u32, steps: u64) -> (left: Option<u64>)
        ensures
            same_steps(left, walk_steps_left(self@, start as int, depth as nat, steps as nat)),
        decreases depth,
    {
        let size = self.reference_size();
        let mut pos: usize = start;
        let mut left: u64 = steps;
        loop
            invariant
                size == reference_size(self.wide),
                walk_steps_left(self@, start as int, depth as nat, steps as nat)
                    == walk_steps_left(self@, pos as int, depth as nat, left as nat),
            decreases self.data.len() - pos,
        {
            if pos >= self.data.len() || left == 0 {
                return None;
            }
            let byte = self.data[pos];
            if byte == TERMINATOR {
                return Some(left - 1);
            }
            if byte == REFERENCE {
                if self.data.len() - pos < size || depth == 0 {
                    return None;
                }
                let id = read_number(self.data.as_slice(), pos + 1, self.wide);
                match self.resolve(id) {
                    Some(addr) => {
                        if addr >= self.data.len() as u64 {
                            assert(walk_steps_left(
                                self@,
                                addr as int,
                                (depth - 1) as nat,
                                (left - 1) as nat,
                            ) is None);
                            return None;
                        }
                        match self.walk(addr as usize, depth - 1, left - 1) {
                            Some(rest) => {
                                left = rest;
                            },
                            None => {
                                return None;
                            },
                        }
                    },
                    None => {
                        left = left - 1;
                    },
                }
                pos += size;
            } else {
                let marker = find_marker(self.data.as_slice(), pos + 1);
                if marker >= self.data.len() {
                    return Some(left - 1);
                }
                proof {
                    lemma_text_run(self@, pos as int, marker as int, depth as nat, left as nat);
                }
                let run = (marker - pos) as u64;
                if left < run {
                    return None;
                }
                left = left - run;
                pos = marker;
            }
        }
    }

    /// Reads the string with the id, following references no deeper than
    /// `depth` levels, and tells how many of `steps` are left.
    pub fn read(&self, id: u64, depth: u32, steps: u64) -> (left: Option<u64>)
        ensures
            same_steps(left, read_steps_left(self@, id, depth as nat, steps as nat)),
        decreases depth,
    {
        let addr = match self.resolve(id) {
            Some(addr) => addr,
            None => {
                return Some(steps);
            },
        };
        if addr >= self.data.len() as u64 {
            return None;
        }
        let start = addr as usize;
        let end = find_terminator(self.data.as_slice(), start);
        if end >= self.data.len() {
            return None;
        }
        let size = self.reference_size();
        if self.data[start] == REFERENCE && end - start >= size && end - start - size == start {
            if depth == 0 || steps == 0 {
                return None;
            }
            let id = read_number(self.data.as_slice(), start + 1, self.wide);
            self.read(id, depth - 1, steps - 1)
        } else {
            self.walk(start, depth, steps)
        }
    }

    /// Tells whether the string with the id can be read within the limits on
    /// nesting and on steps.
    pub fn can_read(&self, id: u64) -> (ok: bool)
        ensures
            ok == reads_safely(self@, id),
    {
        self.read(id, MAX_NESTING, MAX_STEPS).is_some()
    }
}

} // verus!
