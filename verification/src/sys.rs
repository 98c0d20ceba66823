//! Process-level data: the address ranges of the debuggee's memory map, and
//! the errors of the operating system calls the debugger makes.
use crate::command::{next_word, next_word_exec, parse_unsigned, parse_value};
use crate::text::{contains_char, first_index_of, split_once_char};
use crate::types::views;
use vstd::prelude::*;

verus! {

/// Why a call into the operating system failed.
#[derive(Debug, Clone, Copy, PartialEq, Eq)]
pub enum LinuxError {
    /// `ptrace` failed with this errno.
    Ptrace(i32),
    /// Fewer bytes than asked for could be read.
    ByteRead,
    /// A path held an interior NUL byte.
    CString,
}

/// The error type of system calls on the platform the debugger runs on.
pub type SystemError = LinuxError;

/// The error of platforms the debugger does not run on.
#[derive(Debug, Clone, Copy, PartialEq, Eq)]
pub enum DefaultError {
    Error,
}

/// One mapping of the debuggee: addresses `[base_address, max_address)`.
#[derive(Debug, Default, Clone, Copy, PartialEq, Eq)]
pub struct ProcessAddressRange {
    pub base_address: u64,
    pub max_address: u64,
}

impl ProcessAddressRange {
    /// Whether `address` lies in the range.
    pub open spec fn holds(self, address: u64) -> bool {
        self.base_address <= address < self.max_address
    }

    /// The range holds `address`.
    pub fn within_range(&self, address: u64) -> (r: bool)
        ensures
            r == (self.base_address <= address < self.max_address),
    {
        self.base_address <= address && address < self.max_address
    }
}

/// The mappings of the debuggee.
#[derive(Debug, Default)]
pub struct ProcessAddressRanges {
    ranges: Vec<ProcessAddressRange>,
}

impl ProcessAddressRanges {
    /// The ranges.
    pub closed spec fn view_ranges(&self) -> Seq<ProcessAddressRange> {
        self.ranges@
    }

    /// The ranges `ranges`.
    pub fn from(ranges: Vec<ProcessAddressRange>) -> (r: Self)
        ensures
            r.view_ranges() == ranges@,
    {
        ProcessAddressRanges { ranges }
    }

    /// Some mapping holds `address`.
    pub fn within_range(&self, address: u64) -> (r: bool)
        ensures
            r == exists|i: int|
                0 <= i < self.view_ranges().len() && #[trigger] self.view_ranges()[i].holds(address),
    {
        let n = self.ranges.len();
        let mut i: usize = 0;
        while i < n
            invariant
                n == self.ranges@.len(),
                i <= n,
                forall|j: int| 0 <= j < i ==> !(#[trigger] self.ranges@[j].holds(address)),
            decreases n - i,
        {
            if self.ranges[i].within_range(address) {
                assert(self.view_ranges()[i as int].holds(address));
                return true;
            }
            i = i + 1;
        }
        false
    }
}

} // verus!

verus! {

/// One mapping of the debuggee's memory map, with its permissions.
#[derive(Debug, Default, Clone, Copy, PartialEq, Eq)]
pub struct MemoryRegion {
    pub start_address: u64,
    pub end_address: u64,
    pub is_writable: bool,
    pub is_readable: bool,
    pub is_executable: bool,
}

/// The debuggee's memory map.
#[derive(Debug, Default)]
pub struct ProcessMemoryMap {
    regions: Vec<MemoryRegion>,
}

impl ProcessMemoryMap {
    /// The regions, in the order of the map.
    pub closed spec fn view_regions(&self) -> Seq<MemoryRegion> {
        self.regions@
    }

    /// The map of `regions`.
    pub fn from(regions: Vec<MemoryRegion>) -> (r: Self)
        ensures
            r.view_regions() == regions@,
    {
        ProcessMemoryMap { regions }
    }

    /// The mappings, in the order of the map.
    pub fn regions(&self) -> (r: &Vec<MemoryRegion>)
        ensures
            r@ == self.view_regions(),
    {
        &self.regions
    }
}

/// Why the cache of the debuggee could not be set up from the process.
#[derive(Debug, Clone, Copy, PartialEq, Eq)]
pub enum CacheSetupError {
    /// A line of the memory map has an address that is not hexadecimal.
    AddressRange,
}

/// What a line of `/proc/<pid>/maps` says: nothing (no `-`), a start address
/// that is not hexadecimal, a start address alone, a start address with an
/// end that is not hexadecimal, or a mapping.
pub enum MapLine {
    Skip,
    Bad,
    Base(u64),
    BadEnd(u64),
    Region(MemoryRegion),
}

/// How a line `<start>-<end> <perms> ...` of the memory map reads.
pub open spec fn map_line(l: Seq<char>) -> MapLine {
    match first_index_of(l, '-') {
        None => MapLine::Skip,
        Some(i) => match parse_value(l.subrange(0, i), 16, u64::MAX as nat) {
            None => MapLine::Bad,
            Some(b) => {
                let rest = l.subrange(i + 1, l.len() as int);
                match next_word(rest, 0) {
                    None => MapLine::Base(b as u64),
                    Some((x, y)) => {
                        let perm = match next_word(rest, y) {
                            Some((p, q)) => rest.subrange(p, q),
                            None => Seq::empty(),
                        };
                        match parse_value(rest.subrange(x, y), 16, u64::MAX as nat) {
                            None => MapLine::BadEnd(b as u64),
                            Some(e) => MapLine::Region(
                                MemoryRegion {
                                    start_address: b as u64,
                                    end_address: e as u64,
                                    is_writable: perm.contains('w'),
                                    is_readable: perm.contains('r'),
                                    is_executable: perm.contains('x'),
                                },
                            ),
                        }
                    },
                }
            },
        },
    }
}

/// Reading the lines of the memory map in order from load address `base`:
/// the load address (the first start address, unless one was known), the
/// mappings, and whether a line stopped the reading with an error.
pub open spec fn map_lines(base: u64, lines: Seq<Seq<char>>) -> (u64, Seq<MemoryRegion>, bool)
    decreases lines.len(),
{
    if lines.len() == 0 {
        (base, Seq::empty(), false)
    } else {
        let (b, rs, failed) = map_lines(base, lines.drop_last());
        if failed {
            (b, rs, true)
        } else {
            match map_line(lines.last()) {
                MapLine::Skip => (b, rs, false),
                MapLine::Bad => (b, rs, true),
                MapLine::Base(x) => (if b == 0 { x } else { b }, rs, false),
                MapLine::BadEnd(x) => (if b == 0 { x } else { b }, rs, true),
                MapLine::Region(r) => (if b == 0 { r.start_address } else { b }, rs.push(r), false),
            }
        }
    }
}

/// Reads one line of the memory map.
fn read_map_line(l: &str) -> (r: MapLine)
    ensures
        r == map_line(l@),
{
    let (start, rest) = match split_once_char(l, '-') {
        Some(x) => x,
        None => return MapLine::Skip,
    };
    let b = match parse_unsigned(start, 16, u64::MAX) {
        Some(b) => b,
        None => return MapLine::Bad,
    };
    let (end_text, after) = match next_word_exec(rest, 0) {
        Some(x) => x,
        None => return MapLine::Base(b),
    };
    let (readable, writable, executable) = match next_word_exec(rest, after) {
        Some((perm, _)) => (contains_char(perm, 'r'), contains_char(perm, 'w'), contains_char(perm, 'x')),
        None => (false, false, false),
    };
    match parse_unsigned(end_text, 16, u64::MAX) {
        Some(e) => MapLine::Region(
            MemoryRegion {
                start_address: b,
                end_address: e,
                is_writable: writable,
                is_readable: readable,
                is_executable: executable,
            },
        ),
        None => MapLine::BadEnd(b),
    }
}

/// Reads the lines of the debuggee's memory map: the load address becomes
/// the first start address (unless one is known) and the mappings are
/// returned; the first line with an address that is not hexadecimal is an
/// error (the load address may have been set by then).
pub fn read_memory_map(base: &mut u64, lines: &Vec<String>) -> (r: Result<ProcessMemoryMap, CacheSetupError>)
    ensures
        ({
            let (b, rs, failed) = map_lines(*old(base), views(lines@));
            &&& *final(base) == b
            &&& failed ==> r == Err::<ProcessMemoryMap, CacheSetupError>(CacheSetupError::AddressRange)
            &&& !failed ==> (r matches Ok(m) && m.view_regions() == rs)
        }),
{
    let ghost all = views(lines@);
    let mut regions: Vec<MemoryRegion> = Vec::new();
    let n = lines.len();
    let mut i: usize = 0;
    assert(all.take(0) =~= Seq::<Seq<char>>::empty());
    while i < n
        invariant
            n == lines@.len(),
            i <= n,
            all == views(lines@),
            map_lines(*old(base), all.take(i as int)) == (*base, regions@, false),
        decreases n - i,
    {
        assert(all.take(i + 1).drop_last() =~= all.take(i as int));
        assert(all.take(i + 1).last() == lines@[i as int]@);
        match read_map_line(lines[i].as_str()) {
            MapLine::Skip => {},
            MapLine::Bad => {
                proof {
                    lemma_map_lines_failed(*old(base), all, i + 1);
                }
                return Err(CacheSetupError::AddressRange);
            },
            MapLine::Base(x) => {
                if *base == 0 {
                    *base = x;
                }
            },
            MapLine::BadEnd(x) => {
                if *base == 0 {
                    *base = x;
                }
                proof {
                    lemma_map_lines_failed(*old(base), all, i + 1);
                }
                return Err(CacheSetupError::AddressRange);
            },
            MapLine::Region(r) => {
                if *base == 0 {
                    *base = r.start_address;
                }
                regions.push(r);
            },
        }
        i = i + 1;
    }
    assert(all.take(n as int) =~= all);
    Ok(ProcessMemoryMap::from(regions))
}

impl crate::session::DebugSession {
    /// Reads the debuggee's memory map from the lines of `/proc/<pid>/maps`:
    /// the load address (when none is known yet) and, when every line reads,
    /// the mappings.
    pub fn update_process_addresses(&mut self, lines: &Vec<String>) -> (r: Result<(), CacheSetupError>)
        ensures
            ({
                let (b, rs, failed) = map_lines(old(self).base_address, views(lines@));
                &&& final(self).base_address == b
                &&& failed ==> r == Err::<(), CacheSetupError>(CacheSetupError::AddressRange)
                    && final(self).process_map == old(self).process_map
                &&& !failed ==> r is Ok && final(self).process_map.view_regions() == rs
            }),
            final(self).line_row@ == old(self).line_row@,
            final(self).metadata == old(self).metadata,
            final(self).active_breakpoints@ == old(self).active_breakpoints@,
            final(self).current_cmd == old(self).current_cmd,
    {
        match read_memory_map(&mut self.base_address, lines) {
            Ok(map) => {
                self.process_map = map;
                Ok(())
            },
            Err(e) => Err(e),
        }
    }
}

/// Once a line fails, the reading stays failed with the same load address.
proof fn lemma_map_lines_failed(base: u64, lines: Seq<Seq<char>>, k: int)
    requires
        0 <= k <= lines.len(),
        map_lines(base, lines.take(k)).2,
    ensures
        map_lines(base, lines) == map_lines(base, lines.take(k)),
    decreases lines.len() - k,
{
    if k < lines.len() {
        assert(lines.take(k + 1).drop_last() =~= lines.take(k));
        lemma_map_lines_failed(base, lines, k + 1);
    } else {
        assert(lines.take(k) =~= lines);
    }
}

} // verus!
