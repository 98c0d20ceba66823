//! Software breakpoints: the INT3 patch of a memory word, reference-counted
//! installs, and the user's numbered breakpoints.
use vstd::prelude::*;

verus! {

/// The INT3 opcode.
pub const INT3: i64 = 0xCC;

/// `word` with its lowest byte replaced by INT3.
pub open spec fn patched_word(word: i64) -> i64 {
    (word & !0xFFi64) | 0xCCi64
}

/// `word` with its lowest byte replaced by `byte`.
pub open spec fn restored_word(word: i64, byte: u8) -> i64 {
    (word & !0xFFi64) | (byte as i64)
}

/// The lowest byte of `word`.
pub open spec fn low_byte(word: i64) -> u8 {
    (word & 0xFFi64) as u8
}

/// Stores and manages the insertion and removal of INT3 at one address.
#[derive(Debug, Clone, Copy, PartialEq, Eq)]
pub struct BreakPoint {
    pub addr: u64,
    pub original_byte: u8,
    pub is_enabled: bool,
}

/// The breakpoint type of the platform the debugger runs on.
pub type PlatformBreakpoint = BreakPoint;

impl BreakPoint {
    /// A breakpoint at `addr`, not yet written into memory.
    pub fn new(addr: u64) -> (r: Self)
        ensures
            r.addr == addr,
            r.original_byte == 0,
            !r.is_enabled,
    {
        BreakPoint { addr, original_byte: 0, is_enabled: false }
    }

    /// Given the memory word at `addr`, saves its lowest byte and returns the
    /// word to write back: the same word with INT3 as its lowest byte.
    pub fn enable(&mut self, word: i64) -> (r: i64)
        ensures
            r == patched_word(word),
            final(self).original_byte == low_byte(word),
            final(self).is_enabled,
            final(self).addr == old(self).addr,
    {
        self.original_byte = (word & 0xFF) as u8;
        self.is_enabled = true;
        (word & !0xFF) | 0xCC
    }

    /// Given the memory word at `addr`, returns the word to write back with the
    /// saved byte restored, or nothing to write when the breakpoint is not enabled.
    pub fn disable(&mut self, word: i64) -> (r: Option<i64>)
        ensures
            old(self).is_enabled ==> r == Some(restored_word(word, old(self).original_byte)),
            !old(self).is_enabled ==> r is None,
            !final(self).is_enabled,
            final(self).addr == old(self).addr,
            final(self).original_byte == old(self).original_byte,
    {
        if !self.is_enabled {
            return None;
        }
        let restored = (word & !0xFF) | (self.original_byte as i64);
        self.is_enabled = false;
        Some(restored)
    }
}

/// Patching a word and then restoring it gives the word back, whatever the
/// memory held: enabling writes INT3 into the lowest byte only, and disabling
/// puts the saved byte back.
pub proof fn law_patch_then_restore(word: i64)
    ensures
        restored_word(patched_word(word), low_byte(word)) == word,
        low_byte(patched_word(word)) == 0xCC,
        patched_word(word) & !0xFFi64 == word & !0xFFi64,
{
    assert(((word & !0xFFi64) | 0xCCi64) & !0xFFi64 | ((word & 0xFFi64) as u8 as i64) == word)
        by (bit_vector);
    assert((((word & !0xFFi64) | 0xCCi64) & 0xFFi64) as u8 == 0xCCu8) by (bit_vector);
    assert(((word & !0xFFi64) | 0xCCi64) & !0xFFi64 == word & !0xFFi64) by (bit_vector);
}

/// An installed breakpoint and the number of users that asked for it.
#[derive(Debug, Clone, Copy, PartialEq, Eq)]
pub struct ManagedBreakpoint {
    pub breakpoint: PlatformBreakpoint,
    pub ref_count: usize,
}

impl ManagedBreakpoint {
    /// A breakpoint with a single user.
    pub fn new(breakpoint: PlatformBreakpoint) -> (r: Self)
        ensures
            r.breakpoint == breakpoint,
            r.ref_count == 1,
    {
        ManagedBreakpoint { breakpoint, ref_count: 1 }
    }
}

/// A machine address (relative to the load address) that a source line maps to.
#[derive(Debug, Clone, PartialEq, Eq)]
pub struct BreakpointTarget {
    pub file: String,
    pub relative_address: u64,
}

/// A breakpoint as the user sees it: a line, its file, its addresses, on or off.
#[derive(Debug, Clone)]
pub struct BreakpointData {
    pub target: Vec<BreakpointTarget>,
    pub line: u32,
    pub file: String,
    pub enabled: bool,
}

impl BreakpointData {
    /// A new, enabled breakpoint.
    pub fn from_target(target: Vec<BreakpointTarget>, line: u32, file: &str) -> (r: Self)
        ensures
            r.target@ == target@,
            r.line == line,
            r.file@ == file@,
            r.enabled,
    {
        BreakpointData { target, line, file: file.to_owned(), enabled: true }
    }
}

/// What a request on the user's breakpoints did.
#[derive(Debug, Clone)]
pub enum BreakpointMutationResult {
    Created { count: u8, target: BreakpointTarget },
    Updated,
    AlreadyInState,
    NotFound,
}

} // verus!
