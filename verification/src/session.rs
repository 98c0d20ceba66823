//! The state of a debugging session: the line table, the user's breakpoints
//! and the breakpoints written into the debuggee, and the stepping commands.
//!
//! The session does not touch the debuggee itself. Operations that need its
//! memory patched say so in what they return: the addresses at which a new
//! breakpoint must be armed and the breakpoints that must be disarmed.
use crate::breakpoint::{
    BreakPoint, BreakpointData, BreakpointMutationResult, BreakpointTarget, ManagedBreakpoint,
};
use crate::dwarf::{DebuggerMetadataCache, RegisterViewer};
use crate::fxmap::{fx_get, fx_insert, fx_new, fx_remove};
use crate::types::{
    CurrentStopCmd, LineRow, SourceCodeCache, SourceLocation, StringId, StringInterner,
};
use rustc_hash::FxHashMap;
use vstd::prelude::*;

verus! {

/// The rows are ordered by start address.
pub open spec fn sorted_by_start(rows: Seq<LineRow>) -> bool {
    forall|i: int, j: int| 0 <= i <= j < rows.len() ==> rows[i].start_address <= rows[j].start_address
}

/// The rows that start at `start`, in their order.
pub open spec fn starting_at(rows: Seq<LineRow>, start: u64) -> Seq<LineRow> {
    rows.filter(|r: LineRow| r.start_address == start)
}

/// Sorts the rows by start address (`slice::sort_by_key`, a stable sort that
/// keeps every element and the order of rows with the same start).
#[verifier::external_body]
fn sort_rows_by_start(rows: &mut Vec<LineRow>)
    ensures
        final(rows)@.to_multiset() == old(rows)@.to_multiset(),
        final(rows)@.len() == old(rows)@.len(),
        sorted_by_start(final(rows)@),
        forall|start: u64| #[trigger] starting_at(final(rows)@, start) == starting_at(old(rows)@, start),
{
    rows.sort_by_key(|l| l.start_address)
}

/// The last row (in address order) that starts at or before `pc`.
pub open spec fn last_starting_at_or_before(rows: Seq<LineRow>, pc: u64) -> Option<int> {
    if exists|i: int| 0 <= i < rows.len() && rows[i].start_address <= pc {
        Some(
            choose|i: int|
                0 <= i < rows.len() && rows[i].start_address <= pc && forall|j: int|
                    i < j < rows.len() ==> rows[j].start_address > pc,
        )
    } else {
        None
    }
}

/// The line row that covers `pc`: the last row starting at or before `pc`, if
/// its range reaches past `pc`.
pub open spec fn row_at(rows: Seq<LineRow>, pc: u64) -> Option<LineRow> {
    match last_starting_at_or_before(rows, pc) {
        Some(i) => if rows[i].covers(pc) {
            Some(rows[i])
        } else {
            None
        },
        None => None,
    }
}

/// The rows that are kept: those at or past the start of the text section, in order.
pub open spec fn rows_in_text(rows: Seq<LineRow>, text_address: u64) -> Seq<LineRow>
    decreases rows.len(),
{
    if rows.len() == 0 {
        Seq::empty()
    } else if rows.last().start_address >= text_address {
        rows_in_text(rows.drop_last(), text_address).push(rows.last())
    } else {
        rows_in_text(rows.drop_last(), text_address)
    }
}

/// The reference counts of the breakpoints written into memory.
pub open spec fn ref_counts(m: Map<u64, ManagedBreakpoint>) -> Map<u64, usize> {
    Map::new(|a: u64| m.contains_key(a), |a: u64| m[a].ref_count)
}

/// The breakpoints after one more user asks for a breakpoint at `abs`: a new
/// entry (not yet armed) or one more reference.
pub open spec fn acquire_spec(m: Map<u64, ManagedBreakpoint>, abs: u64) -> Map<u64, ManagedBreakpoint> {
    if m.contains_key(abs) {
        m.insert(
            abs,
            ManagedBreakpoint {
                ref_count: if m[abs].ref_count < usize::MAX {
                    (m[abs].ref_count + 1) as usize
                } else {
                    usize::MAX
                },
                ..m[abs]
            },
        )
    } else {
        m.insert(
            abs,
            ManagedBreakpoint {
                breakpoint: BreakPoint { addr: abs, original_byte: 0, is_enabled: false },
                ref_count: 1,
            },
        )
    }
}

/// The breakpoints after one user gives up its breakpoint at `abs`: one
/// reference fewer, or the entry gone with the last reference.
pub open spec fn release_spec(m: Map<u64, ManagedBreakpoint>, abs: u64) -> Map<u64, ManagedBreakpoint> {
    if !m.contains_key(abs) {
        m
    } else if m[abs].ref_count > 1 {
        m.insert(abs, ManagedBreakpoint { ref_count: (m[abs].ref_count - 1) as usize, ..m[abs] })
    } else {
        m.remove(abs)
    }
}

/// The machine address of a relative address (wrapping, as a release build does).
pub open spec fn absolute(base: u64, relative: u64) -> u64 {
    ((base + relative) % 0x1_0000_0000_0000_0000) as u64
}

/// Turning a relative address into a machine address and back gives the
/// relative address again, where the machine address does not wrap around.
pub proof fn law_relative_of_absolute(base: u64, relative: u64)
    requires
        base + relative <= u64::MAX,
    ensures
        absolute(base, relative) >= base,
        absolute(base, relative) - base == relative,
{
}

/// The breakpoints after acquiring each target's address in order.
pub open spec fn acquire_all(m: Map<u64, ManagedBreakpoint>, base: u64, targets: Seq<BreakpointTarget>) -> Map<u64, ManagedBreakpoint>
    decreases targets.len(),
{
    if targets.len() == 0 {
        m
    } else {
        acquire_spec(
            acquire_all(m, base, targets.drop_last()),
            absolute(base, targets.last().relative_address),
        )
    }
}

/// The addresses at which acquiring the targets in order creates a new entry.
pub open spec fn acquire_all_new(m: Map<u64, ManagedBreakpoint>, base: u64, targets: Seq<BreakpointTarget>) -> Seq<u64>
    decreases targets.len(),
{
    if targets.len() == 0 {
        Seq::empty()
    } else {
        let before = acquire_all(m, base, targets.drop_last());
        let abs = absolute(base, targets.last().relative_address);
        if before.contains_key(abs) {
            acquire_all_new(m, base, targets.drop_last())
        } else {
            acquire_all_new(m, base, targets.drop_last()).push(abs)
        }
    }
}

/// The breakpoints after releasing each target's address in order.
pub open spec fn release_all(m: Map<u64, ManagedBreakpoint>, base: u64, targets: Seq<BreakpointTarget>) -> Map<u64, ManagedBreakpoint>
    decreases targets.len(),
{
    if targets.len() == 0 {
        m
    } else {
        release_spec(
            release_all(m, base, targets.drop_last()),
            absolute(base, targets.last().relative_address),
        )
    }
}

/// The entries that releasing the targets in order removes, in order.
pub open spec fn release_all_removed(m: Map<u64, ManagedBreakpoint>, base: u64, targets: Seq<BreakpointTarget>) -> Seq<BreakPoint>
    decreases targets.len(),
{
    if targets.len() == 0 {
        Seq::empty()
    } else {
        let before = release_all(m, base, targets.drop_last());
        let abs = absolute(base, targets.last().relative_address);
        if before.contains_key(abs) && before[abs].ref_count <= 1 {
            release_all_removed(m, base, targets.drop_last()).push(before[abs].breakpoint)
        } else {
            release_all_removed(m, base, targets.drop_last())
        }
    }
}

/// Cache for the entire debug session.
#[derive(Debug)]
pub struct DebugSession {
    /// The machine addresses of each source line, by line number.
    pub line_index: FxHashMap<u32, Vec<BreakpointTarget>>,
    /// The load address of the debuggee.
    pub base_address: u64,
    /// The user's breakpoints, numbered from 1 by position; deleted ones are `None`.
    pub breakpoint_index_tracker: Vec<Option<BreakpointData>>,
    /// Address ranges and their source lines, sorted by start address.
    pub line_row: Vec<LineRow>,
    /// The lines of each file in the order the compiler emitted code for them.
    pub file_declaration_order: FxHashMap<u16, Vec<u32>>,
    /// The file paths, interned.
    pub interner: StringInterner,
    pub source_file: SourceCodeCache,
    pub metadata: DebuggerMetadataCache,
    /// What the debugger does at the next trap.
    pub current_cmd: CurrentStopCmd,
    /// The `.eh_frame` section, for unwinding.
    pub raw_debug_frame: crate::dwarf::RawDebugFrame,
    /// The registers as of the last stop, when still valid.
    pub registers: Option<RegisterViewer>,
    /// The breakpoints written into the debuggee, by machine address.
    pub active_breakpoints: FxHashMap<u64, ManagedBreakpoint>,
    pub pid: i32,
    /// The debuggee's memory map.
    pub process_map: crate::sys::ProcessMemoryMap,
}

} // verus!

verus! {

/// Whether the path `path` ends with the path `child`, compared by whole
/// `/`-separated components.
pub open spec fn path_ends_with(path: Seq<char>, child: Seq<char>) -> bool {
    crate::text::is_suffix(child, path) && (child.len() == path.len() || child.len() == 0
        || path[path.len() - child.len() - 1] == '/')
}

/// Whether the path `path` ends with the path `child`, by whole components.
pub fn path_ends_with_exec(path: &str, child: &str) -> (r: bool)
    ensures
        r == path_ends_with(path@, child@),
{
    if !crate::text::ends_with(path, child) {
        return false;
    }
    let n = path.unicode_len();
    let m = child.unicode_len();
    if m == n || m == 0 {
        return true;
    }
    path.get_char(n - m - 1) == '/'
}

/// Copies each target.
fn clone_targets(v: &Vec<BreakpointTarget>) -> (r: Vec<BreakpointTarget>)
    ensures
        r@ == v@,
{
    let mut out: Vec<BreakpointTarget> = Vec::new();
    let n = v.len();
    let mut i: usize = 0;
    while i < n
        invariant
            n == v@.len(),
            i <= n,
            out@ == v@.take(i as int),
        decreases n - i,
    {
        let t = BreakpointTarget { file: v[i].file.clone(), relative_address: v[i].relative_address };
        out.push(t);
        assert(v@.take(i + 1) =~= v@.take(i as int).push(v@[i as int]));
        i = i + 1;
    }
    assert(v@.take(n as int) =~= v@);
    out
}

/// The targets whose file ends with `file_name`, by components.
pub open spec fn targets_in_file(targets: Seq<BreakpointTarget>, file_name: Seq<char>) -> Seq<BreakpointTarget>
    decreases targets.len(),
{
    if targets.len() == 0 {
        Seq::empty()
    } else if path_ends_with(targets.last().file@, file_name) {
        targets_in_file(targets.drop_last(), file_name).push(targets.last())
    } else {
        targets_in_file(targets.drop_last(), file_name)
    }
}

/// The targets whose file is exactly `file`.
pub open spec fn targets_of_file(targets: Seq<BreakpointTarget>, file: Seq<char>) -> Seq<BreakpointTarget>
    decreases targets.len(),
{
    if targets.len() == 0 {
        Seq::empty()
    } else if targets.last().file@ == file {
        targets_of_file(targets.drop_last(), file).push(targets.last())
    } else {
        targets_of_file(targets.drop_last(), file)
    }
}

impl DebugSession {
    /// A session for process `pid` that knows nothing about its binary yet.
    pub fn from_pid(pid: i32) -> (r: Self)
        ensures
            registry_counts(r.active_breakpoints@, r.breakpoint_index_tracker@, r.base_address),
            r.pid == pid,
            r.base_address == 0,
            r.breakpoint_index_tracker@.len() == 0,
            r.line_row@.len() == 0,
            r.line_index@.dom().is_empty(),
            r.active_breakpoints@.dom().is_empty(),
            r.interner.wf(),
            r.current_cmd is Idle,
            r.registers is None,
    {
        DebugSession {
            line_index: fx_new(),
            base_address: 0,
            breakpoint_index_tracker: Vec::new(),
            line_row: Vec::new(),
            file_declaration_order: fx_new(),
            interner: StringInterner::new(),
            source_file: SourceCodeCache::new(),
            metadata: DebuggerMetadataCache::empty(),
            current_cmd: CurrentStopCmd::Idle,
            raw_debug_frame: crate::dwarf::RawDebugFrame(Vec::new()),
            registers: None,
            active_breakpoints: fx_new(),
            pid,
            process_map: crate::sys::ProcessMemoryMap::from(Vec::new()),
        }
    }

    /// Removes the rows below the text section and sorts the rest by start
    /// address for binary search.
    pub fn set_up_line_row(&mut self)
        ensures
            final(self).line_row@.to_multiset() == rows_in_text(
                old(self).line_row@,
                old(self).metadata.text_address,
            ).to_multiset(),
            sorted_by_start(final(self).line_row@),
            forall|start: u64| #[trigger] starting_at(final(self).line_row@, start) == starting_at(
                rows_in_text(old(self).line_row@, old(self).metadata.text_address),
                start,
            ),
            final(self).metadata == old(self).metadata,
            final(self).base_address == old(self).base_address,
            final(self).current_cmd == old(self).current_cmd,
            final(self).active_breakpoints@ == old(self).active_breakpoints@,
            final(self).breakpoint_index_tracker@ == old(self).breakpoint_index_tracker@,
            final(self).line_index@ == old(self).line_index@,
            final(self).file_declaration_order@ == old(self).file_declaration_order@,
            final(self).interner == old(self).interner,
            final(self).source_file == old(self).source_file,
            final(self).raw_debug_frame == old(self).raw_debug_frame,
            final(self).registers == old(self).registers,
            final(self).pid == old(self).pid,
            final(self).process_map == old(self).process_map,
    {
        let text_address = self.metadata.text_address;
        let mut kept: Vec<LineRow> = Vec::new();
        let n = self.line_row.len();
        let mut i: usize = 0;
        while i < n
            invariant
                n == self.line_row@.len(),
                i <= n,
                kept@ == rows_in_text(self.line_row@.take(i as int), text_address),
            decreases n - i,
        {
            assert(self.line_row@.take(i + 1).drop_last() =~= self.line_row@.take(i as int));
            let row = self.line_row[i];
            if row.start_address >= text_address {
                kept.push(row);
            }
            i = i + 1;
        }
        assert(self.line_row@.take(n as int) =~= self.line_row@);
        sort_rows_by_start(&mut kept);
        self.line_row = kept;
    }

    /// The row of the line table that covers `current_pc`.
    pub fn find_line_range(&self, current_pc: u64) -> (r: Option<&LineRow>)
        requires
            sorted_by_start(self.line_row@),
        ensures
            match row_at(self.line_row@, current_pc) {
                Some(row) => r == Some(&row),
                None => r is None,
            },
    {
        let n = self.line_row.len();
        let mut lo: usize = 0;
        let mut hi: usize = n;
        while lo < hi
            invariant
                n == self.line_row@.len(),
                lo <= hi <= n,
                sorted_by_start(self.line_row@),
                forall|j: int| 0 <= j < lo ==> self.line_row@[j].start_address <= current_pc,
                forall|j: int| hi <= j < n ==> self.line_row@[j].start_address > current_pc,
            decreases hi - lo,
        {
            let mid = lo + (hi - lo) / 2;
            if self.line_row[mid].start_address <= current_pc {
                lo = mid + 1;
            } else {
                hi = mid;
            }
        }
        if lo == 0 {
            return None;
        }
        let idx = lo - 1;
        proof {
            let w = choose|i: int|
                0 <= i < self.line_row@.len() && self.line_row@[i].start_address <= current_pc
                    && forall|j: int|
                    i < j < self.line_row@.len() ==> self.line_row@[j].start_address > current_pc;
            assert(self.line_row@[idx as int].start_address <= current_pc);
            assert(w == idx as int) by {
                if w < idx {
                } else if w > idx {
                }
            }
        }
        let row = &self.line_row[idx];
        if current_pc < row.end_address {
            Some(row)
        } else {
            None
        }
    }

    /// The source location of a relative address.
    pub fn get_location_with_address(&self, relative_address: u64) -> (r: Option<&SourceLocation>)
        requires
            sorted_by_start(self.line_row@),
        ensures
            match row_at(self.line_row@, relative_address) {
                Some(row) => r == Some(&row.location),
                None => r is None,
            },
    {
        match self.find_line_range(relative_address) {
            Some(l) => Some(&l.location),
            None => None,
        }
    }

    /// The order in which the compiler emitted the lines of `file`.
    pub fn get_file_decl_order(&self, file: StringId) -> (r: Option<&Vec<u32>>)
        ensures
            match r {
                Some(v) => self.file_declaration_order@.contains_key(file.0) && *v
                    == self.file_declaration_order@[file.0],
                None => !self.file_declaration_order@.contains_key(file.0),
            },
    {
        fx_get(&self.file_declaration_order, &file.0)
    }

    /// The address relative to the load address.
    pub fn get_relative_address(&self, absolute_address: u64) -> (r: u64)
        requires
            absolute_address >= self.base_address,
        ensures
            r == absolute_address - self.base_address,
    {
        absolute_address - self.base_address
    }

    /// The machine address of a relative address.
    pub fn get_absolute_address(&self, relative_address: u64) -> (r: u64)
        ensures
            r == absolute(self.base_address, relative_address),
    {
        self.base_address.wrapping_add(relative_address)
    }

    /// The number of breakpoints the user has created (deleted ones included).
    pub fn current_index(&self) -> (r: usize)
        ensures
            r == self.breakpoint_index_tracker@.len(),
    {
        self.breakpoint_index_tracker.len()
    }

    /// The debuggee has not been started.
    pub fn is_idle(&self) -> (r: bool)
        ensures
            r == (self.current_cmd is Idle),
    {
        self.current_cmd.is_idle()
    }

    /// The debuggee runs freely until its next stop.
    pub fn toggle_running(&mut self)
        ensures
            final(self).current_cmd is Running,
            Self::same_program(final(self), old(self)),
            final(self).active_breakpoints@ == old(self).active_breakpoints@,
            final(self).breakpoint_index_tracker@ == old(self).breakpoint_index_tracker@,
    {
        self.current_cmd = CurrentStopCmd::Running;
    }

    /// The debuggee continues freely until its next stop.
    pub fn toggle_continue(&mut self)
        ensures
            final(self).current_cmd is Continuing,
            Self::same_program(final(self), old(self)),
            final(self).active_breakpoints@ == old(self).active_breakpoints@,
            final(self).breakpoint_index_tracker@ == old(self).breakpoint_index_tracker@,
    {
        self.current_cmd = CurrentStopCmd::Continuing;
    }

    /// Forgets the saved registers (the debuggee is about to move).
    pub fn invalidate_register(&mut self)
        ensures
            final(self).registers is None,
            Self::same_image(final(self), old(self)),
            final(self).active_breakpoints@ == old(self).active_breakpoints@,
            final(self).breakpoint_index_tracker@ == old(self).breakpoint_index_tracker@,
            final(self).current_cmd == old(self).current_cmd,
    {
        self.registers = None;
    }

    /// The addresses of line `line_number`, in every file.
    pub fn get_breakpoint_target(&self, line_number: u32) -> (r: Option<Vec<BreakpointTarget>>)
        ensures
            match r {
                Some(v) => self.line_index@.contains_key(line_number) && v@ == self.line_index@[line_number]@,
                None => !self.line_index@.contains_key(line_number),
            },
    {
        match fx_get(&self.line_index, &line_number) {
            Some(v) => Some(clone_targets(v)),
            None => None,
        }
    }

    /// The addresses of line `line_number` in files whose path ends with `file_name`.
    pub fn get_specific_breakpoint_target(&self, file_name: &str, line_number: u32) -> (r: Vec<
        BreakpointTarget,
    >)
        ensures
            self.line_index@.contains_key(line_number) ==> r@ == targets_in_file(
                self.line_index@[line_number]@,
                file_name@,
            ),
            !self.line_index@.contains_key(line_number) ==> r@.len() == 0,
    {
        let line_index = match fx_get(&self.line_index, &line_number) {
            Some(v) => v,
            None => return Vec::new(),
        };
        let mut out: Vec<BreakpointTarget> = Vec::new();
        let n = line_index.len();
        let mut i: usize = 0;
        while i < n
            invariant
                n == line_index@.len(),
                i <= n,
                out@ == targets_in_file(line_index@.take(i as int), file_name@),
            decreases n - i,
        {
            assert(line_index@.take(i + 1).drop_last() =~= line_index@.take(i as int));
            if path_ends_with_exec(line_index[i].file.as_str(), file_name) {
                out.push(BreakpointTarget {
                    file: line_index[i].file.clone(),
                    relative_address: line_index[i].relative_address,
                });
            }
            i = i + 1;
        }
        assert(line_index@.take(n as int) =~= line_index@);
        out
    }
}

} // verus!

verus! {

impl DebugSession {
    /// Everything but the breakpoints (the ones written into memory and the
    /// user's) and the current command is the same in `a` and `b`.
    pub open spec fn same_program(a: &DebugSession, b: &DebugSession) -> bool {
        &&& Self::same_image(a, b)
        &&& a.registers == b.registers
    }

    /// What `a` and `b` know of the debugged program (its line table, debug
    /// information, load address and process) is the same.
    pub open spec fn same_image(a: &DebugSession, b: &DebugSession) -> bool {
        &&& a.line_index@ == b.line_index@
        &&& a.base_address == b.base_address
        &&& a.line_row@ == b.line_row@
        &&& a.file_declaration_order@ == b.file_declaration_order@
        &&& a.interner == b.interner
        &&& a.source_file == b.source_file
        &&& a.metadata == b.metadata
        &&& a.raw_debug_frame == b.raw_debug_frame
        &&& a.pid == b.pid
    }

    /// One more user of the breakpoint at `relative_address`. Returns the
    /// machine address when no breakpoint was there yet: the caller arms it.
    pub fn create_specific_breakpoint(&mut self, relative_address: u64) -> (r: Option<u64>)
        ensures
            every_entry_used(old(self).active_breakpoints@) ==> every_entry_used(final(self).active_breakpoints@),
            registry_counts(old(self).active_breakpoints@, old(self).breakpoint_index_tracker@, old(self).base_address) ==> registry_counts(final(self).active_breakpoints@, final(self).breakpoint_index_tracker@, final(self).base_address),
            final(self).active_breakpoints@ == acquire_spec(
                old(self).active_breakpoints@,
                absolute(old(self).base_address, relative_address),
            ),
            old(self).active_breakpoints@.contains_key(
                absolute(old(self).base_address, relative_address),
            ) ==> r is None,
            !old(self).active_breakpoints@.contains_key(
                absolute(old(self).base_address, relative_address),
            ) ==> r == Some(absolute(old(self).base_address, relative_address)),
            Self::same_program(final(self), old(self)),
            final(self).breakpoint_index_tracker@ == old(self).breakpoint_index_tracker@,
            final(self).current_cmd == old(self).current_cmd,
    {
        proof {
            if every_entry_used(self.active_breakpoints@) {
                lemma_registry_keeps_used(self.active_breakpoints@, self.base_address);
            }
        }
        let absolute_address = self.get_absolute_address(relative_address);
        proof {
            if registry_counts(self.active_breakpoints@, self.breakpoint_index_tracker@, self.base_address) {
                lemma_acquire_keeps_counts(
                    self.active_breakpoints@,
                    self.breakpoint_index_tracker@,
                    self.base_address,
                    absolute_address,
                );
            }
        }
        if let Some(managed) = fx_get(&self.active_breakpoints, &absolute_address) {
            let mut updated = *managed;
            updated.ref_count = updated.ref_count.saturating_add(1);
            fx_insert(&mut self.active_breakpoints, absolute_address, updated);
            return None;
        }
        let breakpoint = BreakPoint::new(absolute_address);
        fx_insert(&mut self.active_breakpoints, absolute_address, ManagedBreakpoint::new(breakpoint));
        Some(absolute_address)
    }

    /// Arms the breakpoint at machine address `absolute_address` given the
    /// memory word there: saves the word's lowest byte and returns the word to
    /// write back, with INT3 in place of that byte. Nothing when no breakpoint
    /// is registered at the address.
    pub fn arm_breakpoint(&mut self, absolute_address: u64, word: i64) -> (r: Option<i64>)
        ensures
            every_entry_used(old(self).active_breakpoints@) ==> every_entry_used(final(self).active_breakpoints@),
            old(self).active_breakpoints@.contains_key(absolute_address) ==> {
                &&& r == Some(crate::breakpoint::patched_word(word))
                &&& final(self).active_breakpoints@ == old(self).active_breakpoints@.insert(
                    absolute_address,
                    ManagedBreakpoint {
                        breakpoint: BreakPoint {
                            original_byte: crate::breakpoint::low_byte(word),
                            is_enabled: true,
                            ..old(self).active_breakpoints@[absolute_address].breakpoint
                        },
                        ..old(self).active_breakpoints@[absolute_address]
                    },
                )
            },
            !old(self).active_breakpoints@.contains_key(absolute_address) ==> r is None
                && final(self).active_breakpoints@ == old(self).active_breakpoints@,
            Self::same_program(final(self), old(self)),
            final(self).breakpoint_index_tracker@ == old(self).breakpoint_index_tracker@,
            final(self).current_cmd == old(self).current_cmd,
    {
        if let Some(managed) = fx_get(&self.active_breakpoints, &absolute_address) {
            let mut updated = *managed;
            let patched = updated.breakpoint.enable(word);
            fx_insert(&mut self.active_breakpoints, absolute_address, updated);
            return Some(patched);
        }
        None
    }

    /// One user fewer of the breakpoint at `relative_address`. Returns the
    /// breakpoint when its last user is gone: it is no longer registered and
    /// the caller disarms it.
    pub fn clear_specific_breakpoint(&mut self, relative_address: u64) -> (r: Option<BreakPoint>)
        ensures
            every_entry_used(old(self).active_breakpoints@) ==> every_entry_used(final(self).active_breakpoints@),
            final(self).active_breakpoints@ == release_spec(
                old(self).active_breakpoints@,
                absolute(old(self).base_address, relative_address),
            ),
            ({
                let abs = absolute(old(self).base_address, relative_address);
                let m = old(self).active_breakpoints@;
                if m.contains_key(abs) && m[abs].ref_count <= 1 {
                    r == Some(m[abs].breakpoint)
                } else {
                    r is None
                }
            }),
            Self::same_program(final(self), old(self)),
            final(self).breakpoint_index_tracker@ == old(self).breakpoint_index_tracker@,
            final(self).current_cmd == old(self).current_cmd,
    {
        let absolute_address = self.get_absolute_address(relative_address);
        proof {
            let m = self.active_breakpoints@;
            let after = release_spec(m, absolute_address);
            if every_entry_used(m) {
                assert forall|a: u64| #[trigger] after.contains_key(a) implies after[a].ref_count >= 1 by {
                    assert(m.contains_key(a));
                }
            }
        }
        if let Some(managed) = fx_get(&self.active_breakpoints, &absolute_address) {
            let managed = *managed;
            if managed.ref_count > 1 {
                let mut updated = managed;
                updated.ref_count = managed.ref_count - 1;
                fx_insert(&mut self.active_breakpoints, absolute_address, updated);
                return None;
            }
            let _ = fx_remove(&mut self.active_breakpoints, &absolute_address);
            return Some(managed.breakpoint);
        }
        None
    }

    /// Acquires the address of each target in order; returns the machine
    /// addresses that got a new breakpoint, to be armed.
    fn acquire_targets(&mut self, targets: &Vec<BreakpointTarget>) -> (r: Vec<u64>)
        ensures
            final(self).active_breakpoints@ == acquire_all(
                old(self).active_breakpoints@,
                old(self).base_address,
                targets@,
            ),
            r@ == acquire_all_new(old(self).active_breakpoints@, old(self).base_address, targets@),
            Self::same_program(final(self), old(self)),
            final(self).breakpoint_index_tracker@ == old(self).breakpoint_index_tracker@,
            final(self).current_cmd == old(self).current_cmd,
    {
        let ghost m0 = self.active_breakpoints@;
        let mut fresh: Vec<u64> = Vec::new();
        let n = targets.len();
        let mut i: usize = 0;
        while i < n
            invariant
                n == targets@.len(),
                i <= n,
                self.active_breakpoints@ == acquire_all(m0, self.base_address, targets@.take(i as int)),
                fresh@ == acquire_all_new(m0, self.base_address, targets@.take(i as int)),
                Self::same_program(self, old(self)),
                self.breakpoint_index_tracker@ == old(self).breakpoint_index_tracker@,
                self.current_cmd == old(self).current_cmd,
                m0 == old(self).active_breakpoints@,
            decreases n - i,
        {
            assert(targets@.take(i + 1).drop_last() =~= targets@.take(i as int));
            if let Some(a) = self.create_specific_breakpoint(targets[i].relative_address) {
                fresh.push(a);
            }
            i = i + 1;
        }
        assert(targets@.take(n as int) =~= targets@);
        fresh
    }

    /// Releases the address of each target in order; returns the breakpoints
    /// whose last user is gone, to be disarmed.
    fn release_targets(&mut self, targets: &Vec<BreakpointTarget>) -> (r: Vec<BreakPoint>)
        ensures
            final(self).active_breakpoints@ == release_all(
                old(self).active_breakpoints@,
                old(self).base_address,
                targets@,
            ),
            r@ == release_all_removed(old(self).active_breakpoints@, old(self).base_address, targets@),
            Self::same_program(final(self), old(self)),
            final(self).breakpoint_index_tracker@ == old(self).breakpoint_index_tracker@,
            final(self).current_cmd == old(self).current_cmd,
    {
        let ghost m0 = self.active_breakpoints@;
        let mut gone: Vec<BreakPoint> = Vec::new();
        let n = targets.len();
        let mut i: usize = 0;
        while i < n
            invariant
                n == targets@.len(),
                i <= n,
                self.active_breakpoints@ == release_all(m0, self.base_address, targets@.take(i as int)),
                gone@ == release_all_removed(m0, self.base_address, targets@.take(i as int)),
                Self::same_program(self, old(self)),
                self.breakpoint_index_tracker@ == old(self).breakpoint_index_tracker@,
                self.current_cmd == old(self).current_cmd,
                m0 == old(self).active_breakpoints@,
            decreases n - i,
        {
            assert(targets@.take(i + 1).drop_last() =~= targets@.take(i as int));
            if let Some(b) = self.clear_specific_breakpoint(targets[i].relative_address) {
                gone.push(b);
            }
            i = i + 1;
        }
        assert(targets@.take(n as int) =~= targets@);
        gone
    }
}

/// The addresses that some of `targets` name.
pub open spec fn touched(base: u64, targets: Seq<BreakpointTarget>) -> Set<u64> {
    Set::new(|a: u64| uses(base, targets, a) > 0)
}

/// `m1` and `m2` hold the same entry at `a`, or neither holds one.
pub open spec fn same_at(m1: Map<u64, ManagedBreakpoint>, m2: Map<u64, ManagedBreakpoint>, a: u64) -> bool {
    &&& m1.contains_key(a) == m2.contains_key(a)
    &&& m1.contains_key(a) ==> m1[a] == m2[a]
}

/// `m1` and `m2` register a breakpoint at `a` with the same count, or neither does.
pub open spec fn same_count_at(m1: Map<u64, ManagedBreakpoint>, m2: Map<u64, ManagedBreakpoint>, a: u64) -> bool {
    &&& m1.contains_key(a) == m2.contains_key(a)
    &&& m1.contains_key(a) ==> m1[a].ref_count == m2[a].ref_count
}

proof fn lemma_counts_from_pointwise(m1: Map<u64, ManagedBreakpoint>, m2: Map<u64, ManagedBreakpoint>)
    requires
        forall|a: u64| #[trigger] same_at(m1, m2, a) || same_count_at(m1, m2, a),
    ensures
        ref_counts(m1) == ref_counts(m2),
{
    assert forall|a: u64| #[trigger] ref_counts(m1).contains_key(a) == ref_counts(m2).contains_key(a) by {
        assert(same_at(m1, m2, a) || same_count_at(m1, m2, a));
    }
    assert forall|a: u64| #[trigger] ref_counts(m1).contains_key(a) implies ref_counts(m1)[a] == ref_counts(m2)[a] by {
        assert(same_at(m1, m2, a) || same_count_at(m1, m2, a));
    }
    assert(ref_counts(m1) =~= ref_counts(m2));
}

/// Releasing the same targets from two registries that agree at `a` leaves
/// them agreeing at `a`.
proof fn lemma_release_all_pointwise(
    m1: Map<u64, ManagedBreakpoint>,
    m2: Map<u64, ManagedBreakpoint>,
    base: u64,
    targets: Seq<BreakpointTarget>,
    a: u64,
)
    requires
        same_at(m1, m2, a),
    ensures
        same_at(release_all(m1, base, targets), release_all(m2, base, targets), a),
    decreases targets.len(),
{
    if targets.len() > 0 {
        lemma_release_all_pointwise(m1, m2, base, targets.drop_last(), a);
    }
}

/// Acquiring the same targets in two registries that agree at `a` leaves
/// them agreeing at `a`.
proof fn lemma_acquire_all_pointwise(
    m1: Map<u64, ManagedBreakpoint>,
    m2: Map<u64, ManagedBreakpoint>,
    base: u64,
    targets: Seq<BreakpointTarget>,
    a: u64,
)
    requires
        same_at(m1, m2, a),
    ensures
        same_at(acquire_all(m1, base, targets), acquire_all(m2, base, targets), a),
    decreases targets.len(),
{
    if targets.len() > 0 {
        lemma_acquire_all_pointwise(m1, m2, base, targets.drop_last(), a);
    }
}

/// Releasing targets leaves an address that none of them names as it was.
proof fn lemma_release_all_untouched(m: Map<u64, ManagedBreakpoint>, base: u64, targets: Seq<BreakpointTarget>, a: u64)
    requires
        !touched(base, targets).contains(a),
    ensures
        same_at(release_all(m, base, targets), m, a),
    decreases targets.len(),
{
    if targets.len() > 0 {
        lemma_uses_nonnegative(base, targets.drop_last(), a);
        assert(!touched(base, targets.drop_last()).contains(a));
        lemma_release_all_untouched(m, base, targets.drop_last(), a);
    }
}

/// Acquiring targets leaves an address that none of them names as it was.
proof fn lemma_acquire_all_untouched(m: Map<u64, ManagedBreakpoint>, base: u64, targets: Seq<BreakpointTarget>, a: u64)
    requires
        !touched(base, targets).contains(a),
    ensures
        same_at(acquire_all(m, base, targets), m, a),
    decreases targets.len(),
{
    if targets.len() > 0 {
        lemma_uses_nonnegative(base, targets.drop_last(), a);
        assert(!touched(base, targets.drop_last()).contains(a));
        lemma_acquire_all_untouched(m, base, targets.drop_last(), a);
    }
}

/// Asking for a breakpoint and giving it up again leaves the registered
/// breakpoints as they were (short of a reference count at its maximum).
pub proof fn law_acquire_then_release(m: Map<u64, ManagedBreakpoint>, abs: u64)
    requires
        m.contains_key(abs) ==> 1 <= m[abs].ref_count < usize::MAX,
    ensures
        release_spec(acquire_spec(m, abs), abs) == m,
{
    if m.contains_key(abs) {
        assert(release_spec(acquire_spec(m, abs), abs) =~= m);
    } else {
        assert(release_spec(acquire_spec(m, abs), abs) =~= m);
    }
}

/// How many users the breakpoint at machine address `a` has (0 where none
/// is registered).
pub open spec fn users(m: Map<u64, ManagedBreakpoint>, a: u64) -> int {
    if m.contains_key(a) {
        m[a].ref_count as int
    } else {
        0
    }
}

/// How many of `targets` are at machine address `a`.
pub open spec fn uses(base: u64, targets: Seq<BreakpointTarget>, a: u64) -> int
    decreases targets.len(),
{
    if targets.len() == 0 {
        0
    } else {
        uses(base, targets.drop_last(), a) + if absolute(base, targets.last().relative_address) == a {
            1int
        } else {
            0int
        }
    }
}

/// Every registered breakpoint has at least one user. A new session starts
/// so and every operation on the registry keeps it (each says so in its
/// contract).
pub open spec fn every_entry_used(m: Map<u64, ManagedBreakpoint>) -> bool {
    forall|a: u64| #[trigger] m.contains_key(a) ==> m[a].ref_count >= 1
}

proof fn lemma_uses_nonnegative(base: u64, targets: Seq<BreakpointTarget>, a: u64)
    ensures
        uses(base, targets, a) >= 0,
    decreases targets.len(),
{
    if targets.len() > 0 {
        lemma_uses_nonnegative(base, targets.drop_last(), a);
    }
}

/// One more user of an address never leaves a registered breakpoint without
/// a user.
proof fn lemma_acquire_keeps_used(m: Map<u64, ManagedBreakpoint>, abs: u64)
    requires
        every_entry_used(m),
    ensures
        every_entry_used(acquire_spec(m, abs)),
{
    let after = acquire_spec(m, abs);
    assert forall|a: u64| #[trigger] after.contains_key(a) implies after[a].ref_count >= 1 by {
        if a != abs {
            assert(m.contains_key(a));
        }
    }
}

/// One user fewer of an address never leaves a registered breakpoint without
/// a user.
proof fn lemma_release_keeps_used(m: Map<u64, ManagedBreakpoint>, abs: u64)
    requires
        every_entry_used(m),
    ensures
        every_entry_used(release_spec(m, abs)),
{
    let after = release_spec(m, abs);
    assert forall|a: u64| #[trigger] after.contains_key(a) implies after[a].ref_count >= 1 by {
        assert(m.contains_key(a));
    }
}

/// Acquiring addresses in turn never leaves a registered breakpoint without
/// a user.
proof fn lemma_acquire_all_keeps_used(m: Map<u64, ManagedBreakpoint>, base: u64, targets: Seq<BreakpointTarget>)
    requires
        every_entry_used(m),
    ensures
        every_entry_used(acquire_all(m, base, targets)),
    decreases targets.len(),
{
    if targets.len() > 0 {
        lemma_acquire_all_keeps_used(m, base, targets.drop_last());
        lemma_acquire_keeps_used(acquire_all(m, base, targets.drop_last()), absolute(base, targets.last().relative_address));
    }
}

/// Every operation on the registry keeps every registered breakpoint in use.
pub proof fn lemma_registry_keeps_used(m: Map<u64, ManagedBreakpoint>, base: u64)
    requires
        every_entry_used(m),
    ensures
        forall|abs: u64| every_entry_used(#[trigger] acquire_spec(m, abs)),
        forall|abs: u64| every_entry_used(#[trigger] release_spec(m, abs)),
        forall|t: Seq<BreakpointTarget>| every_entry_used(#[trigger] acquire_all(m, base, t)),
        forall|t: Seq<BreakpointTarget>| every_entry_used(#[trigger] release_all(m, base, t)),
{
    assert forall|abs: u64| every_entry_used(#[trigger] acquire_spec(m, abs)) by {
        lemma_acquire_keeps_used(m, abs);
    }
    assert forall|abs: u64| every_entry_used(#[trigger] release_spec(m, abs)) by {
        lemma_release_keeps_used(m, abs);
    }
    assert forall|t: Seq<BreakpointTarget>| every_entry_used(#[trigger] acquire_all(m, base, t)) by {
        lemma_acquire_all_keeps_used(m, base, t);
    }
    assert forall|t: Seq<BreakpointTarget>| every_entry_used(#[trigger] release_all(m, base, t)) by {
        lemma_release_all_keeps_used(m, base, t);
    }
}

/// Releasing addresses in turn never leaves a registered breakpoint without
/// a user.
proof fn lemma_release_all_keeps_used(m: Map<u64, ManagedBreakpoint>, base: u64, targets: Seq<BreakpointTarget>)
    requires
        every_entry_used(m),
    ensures
        every_entry_used(release_all(m, base, targets)),
    decreases targets.len(),
{
    if targets.len() > 0 {
        lemma_release_all_keeps_used(m, base, targets.drop_last());
        let before = release_all(m, base, targets.drop_last());
        let after = release_spec(before, absolute(base, targets.last().relative_address));
        assert forall|a: u64| #[trigger] after.contains_key(a) implies after[a].ref_count >= 1 by {
            assert(before.contains_key(a));
        }
    }
}

/// Releasing the targets takes from each address as many users as there are
/// targets at it.
proof fn lemma_release_all_users(m: Map<u64, ManagedBreakpoint>, base: u64, targets: Seq<BreakpointTarget>)
    requires
        every_entry_used(m),
        forall|a: u64| uses(base, targets, a) <= #[trigger] users(m, a),
    ensures
        every_entry_used(release_all(m, base, targets)),
        forall|a: u64| #[trigger] users(release_all(m, base, targets), a) == users(m, a) - uses(base, targets, a),
    decreases targets.len(),
{
    if targets.len() > 0 {
        let rest = targets.drop_last();
        assert forall|a: u64| uses(base, rest, a) <= #[trigger] users(m, a) by {
            assert(uses(base, targets, a) >= uses(base, rest, a));
        }
        lemma_release_all_users(m, base, rest);
        let before = release_all(m, base, rest);
        let b = absolute(base, targets.last().relative_address);
        assert(users(before, b) >= 1) by {
            lemma_uses_nonnegative(base, rest, b);
            assert(uses(base, targets, b) == uses(base, rest, b) + 1);
            assert(users(m, b) >= uses(base, targets, b));
        }
        let after = release_spec(before, b);
        assert forall|a: u64| #[trigger] after.contains_key(a) implies after[a].ref_count >= 1 by {
            assert(before.contains_key(a));
        }
        assert forall|a: u64| #[trigger] users(after, a) == users(m, a) - uses(base, targets, a) by {
            assert(users(before, a) == users(m, a) - uses(base, rest, a));
        }
    }
}

/// Acquiring the targets gives each address as many more users as there are
/// targets at it, short of a count at its maximum.
proof fn lemma_acquire_all_users(m: Map<u64, ManagedBreakpoint>, base: u64, targets: Seq<BreakpointTarget>)
    requires
        every_entry_used(m),
        forall|a: u64| #[trigger] users(m, a) + uses(base, targets, a) <= usize::MAX,
    ensures
        every_entry_used(acquire_all(m, base, targets)),
        forall|a: u64| #[trigger] users(acquire_all(m, base, targets), a) == users(m, a) + uses(base, targets, a),
    decreases targets.len(),
{
    if targets.len() > 0 {
        let rest = targets.drop_last();
        assert forall|a: u64| #[trigger] users(m, a) + uses(base, rest, a) <= usize::MAX by {
            assert(uses(base, targets, a) >= uses(base, rest, a));
        }
        lemma_acquire_all_users(m, base, rest);
        let before = acquire_all(m, base, rest);
        let b = absolute(base, targets.last().relative_address);
        assert(users(before, b) < usize::MAX) by {
            assert(uses(base, targets, b) == uses(base, rest, b) + 1);
            assert(users(m, b) + uses(base, targets, b) <= usize::MAX);
        }
        let after = acquire_spec(before, b);
        assert forall|a: u64| #[trigger] after.contains_key(a) implies after[a].ref_count >= 1 by {
            if a != b {
                assert(before.contains_key(a));
            }
        }
        assert forall|a: u64| #[trigger] users(after, a) == users(m, a) + uses(base, targets, a) by {
            assert(users(before, a) == users(m, a) + uses(base, rest, a));
        }
    }
}

/// Two registries where every entry has a user and every address has the
/// same number of users hold the same reference counts.
proof fn lemma_same_users(m1: Map<u64, ManagedBreakpoint>, m2: Map<u64, ManagedBreakpoint>)
    requires
        every_entry_used(m1),
        every_entry_used(m2),
        forall|a: u64| #[trigger] users(m1, a) == users(m2, a),
    ensures
        ref_counts(m1) == ref_counts(m2),
{
    let c1 = ref_counts(m1);
    let c2 = ref_counts(m2);
    assert forall|a: u64| #[trigger] c1.contains_key(a) == c2.contains_key(a) by {
        assert(users(m1, a) == users(m2, a));
        if m1.contains_key(a) {
            assert(m1[a].ref_count >= 1);
        }
        if m2.contains_key(a) {
            assert(m2[a].ref_count >= 1);
        }
    }
    assert forall|a: u64| #[trigger] c1.contains_key(a) implies c1[a] == c2[a] by {
        assert(users(m1, a) == users(m2, a));
        assert(c2.contains_key(a));
    }
    assert(c1 =~= c2);
}

/// What a user breakpoint adds to the users of address `a`: its targets at
/// `a` while it is enabled.
pub open spec fn entry_uses(e: Option<BreakpointData>, base: u64, a: u64) -> int {
    match e {
        Some(d) => if d.enabled {
            uses(base, d.target@, a)
        } else {
            0
        },
        None => 0,
    }
}

/// How many targets of the enabled user breakpoints are at address `a`.
pub open spec fn enabled_uses(t: Seq<Option<BreakpointData>>, base: u64, a: u64) -> int
    decreases t.len(),
{
    if t.len() == 0 {
        0
    } else {
        enabled_uses(t.drop_last(), base, a) + entry_uses(t.last(), base, a)
    }
}

/// The registry of written breakpoints counts the user breakpoints: every
/// registered address has a user, and every address has at least as many
/// users as the enabled user breakpoints have targets there (temporary
/// breakpoints of the stepping commands add more).
pub open spec fn registry_counts(m: Map<u64, ManagedBreakpoint>, t: Seq<Option<BreakpointData>>, base: u64) -> bool {
    &&& every_entry_used(m)
    &&& forall|a: u64| enabled_uses(t, base, a) <= #[trigger] users(m, a)
}

proof fn lemma_entry_uses_nonnegative(e: Option<BreakpointData>, base: u64, a: u64)
    ensures
        entry_uses(e, base, a) >= 0,
{
    if let Some(d) = e {
        lemma_uses_nonnegative(base, d.target@, a);
    }
}

proof fn lemma_enabled_uses_nonnegative(t: Seq<Option<BreakpointData>>, base: u64, a: u64)
    ensures
        enabled_uses(t, base, a) >= 0,
    decreases t.len(),
{
    if t.len() > 0 {
        lemma_enabled_uses_nonnegative(t.drop_last(), base, a);
        lemma_entry_uses_nonnegative(t.last(), base, a);
    }
}

/// Replacing one user breakpoint changes the count by what it adds.
proof fn lemma_enabled_uses_update(t: Seq<Option<BreakpointData>>, base: u64, i: int, x: Option<BreakpointData>, a: u64)
    requires
        0 <= i < t.len(),
    ensures
        enabled_uses(t.update(i, x), base, a) == enabled_uses(t, base, a) - entry_uses(t[i], base, a) + entry_uses(
            x,
            base,
            a,
        ),
    decreases t.len(),
{
    let u = t.update(i, x);
    if i == t.len() - 1 {
        assert(u.drop_last() =~= t.drop_last());
    } else {
        lemma_enabled_uses_update(t.drop_last(), base, i, x, a);
        assert(u.drop_last() =~= t.drop_last().update(i, x));
    }
}

/// Adding a user breakpoint adds what it adds.
proof fn lemma_enabled_uses_push(t: Seq<Option<BreakpointData>>, base: u64, x: Option<BreakpointData>, a: u64)
    ensures
        enabled_uses(t.push(x), base, a) == enabled_uses(t, base, a) + entry_uses(x, base, a),
{
    assert(t.push(x).drop_last() =~= t);
}

/// Each user breakpoint is among those counted.
proof fn lemma_entry_counted(t: Seq<Option<BreakpointData>>, base: u64, i: int, a: u64)
    requires
        0 <= i < t.len(),
    ensures
        entry_uses(t[i], base, a) <= enabled_uses(t, base, a),
{
    lemma_enabled_uses_update(t, base, i, None, a);
    lemma_enabled_uses_nonnegative(t.update(i, None), base, a);
}

/// Disabling an enabled user breakpoint keeps the registry counting.
proof fn lemma_disable_keeps_counts(m: Map<u64, ManagedBreakpoint>, t: Seq<Option<BreakpointData>>, base: u64, i: int, e: BreakpointData)
    requires
        registry_counts(m, t, base),
        0 <= i < t.len(),
        t[i] matches Some(d) && d.enabled && d.target@ == e.target@,
        !e.enabled,
    ensures
        registry_counts(release_all(m, base, t[i]->Some_0.target@), t.update(i, Some(e)), base),
{
    let targets = t[i]->Some_0.target@;
    assert forall|a: u64| uses(base, targets, a) <= #[trigger] users(m, a) by {
        lemma_entry_counted(t, base, i, a);
    }
    lemma_release_all_users(m, base, targets);
    assert forall|a: u64|
        enabled_uses(t.update(i, Some(e)), base, a) <= #[trigger] users(release_all(m, base, targets), a) by {
        lemma_enabled_uses_update(t, base, i, Some(e), a);
    }
}

/// Deleting an enabled user breakpoint keeps the registry counting.
proof fn lemma_delete_keeps_counts(m: Map<u64, ManagedBreakpoint>, t: Seq<Option<BreakpointData>>, base: u64, i: int)
    requires
        registry_counts(m, t, base),
        0 <= i < t.len(),
        t[i] matches Some(d) && d.enabled,
    ensures
        registry_counts(release_all(m, base, t[i]->Some_0.target@), t.update(i, None), base),
{
    let targets = t[i]->Some_0.target@;
    assert forall|a: u64| uses(base, targets, a) <= #[trigger] users(m, a) by {
        lemma_entry_counted(t, base, i, a);
    }
    lemma_release_all_users(m, base, targets);
    assert forall|a: u64|
        enabled_uses(t.update(i, None), base, a) <= #[trigger] users(release_all(m, base, targets), a) by {
        lemma_enabled_uses_update(t, base, i, None, a);
    }
}

/// Creating an enabled user breakpoint keeps the registry counting, short of
/// a count at its maximum.
proof fn lemma_create_keeps_counts(m: Map<u64, ManagedBreakpoint>, t: Seq<Option<BreakpointData>>, base: u64, d: BreakpointData)
    requires
        registry_counts(m, t, base),
        d.enabled,
        forall|a: u64| #[trigger] users(m, a) + uses(base, d.target@, a) <= usize::MAX,
    ensures
        registry_counts(acquire_all(m, base, d.target@), t.push(Some(d)), base),
{
    lemma_acquire_all_users(m, base, d.target@);
    assert forall|a: u64|
        enabled_uses(t.push(Some(d)), base, a) <= #[trigger] users(acquire_all(m, base, d.target@), a) by {
        lemma_enabled_uses_push(t, base, Some(d), a);
    }
}

/// One more user of an address keeps the registry counting.
proof fn lemma_acquire_keeps_counts(m: Map<u64, ManagedBreakpoint>, t: Seq<Option<BreakpointData>>, base: u64, abs: u64)
    requires
        registry_counts(m, t, base),
    ensures
        registry_counts(acquire_spec(m, abs), t, base),
{
    let n = acquire_spec(m, abs);
    assert forall|a: u64| #[trigger] n.contains_key(a) implies n[a].ref_count >= 1 by {
        if a != abs {
            assert(m.contains_key(a));
        }
    }
    assert forall|a: u64| enabled_uses(t, base, a) <= #[trigger] users(n, a) by {
        assert(enabled_uses(t, base, a) <= users(m, a));
        lemma_enabled_uses_nonnegative(t, base, a);
    }
}

/// Enabling a disabled user breakpoint keeps the registry counting, short of
/// a count at its maximum.
proof fn lemma_enable_keeps_counts(m: Map<u64, ManagedBreakpoint>, t: Seq<Option<BreakpointData>>, base: u64, i: int, e: BreakpointData)
    requires
        registry_counts(m, t, base),
        0 <= i < t.len(),
        t[i] matches Some(d) && !d.enabled && d.target@ == e.target@,
        e.enabled,
        forall|a: u64| #[trigger] users(m, a) + uses(base, e.target@, a) <= usize::MAX,
    ensures
        registry_counts(acquire_all(m, base, e.target@), t.update(i, Some(e)), base),
{
    lemma_acquire_all_users(m, base, e.target@);
    assert forall|a: u64|
        enabled_uses(t.update(i, Some(e)), base, a) <= #[trigger] users(acquire_all(m, base, e.target@), a) by {
        lemma_enabled_uses_update(t, base, i, Some(e), a);
    }
}

/// Disabling a user breakpoint and enabling it again gives every address
/// back the users it had, so the same addresses stay patched, wherever the
/// breakpoint's own addresses have at least as many users as it has targets
/// there (as they do in every registry the session keeps).
pub proof fn law_disable_then_enable_restores_users(
    m: Map<u64, ManagedBreakpoint>,
    tracker: Seq<Option<BreakpointData>>,
    base: u64,
    index: int,
)
    requires
        0 <= index < tracker.len(),
        tracker[index] matches Some(d) && d.enabled,
        forall|a: u64| uses(base, tracker[index]->Some_0.target@, a) <= #[trigger] users(m, a),
    ensures
        ref_counts(
            acquire_all(
                release_all(m, base, tracker[index]->Some_0.target@),
                base,
                tracker[index]->Some_0.target@,
            ),
        ) == ref_counts(m),
{
    let targets = tracker[index]->Some_0.target@;
    let mt = m.restrict(touched(base, targets));
    assert forall|a: u64| #[trigger] mt.contains_key(a) implies mt[a].ref_count >= 1 by {
        assert(uses(base, targets, a) <= users(m, a));
    }
    assert forall|a: u64| uses(base, targets, a) <= #[trigger] users(mt, a) by {
        lemma_uses_nonnegative(base, targets, a);
        assert(uses(base, targets, a) <= users(m, a));
    }
    lemma_release_then_acquire(mt, base, targets);
    let f = acquire_all(release_all(m, base, targets), base, targets);
    let ft = acquire_all(release_all(mt, base, targets), base, targets);
    assert forall|a: u64| #[trigger] same_at(f, m, a) || (touched(base, targets).contains(a) && same_count_at(f, m, a)) by {
        if touched(base, targets).contains(a) {
            assert(same_at(m, mt, a));
            lemma_release_all_pointwise(m, mt, base, targets, a);
            lemma_acquire_all_pointwise(release_all(m, base, targets), release_all(mt, base, targets), base, targets, a);
            assert(ref_counts(ft).contains_key(a) == ref_counts(mt).contains_key(a));
            if mt.contains_key(a) {
                assert(ref_counts(ft)[a] == ref_counts(mt)[a]);
            }
        } else {
            lemma_release_all_untouched(m, base, targets, a);
            lemma_acquire_all_untouched(release_all(m, base, targets), base, targets, a);
        }
    }
    lemma_counts_from_pointwise(f, m);
}

proof fn lemma_release_then_acquire(
    m: Map<u64, ManagedBreakpoint>,
    base: u64,
    targets: Seq<BreakpointTarget>,
)
    requires
        every_entry_used(m),
        forall|a: u64| uses(base, targets, a) <= #[trigger] users(m, a),
    ensures
        ref_counts(acquire_all(release_all(m, base, targets), base, targets)) == ref_counts(m),
{
    lemma_release_all_users(m, base, targets);
    let r = release_all(m, base, targets);
    assert forall|a: u64| #[trigger] users(r, a) + uses(base, targets, a) <= usize::MAX by {
        assert(users(r, a) == users(m, a) - uses(base, targets, a));
        if m.contains_key(a) {
        }
    }
    lemma_acquire_all_users(r, base, targets);
    let f = acquire_all(r, base, targets);
    assert forall|a: u64| #[trigger] users(f, a) == users(m, a) by {
        assert(users(f, a) == users(r, a) + uses(base, targets, a));
        assert(users(r, a) == users(m, a) - uses(base, targets, a));
    }
    lemma_same_users(f, m);
}

/// Creating a breakpoint and deleting it again leaves every address with the
/// users it had, so no address stays patched for it, wherever each of its
/// addresses that is registered has a user (short of a count at its maximum).
pub proof fn law_create_then_delete_restores_users(
    m: Map<u64, ManagedBreakpoint>,
    base: u64,
    targets: Seq<BreakpointTarget>,
)
    requires
        forall|a: u64| #[trigger] touched(base, targets).contains(a) && m.contains_key(a) ==> m[a].ref_count >= 1,
        forall|a: u64| #[trigger] users(m, a) + uses(base, targets, a) <= usize::MAX,
    ensures
        ref_counts(release_all(acquire_all(m, base, targets), base, targets)) == ref_counts(m),
{
    let mt = m.restrict(touched(base, targets));
    assert forall|a: u64| #[trigger] users(mt, a) + uses(base, targets, a) <= usize::MAX by {
        assert(users(m, a) + uses(base, targets, a) <= usize::MAX);
    }
    assert forall|a: u64| #[trigger] mt.contains_key(a) implies mt[a].ref_count >= 1 by {
        assert(touched(base, targets).contains(a) && m.contains_key(a));
    }
    lemma_acquire_then_release_all(mt, base, targets);
    let f = release_all(acquire_all(m, base, targets), base, targets);
    let ft = release_all(acquire_all(mt, base, targets), base, targets);
    assert forall|a: u64| #[trigger] same_at(f, m, a) || (touched(base, targets).contains(a) && same_count_at(f, m, a)) by {
        if touched(base, targets).contains(a) {
            assert(same_at(m, mt, a));
            lemma_acquire_all_pointwise(m, mt, base, targets, a);
            lemma_release_all_pointwise(acquire_all(m, base, targets), acquire_all(mt, base, targets), base, targets, a);
            assert(ref_counts(ft).contains_key(a) == ref_counts(mt).contains_key(a));
            if mt.contains_key(a) {
                assert(ref_counts(ft)[a] == ref_counts(mt)[a]);
            }
        } else {
            lemma_acquire_all_untouched(m, base, targets, a);
            lemma_release_all_untouched(acquire_all(m, base, targets), base, targets, a);
        }
    }
    lemma_counts_from_pointwise(f, m);
}

/// Acquiring the targets and releasing them again, in a registry where every
/// entry has a user, gives back the reference counts.
proof fn lemma_acquire_then_release_all(m: Map<u64, ManagedBreakpoint>, base: u64, targets: Seq<BreakpointTarget>)
    requires
        every_entry_used(m),
        forall|a: u64| #[trigger] users(m, a) + uses(base, targets, a) <= usize::MAX,
    ensures
        ref_counts(release_all(acquire_all(m, base, targets), base, targets)) == ref_counts(m),
{
    lemma_acquire_all_users(m, base, targets);
    let q = acquire_all(m, base, targets);
    assert forall|a: u64| uses(base, targets, a) <= #[trigger] users(q, a) by {
        assert(users(q, a) == users(m, a) + uses(base, targets, a));
        if m.contains_key(a) {
        }
    }
    lemma_release_all_users(q, base, targets);
    let f = release_all(q, base, targets);
    assert forall|a: u64| #[trigger] users(f, a) == users(m, a) by {
        assert(users(f, a) == users(q, a) - uses(base, targets, a));
        assert(users(q, a) == users(m, a) + uses(base, targets, a));
    }
    lemma_same_users(f, m);
}

} // verus!

verus! {

/// Whether `clear <line>` or `clear <file>:<line>` removes the user breakpoint `d`:
/// the line matches and, when a file is given, the breakpoint's path ends with it.
pub open spec fn clear_matches(d: BreakpointData, line: u32, file: Option<Seq<char>>) -> bool {
    d.line == line && match file {
        None => true,
        Some(f) => crate::text::is_suffix(f, d.file@),
    }
}

/// The positions (counted from 1) of the breakpoints that a clear removes.
pub open spec fn cleared_positions(t: Seq<Option<BreakpointData>>, line: u32, file: Option<Seq<char>>) -> Seq<usize>
    decreases t.len(),
{
    if t.len() == 0 {
        Seq::empty()
    } else {
        let rest = cleared_positions(t.drop_last(), line, file);
        match t.last() {
            Some(d) => if clear_matches(d, line, file) {
                rest.push(t.len() as usize)
            } else {
                rest
            },
            None => rest,
        }
    }
}

/// The targets of the breakpoints that a clear removes, one breakpoint after another.
pub open spec fn cleared_targets(t: Seq<Option<BreakpointData>>, line: u32, file: Option<Seq<char>>) -> Seq<BreakpointTarget>
    decreases t.len(),
{
    if t.len() == 0 {
        Seq::empty()
    } else {
        let rest = cleared_targets(t.drop_last(), line, file);
        match t.last() {
            Some(d) => if clear_matches(d, line, file) {
                rest + d.target@
            } else {
                rest
            },
            None => rest,
        }
    }
}

/// The user's breakpoints after a clear: the removed ones become `None`.
pub open spec fn after_clear(t: Seq<Option<BreakpointData>>, line: u32, file: Option<Seq<char>>) -> Seq<Option<BreakpointData>> {
    Seq::new(
        t.len(),
        |i: int|
            match t[i] {
                Some(d) => if clear_matches(d, line, file) {
                    None
                } else {
                    t[i]
                },
                None => None,
            },
    )
}

proof fn lemma_release_all_append(m: Map<u64, ManagedBreakpoint>, base: u64, a: Seq<BreakpointTarget>, b: Seq<BreakpointTarget>)
    ensures
        release_all(m, base, a + b) == release_all(release_all(m, base, a), base, b),
        release_all_removed(m, base, a + b) == release_all_removed(m, base, a) + release_all_removed(
            release_all(m, base, a),
            base,
            b,
        ),
    decreases b.len(),
{
    if b.len() == 0 {
        assert(a + b =~= a);
        assert(release_all_removed(m, base, a) + Seq::<BreakPoint>::empty() =~= release_all_removed(m, base, a));
    } else {
        lemma_release_all_append(m, base, a, b.drop_last());
        assert((a + b).drop_last() =~= a + b.drop_last());
        assert((a + b).last() == b.last());
        let x = release_all_removed(m, base, a);
        let y = release_all_removed(release_all(m, base, a), base, b.drop_last());
        assert(forall|e: BreakPoint| (x + y).push(e) =~= x + y.push(e));
    }
}

impl DebugSession {
    /// Turns the user's breakpoint at position `index` (counted from 0) back on:
    /// every one of its addresses gets one more reference. Returns the machine
    /// addresses to arm.
    pub fn enable_breakpoint(&mut self, index: usize) -> (r: (BreakpointMutationResult, Vec<u64>))
        requires
            index < old(self).breakpoint_index_tracker@.len(),
        ensures
            every_entry_used(old(self).active_breakpoints@) ==> every_entry_used(final(self).active_breakpoints@),
            registry_counts(old(self).active_breakpoints@, old(self).breakpoint_index_tracker@, old(self).base_address) && (forall|a: u64|
                #[trigger] users(old(self).active_breakpoints@, a) + entry_uses(
                    final(self).breakpoint_index_tracker@[index as int],
                    old(self).base_address,
                    a,
                ) <= usize::MAX) ==> registry_counts(final(self).active_breakpoints@, final(self).breakpoint_index_tracker@, final(self).base_address),
            Self::same_program(final(self), old(self)),
            final(self).current_cmd == old(self).current_cmd,
            final(self).breakpoint_index_tracker@.len() == old(self).breakpoint_index_tracker@.len(),
            forall|j: int| 0 <= j < old(self).breakpoint_index_tracker@.len() && j != index
                ==> final(self).breakpoint_index_tracker@[j] == old(self).breakpoint_index_tracker@[j],
            match old(self).breakpoint_index_tracker@[index as int] {
                None => r.0 is NotFound && r.1@.len() == 0
                    && final(self).breakpoint_index_tracker@ == old(self).breakpoint_index_tracker@
                    && final(self).active_breakpoints@ == old(self).active_breakpoints@,
                Some(d) => if d.enabled {
                    r.0 is AlreadyInState && r.1@.len() == 0
                        && final(self).breakpoint_index_tracker@ == old(self).breakpoint_index_tracker@
                        && final(self).active_breakpoints@ == old(self).active_breakpoints@
                } else {
                    &&& r.0 is Updated
                    &&& final(self).active_breakpoints@ == acquire_all(
                        old(self).active_breakpoints@,
                        old(self).base_address,
                        d.target@,
                    )
                    &&& r.1@ == acquire_all_new(
                        old(self).active_breakpoints@,
                        old(self).base_address,
                        d.target@,
                    )
                    &&& final(self).breakpoint_index_tracker@[index as int] matches Some(e)
                    &&& e.enabled && e.target@ == d.target@ && e.line == d.line && e.file@ == d.file@
                },
            },
    {
        proof {
            if every_entry_used(self.active_breakpoints@) {
                lemma_registry_keeps_used(self.active_breakpoints@, self.base_address);
            }
        }
        let entry = self.breakpoint_index_tracker.remove(index);
        match entry {
            None => {
                self.breakpoint_index_tracker.insert(index, None);
                assert(self.breakpoint_index_tracker@ =~= old(self).breakpoint_index_tracker@);
                (BreakpointMutationResult::NotFound, Vec::new())
            },
            Some(mut data) => {
                if data.enabled {
                    self.breakpoint_index_tracker.insert(index, Some(data));
                    assert(self.breakpoint_index_tracker@ =~= old(self).breakpoint_index_tracker@);
                    return (BreakpointMutationResult::AlreadyInState, Vec::new());
                }
                let ghost mid = self.breakpoint_index_tracker@;
                let arm = self.acquire_targets(&data.target);
                data.enabled = true;
                self.breakpoint_index_tracker.insert(index, Some(data));
                proof {
                    assert(self.breakpoint_index_tracker@ =~= old(self).breakpoint_index_tracker@.update(
                        index as int,
                        Some(data),
                    ));
                    if registry_counts(
                        old(self).active_breakpoints@,
                        old(self).breakpoint_index_tracker@,
                        old(self).base_address,
                    ) && (forall|a: u64|
                        #[trigger] users(old(self).active_breakpoints@, a) + entry_uses(
                            Some(data),
                            old(self).base_address,
                            a,
                        ) <= usize::MAX) {
                        lemma_enable_keeps_counts(
                            old(self).active_breakpoints@,
                            old(self).breakpoint_index_tracker@,
                            old(self).base_address,
                            index as int,
                            data,
                        );
                    }
                }
                (BreakpointMutationResult::Updated, arm)
            },
        }
    }

    /// Turns the user's breakpoint at position `index` off: every one of its
    /// addresses loses a reference. Returns the breakpoints to disarm.
    pub fn disable_breakpoint(&mut self, index: usize) -> (r: (BreakpointMutationResult, Vec<BreakPoint>))
        requires
            index < old(self).breakpoint_index_tracker@.len(),
        ensures
            every_entry_used(old(self).active_breakpoints@) ==> every_entry_used(final(self).active_breakpoints@),
            registry_counts(old(self).active_breakpoints@, old(self).breakpoint_index_tracker@, old(self).base_address) ==> registry_counts(final(self).active_breakpoints@, final(self).breakpoint_index_tracker@, final(self).base_address),
            Self::same_program(final(self), old(self)),
            final(self).current_cmd == old(self).current_cmd,
            final(self).breakpoint_index_tracker@.len() == old(self).breakpoint_index_tracker@.len(),
            forall|j: int| 0 <= j < old(self).breakpoint_index_tracker@.len() && j != index
                ==> final(self).breakpoint_index_tracker@[j] == old(self).breakpoint_index_tracker@[j],
            match old(self).breakpoint_index_tracker@[index as int] {
                None => r.0 is NotFound && r.1@.len() == 0
                    && final(self).breakpoint_index_tracker@ == old(self).breakpoint_index_tracker@
                    && final(self).active_breakpoints@ == old(self).active_breakpoints@,
                Some(d) => if !d.enabled {
                    r.0 is AlreadyInState && r.1@.len() == 0
                        && final(self).breakpoint_index_tracker@ == old(self).breakpoint_index_tracker@
                        && final(self).active_breakpoints@ == old(self).active_breakpoints@
                } else {
                    &&& r.0 is Updated
                    &&& final(self).active_breakpoints@ == release_all(
                        old(self).active_breakpoints@,
                        old(self).base_address,
                        d.target@,
                    )
                    &&& r.1@ == release_all_removed(
                        old(self).active_breakpoints@,
                        old(self).base_address,
                        d.target@,
                    )
                    &&& final(self).breakpoint_index_tracker@[index as int] matches Some(e)
                    &&& !e.enabled && e.target@ == d.target@ && e.line == d.line && e.file@ == d.file@
                },
            },
    {
        proof {
            if every_entry_used(self.active_breakpoints@) {
                lemma_registry_keeps_used(self.active_breakpoints@, self.base_address);
            }
        }
        let entry = self.breakpoint_index_tracker.remove(index);
        match entry {
            None => {
                self.breakpoint_index_tracker.insert(index, None);
                assert(self.breakpoint_index_tracker@ =~= old(self).breakpoint_index_tracker@);
                (BreakpointMutationResult::NotFound, Vec::new())
            },
            Some(mut data) => {
                if !data.enabled {
                    self.breakpoint_index_tracker.insert(index, Some(data));
                    assert(self.breakpoint_index_tracker@ =~= old(self).breakpoint_index_tracker@);
                    return (BreakpointMutationResult::AlreadyInState, Vec::new());
                }
                let disarm = self.release_targets(&data.target);
                data.enabled = false;
                self.breakpoint_index_tracker.insert(index, Some(data));
                proof {
                    assert(self.breakpoint_index_tracker@ =~= old(self).breakpoint_index_tracker@.update(
                        index as int,
                        Some(data),
                    ));
                    if registry_counts(
                        old(self).active_breakpoints@,
                        old(self).breakpoint_index_tracker@,
                        old(self).base_address,
                    ) {
                        lemma_disable_keeps_counts(
                            old(self).active_breakpoints@,
                            old(self).breakpoint_index_tracker@,
                            old(self).base_address,
                            index as int,
                            data,
                        );
                    }
                }
                (BreakpointMutationResult::Updated, disarm)
            },
        }
    }

    /// Deletes the user's breakpoint at position `index`: its addresses lose a
    /// reference each and its position stays, empty. Returns the breakpoints to disarm.
    pub fn delete_breakpoint(&mut self, index: usize) -> (r: (BreakpointMutationResult, Vec<BreakPoint>))
        requires
            index < old(self).breakpoint_index_tracker@.len(),
        ensures
            registry_counts(old(self).active_breakpoints@, old(self).breakpoint_index_tracker@, old(self).base_address) && !(old(self).breakpoint_index_tracker@[index as int] matches Some(d) && !d.enabled)
                ==> registry_counts(final(self).active_breakpoints@, final(self).breakpoint_index_tracker@, final(self).base_address),
            every_entry_used(old(self).active_breakpoints@) ==> every_entry_used(final(self).active_breakpoints@),
            Self::same_program(final(self), old(self)),
            final(self).current_cmd == old(self).current_cmd,
            final(self).breakpoint_index_tracker@ == old(self).breakpoint_index_tracker@.update(index as int, None),
            match old(self).breakpoint_index_tracker@[index as int] {
                None => r.0 is NotFound && r.1@.len() == 0
                    && final(self).active_breakpoints@ == old(self).active_breakpoints@,
                Some(d) => {
                    &&& r.0 is Updated
                    &&& final(self).active_breakpoints@ == release_all(
                        old(self).active_breakpoints@,
                        old(self).base_address,
                        d.target@,
                    )
                    &&& r.1@ == release_all_removed(
                        old(self).active_breakpoints@,
                        old(self).base_address,
                        d.target@,
                    )
                },
            },
    {
        let entry = self.breakpoint_index_tracker.remove(index);
        self.breakpoint_index_tracker.insert(index, None);
        assert(self.breakpoint_index_tracker@ =~= old(self).breakpoint_index_tracker@.update(index as int, None));
        match entry {
            None => {
                assert(self.breakpoint_index_tracker@ =~= old(self).breakpoint_index_tracker@);
                (BreakpointMutationResult::NotFound, Vec::new())
            },
            Some(data) => {
                proof {
                    if registry_counts(
                        old(self).active_breakpoints@,
                        old(self).breakpoint_index_tracker@,
                        old(self).base_address,
                    ) && data.enabled {
                        lemma_delete_keeps_counts(
                            old(self).active_breakpoints@,
                            old(self).breakpoint_index_tracker@,
                            old(self).base_address,
                            index as int,
                        );
                    }
                    if every_entry_used(old(self).active_breakpoints@) {
                        lemma_release_all_keeps_used(old(self).active_breakpoints@, old(self).base_address, data.target@);
                    }
                }
                let disarm = self.release_targets(&data.target);
                (BreakpointMutationResult::Updated, disarm)
            },
        }
    }

    /// Creates a user breakpoint at line `line_number` of `file`: every address
    /// of that line in that file gets one more reference. Returns what was
    /// created, with the first of those addresses, and the machine addresses to arm.
    pub fn create_breakpoint(&mut self, line_number: u32, file: &str) -> (r: (BreakpointMutationResult, Vec<u64>))
        requires
            old(self).line_index@.contains_key(line_number) ==> targets_of_file(
                old(self).line_index@[line_number]@,
                file@,
            ).len() > 0,
        ensures
            every_entry_used(old(self).active_breakpoints@) ==> every_entry_used(final(self).active_breakpoints@),
            registry_counts(old(self).active_breakpoints@, old(self).breakpoint_index_tracker@, old(self).base_address) && (forall|a: u64|
                #[trigger] users(old(self).active_breakpoints@, a) + entry_uses(
                    final(self).breakpoint_index_tracker@.last(),
                    old(self).base_address,
                    a,
                ) <= usize::MAX) ==> registry_counts(final(self).active_breakpoints@, final(self).breakpoint_index_tracker@, final(self).base_address),
            Self::same_program(final(self), old(self)),
            final(self).current_cmd == old(self).current_cmd,
            !old(self).line_index@.contains_key(line_number) ==> r.0 is NotFound && r.1@.len() == 0
                && final(self).active_breakpoints@ == old(self).active_breakpoints@
                && final(self).breakpoint_index_tracker@ == old(self).breakpoint_index_tracker@,
            old(self).line_index@.contains_key(line_number) ==> ({
                let chosen = targets_of_file(old(self).line_index@[line_number]@, file@);
                &&& r.0 matches BreakpointMutationResult::Created { count, target }
                &&& count == chosen.len() as u8
                &&& target == chosen[0]
                &&& final(self).active_breakpoints@ == acquire_all(
                    old(self).active_breakpoints@,
                    old(self).base_address,
                    chosen,
                )
                &&& r.1@ == acquire_all_new(old(self).active_breakpoints@, old(self).base_address, chosen)
                &&& final(self).breakpoint_index_tracker@.len() == old(self).breakpoint_index_tracker@.len() + 1
                &&& forall|j: int| 0 <= j < old(self).breakpoint_index_tracker@.len()
                    ==> final(self).breakpoint_index_tracker@[j] == old(self).breakpoint_index_tracker@[j]
                &&& final(self).breakpoint_index_tracker@.last() matches Some(e)
                &&& e.enabled && e.target@ == chosen && e.line == line_number && e.file@ == file@
            }),
    {
        proof {
            if every_entry_used(self.active_breakpoints@) {
                lemma_registry_keeps_used(self.active_breakpoints@, self.base_address);
            }
        }
        let line_index = match self.get_breakpoint_target(line_number) {
            Some(v) => v,
            None => return (BreakpointMutationResult::NotFound, Vec::new()),
        };
        let mut chosen: Vec<BreakpointTarget> = Vec::new();
        let n = line_index.len();
        let mut i: usize = 0;
        while i < n
            invariant
                n == line_index@.len(),
                i <= n,
                chosen@ == targets_of_file(line_index@.take(i as int), file@),
            decreases n - i,
        {
            assert(line_index@.take(i + 1).drop_last() =~= line_index@.take(i as int));
            if crate::text::str_eq(line_index[i].file.as_str(), file) {
                chosen.push(BreakpointTarget {
                    file: line_index[i].file.clone(),
                    relative_address: line_index[i].relative_address,
                });
            }
            i = i + 1;
        }
        assert(line_index@.take(n as int) =~= line_index@);
        let arm = self.acquire_targets(&chosen);
        let count = chosen.len() as u8;
        let first = BreakpointTarget { file: chosen[0].file.clone(), relative_address: chosen[0].relative_address };
        let ghost t0 = self.breakpoint_index_tracker@;
        self.breakpoint_index_tracker.push(Some(BreakpointData::from_target(chosen, line_number, file)));
        proof {
            let d = self.breakpoint_index_tracker@.last()->Some_0;
            if registry_counts(old(self).active_breakpoints@, t0, old(self).base_address) && (forall|a: u64|
                #[trigger] users(old(self).active_breakpoints@, a) + entry_uses(
                    self.breakpoint_index_tracker@.last(),
                    old(self).base_address,
                    a,
                ) <= usize::MAX) {
                assert forall|a: u64|
                    #[trigger] users(old(self).active_breakpoints@, a) + uses(old(self).base_address, d.target@, a)
                        <= usize::MAX by {
                    assert(entry_uses(self.breakpoint_index_tracker@.last(), old(self).base_address, a) == uses(
                        old(self).base_address,
                        d.target@,
                        a,
                    ));
                }
                lemma_create_keeps_counts(old(self).active_breakpoints@, t0, old(self).base_address, d);
            }
        }
        (BreakpointMutationResult::Created { count, target: first }, arm)
    }

    /// Clears every user breakpoint at line `line_number` (only those whose path
    /// ends with `file`, when given): their positions become empty and their
    /// addresses lose a reference each. Returns the cleared positions (counted
    /// from 1) and the breakpoints to disarm.
    pub fn clear_breakpoint(&mut self, line_number: u32, file: Option<&str>) -> (r: (Vec<usize>, Vec<BreakPoint>))
        ensures
            every_entry_used(old(self).active_breakpoints@) ==> every_entry_used(final(self).active_breakpoints@),
            Self::same_program(final(self), old(self)),
            final(self).current_cmd == old(self).current_cmd,
            ({
                let f = match file { Some(s) => Some(s@), None => None };
                let t = old(self).breakpoint_index_tracker@;
                &&& r.0@ == cleared_positions(t, line_number, f)
                &&& final(self).breakpoint_index_tracker@ == after_clear(t, line_number, f)
                &&& final(self).active_breakpoints@ == release_all(
                    old(self).active_breakpoints@,
                    old(self).base_address,
                    cleared_targets(t, line_number, f),
                )
                &&& r.1@ == release_all_removed(
                    old(self).active_breakpoints@,
                    old(self).base_address,
                    cleared_targets(t, line_number, f),
                )
            }),
    {
        let ghost f = match file { Some(s) => Some(s@), None => None };
        let ghost t = self.breakpoint_index_tracker@;
        let ghost m0 = self.active_breakpoints@;
        let mut bp_idx: Vec<usize> = Vec::new();
        let mut disarm: Vec<BreakPoint> = Vec::new();
        let n = self.breakpoint_index_tracker.len();
        let mut idx: usize = 0;
        while idx < n
            invariant
                n == t.len(),
                idx <= n,
                t == old(self).breakpoint_index_tracker@,
                m0 == old(self).active_breakpoints@,
                f == (match file { Some(s) => Some(s@), None => None }),
                self.breakpoint_index_tracker@.len() == n,
                forall|j: int| 0 <= j < idx ==> self.breakpoint_index_tracker@[j] == after_clear(t, line_number, f)[j],
                forall|j: int| idx <= j < n ==> self.breakpoint_index_tracker@[j] == t[j],
                bp_idx@ == cleared_positions(t.take(idx as int), line_number, f),
                self.active_breakpoints@ == release_all(m0, self.base_address, cleared_targets(t.take(idx as int), line_number, f)),
                disarm@ == release_all_removed(m0, self.base_address, cleared_targets(t.take(idx as int), line_number, f)),
                Self::same_program(self, old(self)),
                self.current_cmd == old(self).current_cmd,
            decreases n - idx,
        {
            assert(t.take(idx + 1).drop_last() =~= t.take(idx as int));
            assert(t.take(idx + 1).last() == t[idx as int]);
            let entry = self.breakpoint_index_tracker.remove(idx);
            let ghost before = self.breakpoint_index_tracker@;
            match entry {
                None => {
                    self.breakpoint_index_tracker.insert(idx, None);
                },
                Some(data) => {
                    let matches = data.line == line_number && match file {
                        None => true,
                        Some(fname) => crate::text::ends_with(data.file.as_str(), fname),
                    };
                    if matches {
                        self.breakpoint_index_tracker.insert(idx, None);
                        let ghost prev_m = self.active_breakpoints@;
                        let ghost prev_targets = cleared_targets(t.take(idx as int), line_number, f);
                        proof {
                            lemma_release_all_append(m0, self.base_address, prev_targets, data.target@);
                        }
                        let mut gone = self.release_targets(&data.target);
                        disarm.append(&mut gone);
                        bp_idx.push(idx + 1);
                    } else {
                        self.breakpoint_index_tracker.insert(idx, Some(data));
                    }
                },
            }
            assert forall|j: int| 0 <= j < idx + 1 implies self.breakpoint_index_tracker@[j] == after_clear(t, line_number, f)[j] by {
                if j < idx {
                    assert(self.breakpoint_index_tracker@[j] == before[j]);
                }
            }
            idx = idx + 1;
        }
        assert(t.take(n as int) =~= t);
        assert(self.breakpoint_index_tracker@ =~= after_clear(t, line_number, f));
        proof {
            if every_entry_used(m0) {
                lemma_release_all_keeps_used(m0, self.base_address, cleared_targets(t, line_number, f));
            }
        }
        (bp_idx, disarm)
    }
}

} // verus!
