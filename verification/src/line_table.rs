//! The line table of the debuggee: from the rows of each unit's line-number
//! program to the address ranges of source lines, the breakpoint addresses of
//! each line and the order in which lines of each file come in the code.
use crate::breakpoint::BreakpointTarget;
use crate::fxmap::{fx_insert, fx_remove, fxset_clear, fxset_contains, fxset_insert, fxset_new};
use crate::session::DebugSession;
use crate::text::{ends_with, is_prefix, is_suffix, starts_with};
use crate::types::{LineRow, SourceLocation, StringId};
use rustc_hash::FxHashSet;
use vstd::prelude::*;
use vstd::string::*;

verus! {

/// One row of a unit's line-number program, with the full path of its file.
#[derive(Debug, Clone)]
pub struct LineProgramRow {
    pub path: String,
    pub address: u64,
    /// The line; 0 where the row has none.
    pub line: u64,
    pub is_stmt: bool,
    pub end_sequence: bool,
}

/// `base` with the path `p` pushed onto it, as a Unix path buffer does: an
/// absolute `p` replaces `base`; otherwise a `/` goes between them unless
/// `base` is empty or already ends in one.
pub open spec fn pushed_path(base: Seq<char>, p: Seq<char>) -> Seq<char> {
    if is_prefix("/"@, p) {
        p
    } else if base.len() == 0 || is_suffix("/"@, base) {
        base + p
    } else {
        base + "/"@ + p
    }
}

/// The full path of a line-table row's file: the unit's directory
/// `comp_dir`, then the file's directory `dir` unless its index is 0 (the
/// unit's own directory), then the file's name.
pub open spec fn joined_path(comp_dir: Seq<char>, dir_index: u64, dir: Option<Seq<char>>, name: Seq<char>) -> Seq<char> {
    let with_dir = if dir_index != 0 {
        match dir {
            Some(d) => pushed_path(comp_dir, d),
            None => comp_dir,
        }
    } else {
        comp_dir
    };
    pushed_path(with_dir, name)
}

/// Pushes the path `p` onto `base`.
fn push_path(base: String, p: &str) -> (r: String)
    ensures
        r@ == pushed_path(base@, p@),
{
    if starts_with(p, "/") {
        return p.to_owned();
    }
    let mut out = base;
    if out.as_str().unicode_len() != 0 && !ends_with(out.as_str(), "/") {
        out.append("/");
    }
    out.append(p);
    out
}

/// The full path of a line-table row's file, from the unit's directory, the
/// file's directory and its index, and the file's name.
pub fn row_path(comp_dir: &str, dir_index: u64, dir: Option<&str>, name: &str) -> (r: String)
    ensures
        r@ == joined_path(
            comp_dir@,
            dir_index,
            match dir {
                Some(d) => Some(d@),
                None => None,
            },
            name@,
        ),
{
    let mut path = comp_dir.to_owned();
    if dir_index != 0 {
        if let Some(d) = dir {
            path = push_path(path, d);
        }
    }
    push_path(path, name)
}

/// What reading a unit's rows builds, and the state the reading carries from
/// row to row: the file last indexed, the lines already given breakpoint
/// addresses in it, and the row that opened the current address range.
pub struct IndexState {
    pub strings: Seq<Seq<char>>,
    pub line_rows: Seq<LineRow>,
    pub line_index: Map<u32, Seq<(Seq<char>, u64)>>,
    pub decl_order: Map<u16, Seq<u32>>,
    pub last_indexed: Option<StringId>,
    pub registered: Set<u32>,
    pub active: Option<(u64, SourceLocation)>,
}

/// The id of an interned string: its position.
pub open spec fn id_of(strings: Seq<Seq<char>>, p: Seq<char>) -> StringId {
    StringId((choose|i: int| 0 <= i < strings.len() && strings[i] == p) as u16)
}

/// Reading one row. Its file's path is interned (a row whose path cannot get
/// an id, all 65536 being taken, is passed over). A change of file starts a
/// new set of indexed lines. A row with a line closes the open address range
/// (kept when non-empty and on a real line) and, unless it ends a sequence,
/// opens the next. The first row of a line in a file gives the line a
/// breakpoint address and appends the line to the file's order (unless it is
/// already last there).
pub open spec fn index_row(s: IndexState, row: LineProgramRow) -> IndexState {
    let p = row.path@;
    if !s.strings.contains(p) && s.strings.len() >= 0x10000 {
        s
    } else {
        let strings = if s.strings.contains(p) {
            s.strings
        } else {
            s.strings.push(p)
        };
        let id = id_of(strings, p);
        let registered0 = if s.last_indexed != Some(id) {
            Set::empty()
        } else {
            s.registered
        };
        let line = row.line as u32;
        if line == 0 {
            IndexState { strings, last_indexed: Some(id), registered: registered0, ..s }
        } else {
            let line_rows = match s.active {
                Some((start, loc)) => if row.address > start && loc.line != 0 {
                    s.line_rows.push(
                        LineRow {
                            location: loc,
                            start_address: start,
                            end_address: row.address,
                            is_stmt: row.is_stmt,
                        },
                    )
                } else {
                    s.line_rows
                },
                None => s.line_rows,
            };
            let active = if row.end_sequence {
                None
            } else {
                Some((row.address, SourceLocation { file: id, line }))
            };
            if !registered0.contains(line) && !row.end_sequence {
                let targets = if s.line_index.contains_key(line) {
                    s.line_index[line]
                } else {
                    Seq::empty()
                };
                let order = if s.decl_order.contains_key(id.0) {
                    s.decl_order[id.0]
                } else {
                    Seq::empty()
                };
                IndexState {
                    strings,
                    line_rows,
                    line_index: s.line_index.insert(line, targets.push((p, row.address))),
                    decl_order: s.decl_order.insert(
                        id.0,
                        if order.len() > 0 && order.last() == line {
                            order
                        } else {
                            order.push(line)
                        },
                    ),
                    last_indexed: Some(id),
                    registered: registered0.insert(line),
                    active,
                }
            } else {
                IndexState {
                    strings,
                    line_rows,
                    line_index: s.line_index,
                    decl_order: s.decl_order,
                    last_indexed: Some(id),
                    registered: registered0,
                    active,
                }
            }
        }
    }
}

/// Reading the rows in order.
pub open spec fn index_rows(s: IndexState, rows: Seq<LineProgramRow>) -> IndexState
    decreases rows.len(),
{
    if rows.len() == 0 {
        s
    } else {
        index_row(index_rows(s, rows.drop_last()), rows.last())
    }
}

/// Each target as its path and relative address.
pub open spec fn targets_view(v: Seq<BreakpointTarget>) -> Seq<(Seq<char>, u64)> {
    v.map_values(|t: BreakpointTarget| (t.file@, t.relative_address))
}

/// The breakpoint addresses of each line, seen as sequences.
pub open spec fn line_index_view(m: Map<u32, Vec<BreakpointTarget>>) -> Map<u32, Seq<(Seq<char>, u64)>> {
    m.map_values(|v: Vec<BreakpointTarget>| targets_view(v@))
}

/// The line order of each file, seen as sequences.
pub open spec fn decl_order_view(m: Map<u16, Vec<u32>>) -> Map<u16, Seq<u32>> {
    m.map_values(|v: Vec<u32>| v@)
}

impl DebugSession {
    /// The session's line table before a unit is read.
    pub open spec fn index_start(&self) -> IndexState {
        IndexState {
            strings: self.interner.strings(),
            line_rows: self.line_row@,
            line_index: line_index_view(self.line_index@),
            decl_order: decl_order_view(self.file_declaration_order@),
            last_indexed: None,
            registered: Set::empty(),
            active: None,
        }
    }

    /// Reads the rows of one unit's line-number program into the line table.
    pub fn update_session_cache(&mut self, rows: &Vec<LineProgramRow>)
        requires
            old(self).interner.wf(),
        ensures
            final(self).interner.wf(),
            ({
                let end = index_rows(old(self).index_start(), rows@);
                &&& final(self).interner.strings() == end.strings
                &&& final(self).line_row@ == end.line_rows
                &&& line_index_view(final(self).line_index@) == end.line_index
                &&& decl_order_view(final(self).file_declaration_order@) == end.decl_order
            }),
            final(self).base_address == old(self).base_address,
            final(self).metadata == old(self).metadata,
            final(self).active_breakpoints@ == old(self).active_breakpoints@,
            final(self).breakpoint_index_tracker@ == old(self).breakpoint_index_tracker@,
            final(self).current_cmd == old(self).current_cmd,
            final(self).pid == old(self).pid,
            final(self).registers == old(self).registers,
            final(self).raw_debug_frame == old(self).raw_debug_frame,
    {
        let ghost s0 = self.index_start();
        let mut last_indexed: Option<StringId> = None;
        let mut registered: FxHashSet<u32> = fxset_new();
        let mut active: Option<(u64, SourceLocation)> = None;
        let n = rows.len();
        let mut i: usize = 0;
        assert(rows@.take(0) =~= Seq::<LineProgramRow>::empty());
        while i < n
            invariant
                n == rows@.len(),
                i <= n,
                self.interner.wf(),
                s0 == old(self).index_start(),
                index_rows(s0, rows@.take(i as int)) == (IndexState {
                    strings: self.interner.strings(),
                    line_rows: self.line_row@,
                    line_index: line_index_view(self.line_index@),
                    decl_order: decl_order_view(self.file_declaration_order@),
                    last_indexed,
                    registered: registered@,
                    active,
                }),
                self.base_address == old(self).base_address,
                self.metadata == old(self).metadata,
                self.active_breakpoints@ == old(self).active_breakpoints@,
                self.breakpoint_index_tracker@ == old(self).breakpoint_index_tracker@,
                self.current_cmd == old(self).current_cmd,
                self.pid == old(self).pid,
                self.registers == old(self).registers,
                self.raw_debug_frame == old(self).raw_debug_frame,
            decreases n - i,
        {
            let row = &rows[i];
            let ghost s = index_rows(s0, rows@.take(i as int));
            assert(rows@.take(i + 1).drop_last() =~= rows@.take(i as int));
            assert(rows@.take(i + 1).last() == *row);
            let path = row.path.as_str();
            assert(index_rows(s0, rows@.take(i + 1)) == index_row(s, *row));
            if !self.interner.contains(path) && self.interner.len() >= 0x10000 {
                assert(index_row(s, *row) == s);
                i = i + 1;
                continue;
            }
            let ghost strings_before = self.interner.strings();
            let id = self.interner.get_or_intern(path);
            proof {
                let strings = self.interner.strings();
                crate::types::lemma_interner_bounded(self.interner);
                assert(0 <= id.0 < strings.len() && strings[id.0 as int] == path@);
                let w = choose|j: int| 0 <= j < strings.len() && strings[j] == path@;
                crate::types::law_intern_ids_unique(self.interner, id, StringId(w as u16));
                assert(id == id_of(strings, path@));
            }
            let fresh = match last_indexed {
                Some(f) => f.0 != id.0,
                None => true,
            };
            if fresh {
                fxset_clear(&mut registered);
                last_indexed = Some(id);
            }
            let line: u32 = #[verifier::truncate] (row.line as u32);
            if line == 0 {
                i = i + 1;
                continue;
            }
            let already = fxset_contains(&registered, &line);
            if let Some((start, loc)) = active {
                if row.address > start && loc.line != 0 {
                    self.line_row.push(
                        LineRow {
                            location: loc,
                            start_address: start,
                            end_address: row.address,
                            is_stmt: row.is_stmt,
                        },
                    );
                }
            }
            if row.end_sequence {
                active = None;
            } else {
                active = Some((row.address, SourceLocation { file: id, line }));
            }
            if !already && !row.end_sequence {
                let ghost li0 = self.line_index@;
                let mut targets = match fx_remove(&mut self.line_index, &line) {
                    Some(v) => v,
                    None => Vec::new(),
                };
                let ghost t0 = targets@;
                assert(line_index_view(li0) == s.line_index);
                assert(t0 == (if li0.contains_key(line) { li0[line]@ } else { Seq::empty() }));
                assert(li0.contains_key(line) ==> line_index_view(li0)[line] == targets_view(li0[line]@));
                assert(!li0.contains_key(line) ==> targets_view(t0) =~= Seq::empty());
                targets.push(BreakpointTarget { file: row.path.clone(), relative_address: row.address });
                fx_insert(&mut self.line_index, line, targets);
                proof {
                    assert(targets_view(t0.push(BreakpointTarget { file: row.path, relative_address: row.address }))
                        =~= targets_view(t0).push((path@, row.address)));
                    assert(line_index_view(self.line_index@) =~= line_index_view(li0).insert(
                        line,
                        targets_view(t0).push((path@, row.address)),
                    ));
                }
                let ghost do0 = self.file_declaration_order@;
                let mut order = match fx_remove(&mut self.file_declaration_order, &id.0) {
                    Some(v) => v,
                    None => Vec::new(),
                };
                let ghost o0 = order@;
                let n_order = order.len();
                if n_order == 0 || order[n_order - 1] != line {
                    order.push(line);
                }
                fx_insert(&mut self.file_declaration_order, id.0, order);
                proof {
                    assert(decl_order_view(self.file_declaration_order@) =~= decl_order_view(do0).insert(
                        id.0,
                        order@,
                    ));
                }
                fxset_insert(&mut registered, line);
            }
            i = i + 1;
        }
        assert(rows@.take(n as int) =~= rows@);
    }
}

} // verus!

verus! {

/// Every address range is non-empty and lies on a real line.
pub open spec fn ranges_well_formed(rows: Seq<LineRow>) -> bool {
    forall|k: int|
        0 <= k < rows.len() ==> #[trigger] rows[k].start_address < rows[k].end_address
            && rows[k].location.line != 0
}

/// Reading a unit's rows only adds non-empty address ranges on real lines,
/// and never gives line 0 a breakpoint address.
pub proof fn law_line_table_well_formed(s: IndexState, rows: Seq<LineProgramRow>)
    requires
        ranges_well_formed(s.line_rows),
        !s.line_index.contains_key(0),
        s.active matches Some((_, loc)) ==> loc.line != 0,
    ensures
        ranges_well_formed(index_rows(s, rows).line_rows),
        !index_rows(s, rows).line_index.contains_key(0),
        index_rows(s, rows).active matches Some((_, loc)) ==> loc.line != 0,
    decreases rows.len(),
{
    if rows.len() > 0 {
        law_line_table_well_formed(s, rows.drop_last());
        let t = index_rows(s, rows.drop_last());
        let r = index_row(t, rows.last());
        assert(ranges_well_formed(r.line_rows)) by {
            if r.line_rows.len() > t.line_rows.len() {
                assert(r.line_rows == t.line_rows.push(r.line_rows.last()));
            }
        }
    }
}

} // verus!
