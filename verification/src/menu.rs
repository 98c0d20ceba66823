//! What the prompt decides before it acts: which files a breakpoint line can
//! be put in, which breakpoint a user number names, the source line to show,
//! and whether a variable is initialised yet.
use crate::breakpoint::BreakpointTarget;
use crate::command::Command;
use crate::decode::{reads_bytes, reads_words, MAX_VALUE_DEPTH};
use crate::layout::{opt_view, value_of, ValueView};
use crate::dwarf::{first_param_named, ActiveParamsContext, DebugVariable, RegisterViewer};
use crate::sys::{LinuxError, SystemError};
use crate::value::DebugValue;
use crate::fxmap::{by_view, fxset_contains_str, fxset_insert_string, fxset_new, set_by_view};
use rustc_hash::FxHashSet;
use crate::session::{sorted_by_start, DebugSession};
use crate::stepping::location_of;
use crate::text::{contains_seq, contains_str, str_eq};
use crate::types::{concat, views, SourceCodeDisplay, SourceCodeInfo, SourceLocation};
use vstd::prelude::*;
use vstd::string::StringSliceAdditionalSpecFns;

verus! {

/// A path of the standard library or of a dependency, where the user does
/// not put breakpoints.
pub open spec fn library_path(p: Seq<char>) -> bool {
    contains_seq(p, "/rustc/"@) || contains_seq(p, "/rust/deps"@)
}

/// The files of the first `k` targets a breakpoint can be put in: each once,
/// in the order they first come, library paths left out.
pub open spec fn candidate_files(ts: Seq<BreakpointTarget>, k: int) -> Seq<Seq<char>>
    decreases k,
{
    if k <= 0 || k > ts.len() {
        Seq::empty()
    } else {
        let prev = candidate_files(ts, k - 1);
        let f = ts[k - 1].file@;
        if library_path(f) || prev.contains(f) {
            prev
        } else {
            prev.push(f)
        }
    }
}

/// The files a breakpoint at the targets of a line can be put in.
pub fn breakpoint_files(targets: &Vec<BreakpointTarget>) -> (r: Vec<String>)
    ensures
        views(r@) == candidate_files(targets@, targets@.len() as int),
{
    let mut files: Vec<String> = Vec::new();
    let mut unique: FxHashSet<String> = fxset_new();
    let n = targets.len();
    let mut k: usize = 0;
    assert(views(files@) =~= Seq::<Seq<char>>::empty());
    assert(set_by_view(unique@) =~= Set::<Seq<char>>::empty());
    while k < n
        invariant
            n == targets@.len(),
            k <= n,
            views(files@) == candidate_files(targets@, k as int),
            forall|v: Seq<char>| set_by_view(unique@).contains(v) <==> #[trigger] views(files@).contains(v),
        decreases n - k,
    {
        let f = targets[k].file.as_str();
        let library = contains_str(f, "/rustc/") || contains_str(f, "/rust/deps");
        if !library && !fxset_contains_str(&unique, f) {
            let ghost before = files@;
            let ghost u0 = set_by_view(unique@);
            files.push(f.to_owned());
            fxset_insert_string(&mut unique, f.to_owned());
            assert(views(files@) =~= views(before).push(f@));
            assert forall|v: Seq<char>| set_by_view(unique@).contains(v) <==> #[trigger] views(files@).contains(v) by {
                assert(u0.contains(v) <==> views(before).contains(v));
                assert(set_by_view(unique@).contains(v) <==> (u0.contains(v) || v == f@));
                if v == f@ {
                    assert(views(files@)[views(files@).len() - 1] == v);
                } else if views(files@).contains(v) {
                    let j = choose|j: int| 0 <= j < views(files@).len() && views(files@)[j] == v;
                    assert(views(before)[j] == v);
                } else if views(before).contains(v) {
                    let j = choose|j: int| 0 <= j < views(before).len() && views(before)[j] == v;
                    assert(views(files@)[j] == v);
                }
            }
        }
        k = k + 1;
    }
    files
}

/// Where a breakpoint on a line goes, by the files of its targets.
pub enum FileChoice {
    /// Nowhere: the line has no target outside library code.
    NoFile,
    /// In the one file that has targets.
    Only(String),
    /// In one of several files, which the user picks (listed from 0).
    Ask(Vec<String>),
}

/// Where a breakpoint at the targets of a line goes: nowhere where no
/// target lies outside library code, in the one file where they all lie,
/// else in the file the user picks among those.
pub fn breakpoint_file_choice(targets: &Vec<BreakpointTarget>) -> (r: FileChoice)
    ensures
        ({
            let files = candidate_files(targets@, targets@.len() as int);
            match r {
                FileChoice::NoFile => files.len() == 0,
                FileChoice::Only(f) => files == seq![f@],
                FileChoice::Ask(fs) => files.len() > 1 && views(fs@) == files,
            }
        }),
{
    let mut files = breakpoint_files(targets);
    if files.len() == 0 {
        FileChoice::NoFile
    } else if files.len() == 1 {
        let ghost before = files@;
        let f = files.pop().unwrap();
        assert(views(before) =~= seq![f@]);
        FileChoice::Only(f)
    } else {
        FileChoice::Ask(files)
    }
}

/// The position in the breakpoint list of the breakpoint the user numbers
/// `user_index` (counting from 1), when there is one among `count`.
pub fn resolve_user_index(user_index: usize, count: usize) -> (r: Option<usize>)
    ensures
        r == (if 1 <= user_index <= count {
            Some((user_index - 1) as usize)
        } else {
            None
        }),
{
    if user_index == 0 {
        return None;
    }
    let index = user_index - 1;
    if index >= count {
        return None;
    }
    Some(index)
}

/// The position of the first `line` in `order`.
pub open spec fn position_of(order: Seq<u32>, line: u32) -> Option<int> {
    if exists|i: int| 0 <= i < order.len() && order[i] == line {
        Some(choose|i: int| 0 <= i < order.len() && order[i] == line && forall|j: int| 0 <= j < i ==> order[j] != line)
    } else {
        None
    }
}

fn position(order: &Vec<u32>, line: u32) -> (r: Option<usize>)
    ensures
        match position_of(order@, line) {
            Some(i) => r matches Some(x) && x as int == i,
            None => r is None,
        },
{
    let n = order.len();
    let mut i: usize = 0;
    while i < n
        invariant
            n == order@.len(),
            i <= n,
            forall|j: int| 0 <= j < i ==> order@[j] != line,
        decreases n - i,
    {
        if order[i] == line {
            let ghost w = choose|w: int| 0 <= w < order@.len() && order@[w] == line && forall|j: int| 0 <= j < w ==> order@[j] != line;
            assert(w == i as int) by {
                if w < i {
                } else if w > i {
                }
            }
            return Some(i);
        }
        i = i + 1;
    }
    None
}

/// Whether a variable can be read at a stop.
#[derive(Debug, Clone, Copy, PartialEq, Eq)]
pub enum VariableState {
    /// The stop has no source location.
    NoLocation,
    /// The compiler emits the variable's declaration line at or after the
    /// line of the stop: it is not initialised yet.
    NotInitialized,
    /// The variable can be read.
    Readable,
}

/// The state of a variable declared on `decl_line` at a stop on `here`, by
/// the order in which the lines of the file come in the code.
pub open spec fn variable_state(order: Option<Seq<u32>>, here: Option<SourceLocation>, decl_line: u32) -> VariableState {
    match here {
        None => VariableState::NoLocation,
        Some(loc) => match order {
            Some(o) => match (position_of(o, loc.line), position_of(o, decl_line)) {
                (Some(cur), Some(var)) => if var >= cur {
                    VariableState::NotInitialized
                } else {
                    VariableState::Readable
                },
                _ => VariableState::Readable,
            },
            None => VariableState::Readable,
        },
    }
}

fn state_of(order: Option<&Vec<u32>>, here: SourceLocation, decl_line: u32) -> (r: VariableState)
    ensures
        r == variable_state(
            match order {
                Some(o) => Some(o@),
                None => None,
            },
            Some(here),
            decl_line,
        ),
{
    match order {
        Some(order) => match (position(order, here.line), position(order, decl_line)) {
            (Some(cur), Some(var)) => if var >= cur {
                VariableState::NotInitialized
            } else {
                VariableState::Readable
            },
            _ => VariableState::Readable,
        },
        None => VariableState::Readable,
    }
}

/// The bytes of line `line` of the file `path` in the cache, where the cache
/// holds the file and the line.
pub open spec fn cached_line(entries: Map<Seq<char>, SourceCodeInfo>, path: Seq<char>, line: u32) -> Option<Seq<u8>> {
    if entries.contains_key(path) {
        entries[path].line_bytes(line)
    } else {
        None
    }
}

/// The cache `e1` is `e0` with the file `path` stored as `read_lines` read it.
pub open spec fn read_into_cache<R: Fn(&str) -> Option<Vec<String>>>(
    read_lines: &R,
    e0: Map<Seq<char>, SourceCodeInfo>,
    e1: Map<Seq<char>, SourceCodeInfo>,
    path: Seq<char>,
) -> bool {
    &&& e1.contains_key(path)
    &&& e1 == e0.insert(path, e1[path])
    &&& exists|s: &str, lines: Vec<String>|
        s@ == path && #[trigger] read_lines.ensures((s,), Some(lines)) && e1[path].text() == concat(
            views(lines@),
        )
}

impl DebugSession {
    /// The state of a variable declared on `decl_line` at the stop whose
    /// registers are `regs`. Rust does not initialise variables in the order they are
    /// written, so the order in which the compiler emitted the lines decides.
    pub fn variable_state(&self, regs: Option<RegisterViewer>, decl_line: u32) -> (r: VariableState)
        requires
            sorted_by_start(self.line_row@),
        ensures
            ({
                let here = location_of(self.line_row@, self.base_address, regs);
                let order = match here {
                    Some(l) => if self.file_declaration_order@.contains_key(l.file.0) {
                        Some(self.file_declaration_order@[l.file.0]@)
                    } else {
                        None
                    },
                    None => None,
                };
                r == variable_state(order, here, decl_line)
            }),
    {
        let here = match self.current_location(regs) {
            Some(l) => *l,
            None => return VariableState::NoLocation,
        };
        let order = self.get_file_decl_order(here.file);
        state_of(order, here, decl_line)
    }

    /// What the source view shows for the current location: the line from
    /// the cache of source files, reading the file through `read_lines` first
    /// when the cache does not hold the line (nothing where it cannot be read).
    pub fn get_current_source_file<R: Fn(&str) -> Option<Vec<String>>>(&mut self, regs: Option<RegisterViewer>, read_lines: &R) -> (r: SourceCodeDisplay<'_>)
        requires
            sorted_by_start(old(self).line_row@),
            old(self).interner.wf(),
            forall|p: &str| read_lines.requires((p,)),
            forall|p: &str, out: Option<Vec<String>>|
                read_lines.ensures((p,), out) ==> (out matches Some(lines) ==> vstd::utf8::encode_utf8(
                    concat(views(lines@)),
                ).len() <= usize::MAX),
        ensures
            match location_of(old(self).line_row@, old(self).base_address, regs) {
                None => r is Unresolved,
                Some(loc) => if loc.file.0 < old(self).interner.strings().len() {
                    let p = old(self).interner.strings()[loc.file.0 as int];
                    let e0 = by_view(old(self).source_file.entries@);
                    let e1 = by_view(final(self).source_file.entries@);
                    &&& match r {
                        SourceCodeDisplay::FullyResolved { source_code, line_number } => line_number
                            == loc.line && cached_line(e1, p, loc.line) == Some(source_code.spec_bytes()),
                        SourceCodeDisplay::PartiallyResolved { path, line_number } => path@ == p
                            && line_number == loc.line && cached_line(e1, p, loc.line) is None,
                        _ => false,
                    }
                    &&& e1 == e0 || (cached_line(e0, p, loc.line) is None && read_into_cache(
                        read_lines,
                        e0,
                        e1,
                        p,
                    ))
                } else {
                    r == SourceCodeDisplay::CacheCorrupt { id: loc.file }
                },
            },
    {
        let loc = match self.current_location(regs) {
            Some(l) => *l,
            None => return SourceCodeDisplay::Unresolved,
        };
        let path = match self.interner.get_string(loc.file) {
            Some(p) => p,
            None => return SourceCodeDisplay::CacheCorrupt { id: loc.file },
        };
        match self.get_or_create_source_file(path.as_str(), loc.line, read_lines) {
            Some(source_code) => SourceCodeDisplay::FullyResolved { source_code, line_number: loc.line },
            None => SourceCodeDisplay::PartiallyResolved { path, line_number: loc.line },
        }
    }

    /// Line `line` of the source file at `path`: from the cache of source
    /// files, reading the file through `read_lines` into the cache first when
    /// the cache does not hold the line; nothing where it still does not.
    pub fn get_or_create_source_file<R: Fn(&str) -> Option<Vec<String>>>(
        &mut self,
        path: &str,
        line: u32,
        read_lines: &R,
    ) -> (r: Option<&str>)
        requires
            forall|p: &str| read_lines.requires((p,)),
            forall|p: &str, out: Option<Vec<String>>|
                read_lines.ensures((p,), out) ==> (out matches Some(lines) ==> vstd::utf8::encode_utf8(
                    concat(views(lines@)),
                ).len() <= usize::MAX),
        ensures
            ({
                let e0 = by_view(old(self).source_file.entries@);
                let e1 = by_view(final(self).source_file.entries@);
                &&& match r {
                    Some(source_code) => cached_line(e1, path@, line) == Some(source_code.spec_bytes()),
                    None => cached_line(e1, path@, line) is None,
                }
                &&& e1 == e0 || (cached_line(e0, path@, line) is None && read_into_cache(read_lines, e0, e1, path@))
            }),
            final(self).line_row == old(self).line_row,
            final(self).base_address == old(self).base_address,
            final(self).registers == old(self).registers,
            final(self).interner == old(self).interner,
    {
        if self.source_file.get_line_entry(path, line).is_none() {
            if let Some(lines) = read_lines(path) {
                let _ = self.source_file.create_and_get_line_entry(path, &lines, line);
            }
        }
        self.source_file.get_line_entry(path, line)
    }
}

} // verus!

verus! {

/// Why the value of a variable could not be read.
#[derive(Debug, Clone, PartialEq, Eq)]
pub enum VariableParseError {
    /// A system call failed.
    System(LinuxError),
    /// The location expression could not be evaluated (the message says why).
    Expression(String),
    /// The location expression gave no address.
    Address,
    /// The scope has no frame base.
    FrameBase,
    /// The encoding of the debug information is not known.
    Encoding,
}

/// The text shown for a variable that is not initialised yet.
pub fn not_initialized_message() -> (r: String)
    ensures
        r@ == "Variable not initialized yet"@,
{
    String::from_str("Variable not initialized yet")
}

impl DebugSession {
    /// The value of the variable `name` visible in `node` at the stop whose
    /// registers are `regs`. `locate` evaluates a variable's location program with the
    /// scope's frame-base program and gives its address; `peek` and
    /// `read_bytes` read the debuggee's memory.
    pub fn get_var_value<L, P, B>(
        &self,
        regs: Option<RegisterViewer>,
        node: &ActiveParamsContext,
        name: &str,
        locate: &L,
        peek: &P,
        read_bytes: &B,
    ) -> (r: Result<Option<DebugValue>, VariableParseError>) where
        L: Fn(&DebugVariable, &Vec<u8>) -> Result<Option<u64>, VariableParseError>,
        P: Fn(u64) -> Result<i64, SystemError>,
        B: Fn(usize, usize) -> Result<Vec<u8>, SystemError>,

        requires
            sorted_by_start(self.line_row@),
            forall|v: &DebugVariable, b: &Vec<u8>| locate.requires((v, b)),
            reads_words(peek),
            reads_bytes(read_bytes),
        ensures
            self.metadata.encoding is None ==> r == Err::<Option<DebugValue>, VariableParseError>(
                VariableParseError::Encoding,
            ),
            self.metadata.encoding is Some ==> match first_param_named(node.params@, name@) {
                None => r == Ok::<Option<DebugValue>, VariableParseError>(None),
                Some(i) => {
                    let var = node.params@[i];
                    let here = location_of(self.line_row@, self.base_address, regs);
                    let order = match here {
                        Some(l) => if self.file_declaration_order@.contains_key(l.file.0) {
                            Some(self.file_declaration_order@[l.file.0]@)
                        } else {
                            None
                        },
                        None => None,
                    };
                    match variable_state(order, here, var.decl_line) {
                        VariableState::NoLocation => r == Ok::<Option<DebugValue>, VariableParseError>(None),
                        VariableState::NotInitialized => r matches Ok(Some(DebugValue::Error(m))) && m@
                            == "Variable not initialized yet"@,
                        VariableState::Readable => match node.frame_base {
                            None => r == Err::<Option<DebugValue>, VariableParseError>(
                                VariableParseError::FrameBase,
                            ),
                            Some(fb) => {
                                ||| exists|e: VariableParseError|
                                    #[trigger] locate.ensures((var, fb), Err::<Option<u64>, VariableParseError>(e))
                                        && r == Err::<Option<DebugValue>, VariableParseError>(e)
                                ||| locate.ensures((var, fb), Ok::<Option<u64>, VariableParseError>(None))
                                    && r == Err::<Option<DebugValue>, VariableParseError>(
                                    VariableParseError::Address,
                                )
                                ||| exists|a: u64|
                                    #[trigger] locate.ensures(
                                        (var, fb),
                                        Ok::<Option<u64>, VariableParseError>(Some(a)),
                                    ) && if self.metadata.type_index@.contains_key(var.target_type_offset) {
                                        let read = value_of(
                                            self.metadata.type_index@[var.target_type_offset].dwarf_type,
                                            self.metadata.type_index@,
                                            a,
                                            peek,
                                            read_bytes,
                                            MAX_VALUE_DEPTH as nat,
                                        );
                                        match r {
                                            Ok(v) => read == Ok::<Option<ValueView>, SystemError>(opt_view(v)),
                                            Err(VariableParseError::System(e)) => read == Err::<
                                                Option<ValueView>,
                                                SystemError,
                                            >(e),
                                            Err(_) => false,
                                        }
                                    } else {
                                        r == Ok::<Option<DebugValue>, VariableParseError>(None)
                                    }
                            },
                        },
                    }
                },
            },
    {
        if self.metadata.encoding.is_none() {
            return Err(VariableParseError::Encoding);
        }
        let variable = match node.get_param_with_name(name) {
            Some(v) => v,
            None => return Ok(None),
        };
        match self.variable_state(regs, variable.decl_line) {
            VariableState::NoLocation => return Ok(None),
            VariableState::NotInitialized => return Ok(Some(DebugValue::Error(not_initialized_message()))),
            VariableState::Readable => {},
        }
        let frame_base = match node.frame_base {
            Some(fb) => fb,
            None => return Err(VariableParseError::FrameBase),
        };
        let address = match locate(variable, frame_base) {
            Ok(Some(a)) => a,
            Ok(None) => return Err(VariableParseError::Address),
            Err(e) => return Err(e),
        };
        match crate::fxmap::fx_get(&self.metadata.type_index, &variable.target_type_offset) {
            Some(ty) => match ty.dwarf_type.to_debug_value(&self.metadata.type_index, address, peek, read_bytes) {
                Ok(v) => Ok(v),
                Err(e) => Err(VariableParseError::System(e)),
            },
            None => Ok(None),
        }
    }
}

} // verus!

verus! {

/// What the menu does with a command in the state the session is in.
#[derive(Debug, Clone, Copy, PartialEq, Eq)]
pub enum MenuAction {
    /// Start the debuggee: the session runs, the debuggee continues and the
    /// menu is left.
    Start,
    /// Continue the debuggee and leave the menu.
    Continue,
    /// Step one machine instruction and leave the menu.
    StepInstruction,
    /// Step into the next line and leave the menu.
    StepInto,
    /// Step over the next line and leave the menu.
    StepOver,
    /// Run to the end of the current function and leave the menu.
    Finish,
    /// Show the source line where the debuggee is stopped.
    ShowSource,
    /// Kill the debuggee and leave the menu.
    Quit,
    /// Refuse: the session has not started yet.
    NotStarted,
    /// Refuse: the session is already running.
    AlreadyRunning,
    /// Handle the command in the menu, whatever the state of the session.
    Handle,
}

/// The action for `command` in a session that has not started (`idle`) or has.
pub open spec fn menu_spec(idle: bool, command: Command) -> MenuAction {
    match command {
        Command::Run => if idle {
            MenuAction::Start
        } else {
            MenuAction::AlreadyRunning
        },
        Command::Continue => if idle {
            MenuAction::NotStarted
        } else {
            MenuAction::Continue
        },
        Command::StepInstruction => if idle {
            MenuAction::NotStarted
        } else {
            MenuAction::StepInstruction
        },
        Command::Step => if idle {
            MenuAction::NotStarted
        } else {
            MenuAction::StepInto
        },
        Command::Next => if idle {
            MenuAction::NotStarted
        } else {
            MenuAction::StepOver
        },
        Command::Finish => if idle {
            MenuAction::NotStarted
        } else {
            MenuAction::Finish
        },
        Command::List => if idle {
            MenuAction::NotStarted
        } else {
            MenuAction::ShowSource
        },
        Command::Quit => MenuAction::Quit,
        _ => MenuAction::Handle,
    }
}

impl DebugSession {
    /// What the menu does with `command` now: commands that move the debuggee
    /// or show where it is stopped wait until the session has started, `run`
    /// starts it only once, and `quit` ends it.
    pub fn menu_action(&self, command: &Command) -> (r: MenuAction)
        ensures
            r == menu_spec(self.current_cmd is Idle, *command),
    {
        let idle = self.is_idle();
        match command {
            Command::Run => if idle {
                MenuAction::Start
            } else {
                MenuAction::AlreadyRunning
            },
            Command::Continue => if idle {
                MenuAction::NotStarted
            } else {
                MenuAction::Continue
            },
            Command::StepInstruction => if idle {
                MenuAction::NotStarted
            } else {
                MenuAction::StepInstruction
            },
            Command::Step => if idle {
                MenuAction::NotStarted
            } else {
                MenuAction::StepInto
            },
            Command::Next => if idle {
                MenuAction::NotStarted
            } else {
                MenuAction::StepOver
            },
            Command::Finish => if idle {
                MenuAction::NotStarted
            } else {
                MenuAction::Finish
            },
            Command::List => if idle {
                MenuAction::NotStarted
            } else {
                MenuAction::ShowSource
            },
            Command::Quit => MenuAction::Quit,
            _ => MenuAction::Handle,
        }
    }
}

} // verus!

verus! {

/// `i` is where `line` first comes in `order`.
pub open spec fn first_at(order: Seq<u32>, line: u32, i: int) -> bool {
    &&& 0 <= i < order.len()
    &&& order[i] == line
    &&& forall|j: int| 0 <= j < i ==> order[j] != line
}

proof fn lemma_position_is_first(order: Seq<u32>, line: u32, i: int)
    requires
        first_at(order, line, i),
    ensures
        position_of(order, line) == Some(i),
{
    let k = choose|k: int| 0 <= k < order.len() && order[k] == line && forall|j: int| 0 <= j < k ==> order[j] != line;
    assert(0 <= k < order.len() && order[k] == line && forall|j: int| 0 <= j < k ==> order[j] != line);
    if k < i {
        assert(order[k] != line);
    } else if k > i {
        assert(order[i] != line);
    }
}

/// At a stop on a line that comes at position `cur` in the order in which the
/// compiler emitted the lines of its file, a variable declared on a line at
/// position `var` can be read only when its declaration comes strictly
/// before the stop; otherwise, in particular when it is declared on the line
/// of the stop itself, it is not initialised yet.
pub proof fn law_variable_readable_only_after_its_declaration(
    order: Seq<u32>,
    here: SourceLocation,
    decl_line: u32,
    cur: int,
    var: int,
)
    requires
        first_at(order, here.line, cur),
        first_at(order, decl_line, var),
    ensures
        variable_state(Some(order), Some(here), decl_line) is Readable <==> var < cur,
        !(var < cur) ==> variable_state(Some(order), Some(here), decl_line) is NotInitialized,
        decl_line == here.line ==> variable_state(Some(order), Some(here), decl_line) is NotInitialized,
{
    lemma_position_is_first(order, here.line, cur);
    lemma_position_is_first(order, decl_line, var);
}

/// Where no row covers the stop there is no location to judge by; where the
/// file of the stop has no recorded order, or the line of the stop or of the
/// declaration is not in it, the variable is read.
pub proof fn law_variable_readable_without_an_order(order: Option<Seq<u32>>, here: Option<SourceLocation>, decl_line: u32)
    ensures
        here is None ==> variable_state(order, here, decl_line) is NoLocation,
        here is Some && order is None ==> variable_state(order, here, decl_line) is Readable,
        ({
            let o = order->Some_0;
            let l = here->Some_0.line;
            here is Some && order is Some && (!o.contains(l) || !o.contains(decl_line)) ==> variable_state(
                order,
                here,
                decl_line,
            ) is Readable
        }),
{
    if here is Some && order is Some {
        let o = order->Some_0;
        let l = here->Some_0.line;
        if !o.contains(l) {
            assert(!(exists|i: int| 0 <= i < o.len() && o[i] == l));
        }
        if !o.contains(decl_line) {
            assert(!(exists|i: int| 0 <= i < o.len() && o[i] == decl_line));
        }
    }
}

} // verus!
