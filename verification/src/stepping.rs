//! The stepping commands as a state machine over the stops of the debuggee.
//!
//! Each time the debuggee stops with a trap, `DebugSession::handle_trap`
//! advances the command the user gave and says what the tracer does next:
//! which memory word to write back, where to move the instruction pointer,
//! where to arm a new breakpoint and how to resume.
use crate::breakpoint::{restored_word, BreakPoint, ManagedBreakpoint};
use crate::dwarf::{inline_at, PlatformRegStruct, RegisterViewer, ScopeCacheNode};
use crate::fxmap::{fx_get, fx_insert};
use crate::sys::SystemError;
use crate::session::{absolute, acquire_spec, every_entry_used, lemma_registry_keeps_used, release_spec, row_at, sorted_by_start, DebugSession};
use crate::types::{CurrentStopCmd, LineRow, SourceLocation, StringId};
use vstd::prelude::*;

verus! {

/// How the tracer resumes the debuggee after a stop.
#[derive(Debug, Clone, Copy, PartialEq, Eq, Structural)]
pub enum Resume {
    /// Execute one instruction.
    SingleStep,
    /// Run until the next signal.
    Continue,
    /// Resume nothing: the command is complete, the location is shown and
    /// the user is asked for the next command.
    Report,
    /// Open the user menu at once.
    Menu,
}

/// What a stop does to the breakpoints written into memory.
#[derive(Debug, Clone, Copy, PartialEq, Eq, Structural)]
pub enum BreakpointEffect {
    Keep,
    /// One more user of the breakpoint at this machine address.
    Acquire(u64),
    /// One user fewer of the breakpoint at this machine address.
    Release(u64),
    /// The breakpoint at this machine address was hit: it stays registered,
    /// disarmed.
    Disarm(u64),
}

/// The outcome of a stop: the next command, how the debuggee resumes, what
/// happens to the breakpoints and where the instruction pointer moves back to.
pub struct StopPlan {
    pub cmd: CurrentStopCmd,
    pub resume: Resume,
    pub effect: BreakpointEffect,
    pub rewind_to: Option<u64>,
}

/// What the tracer does after a stop: write `poke` (address, word) into the
/// debuggee, move the instruction pointer back to `rewind_to`, arm a new
/// breakpoint at `arm`, then resume as `resume` says.
#[derive(Debug, Clone, Copy)]
pub struct TrapAction {
    pub poke: Option<(u64, i64)>,
    pub rewind_to: Option<u64>,
    pub arm: Option<u64>,
    pub resume: Resume,
}

/// `address - base`, wrapping around as machine arithmetic does.
pub open spec fn relative(base: u64, address: u64) -> u64 {
    if address >= base {
        (address - base) as u64
    } else {
        (address - base + 0x1_0000_0000_0000_0000) as u64
    }
}

/// The address of the one-byte INT3 instruction that has just trapped, given
/// the instruction pointer after it (wrapping).
pub open spec fn trap_address(rip: u64) -> u64 {
    if rip >= 1 {
        (rip - 1) as u64
    } else {
        u64::MAX
    }
}

/// Execute one more instruction under the same command.
pub open spec fn keep_stepping(cmd: CurrentStopCmd) -> StopPlan {
    StopPlan { cmd, resume: Resume::SingleStep, effect: BreakpointEffect::Keep, rewind_to: None }
}

/// The command is done.
pub open spec fn complete() -> StopPlan {
    StopPlan {
        cmd: CurrentStopCmd::Completed,
        resume: Resume::Report,
        effect: BreakpointEffect::Keep,
        rewind_to: None,
    }
}

/// Whether a step over that started at `start_file:start_line` ends on `row`,
/// reached in the frame where it started: another line of the same file, or,
/// for a step that started in inlined code, any place outside inlined code.
pub open spec fn step_over_ends(
    row: LineRow,
    start_file: StringId,
    start_line: u32,
    started_from_inline: bool,
    in_inline: bool,
) -> bool {
    ||| row.location.file == start_file && row.location.line != start_line
    ||| started_from_inline && !in_inline
}

/// The hit of the temporary breakpoint at a return address: the breakpoint
/// is given up and the instruction pointer moved back onto it; at the awaited
/// address the command goes on with `then`, elsewhere the debuggee runs on.
pub open spec fn return_hit(cmd: CurrentStopCmd, target: u64, trap: u64, then: CurrentStopCmd) -> StopPlan {
    StopPlan {
        cmd: if target == trap { then } else { cmd },
        resume: if target == trap { Resume::SingleStep } else { Resume::Continue },
        effect: BreakpointEffect::Release(trap),
        rewind_to: Some(trap),
    }
}

/// What a trap does under command `cmd`, given the line table `rows`, the
/// scopes, the load address, the registered breakpoints, the registers at the
/// stop, the memory word at the trap address (if it could be read) and the
/// return address of the current frame (if it could be found).
pub open spec fn plan_stop(
    cmd: CurrentStopCmd,
    rows: Seq<LineRow>,
    scopes: Seq<ScopeCacheNode>,
    base: u64,
    bps: Map<u64, ManagedBreakpoint>,
    regs: PlatformRegStruct,
    word: Option<i64>,
    return_address: Option<u64>,
) -> StopPlan {
    let pc = relative(base, regs.rip);
    let trap = trap_address(regs.rip);
    match cmd {
        CurrentStopCmd::SingleStep => complete(),
        CurrentStopCmd::StepInto { start_file, start_line } => match row_at(rows, pc) {
            None => keep_stepping(cmd),
            Some(row) => if row.location.file != start_file || row.location.line != start_line {
                complete()
            } else {
                keep_stepping(cmd)
            },
        },
        CurrentStopCmd::StepOver {
            start_stack_pointer,
            start_file,
            start_line,
            started_from_inline,
        } => if regs.rsp > start_stack_pointer {
            complete()
        } else if regs.rsp == start_stack_pointer {
            match row_at(rows, pc) {
                Some(row) => if row.is_stmt && step_over_ends(
                    row,
                    start_file,
                    start_line,
                    started_from_inline,
                    inline_at(scopes, pc, 0),
                ) {
                    complete()
                } else {
                    keep_stepping(cmd)
                },
                None => keep_stepping(cmd),
            }
        } else {
            match return_address {
                None => keep_stepping(cmd),
                Some(a) => StopPlan {
                    cmd: CurrentStopCmd::StepOut {
                        original_stack_pointer: start_stack_pointer,
                        original_file: start_file,
                        original_line: start_line,
                        return_address: a,
                        started_from_inline,
                    },
                    resume: Resume::Continue,
                    effect: BreakpointEffect::Acquire(a),
                    rewind_to: None,
                },
            }
        },
        CurrentStopCmd::StepOut {
            original_stack_pointer,
            original_file,
            original_line,
            return_address: target,
            started_from_inline,
        } => return_hit(
            cmd,
            target,
            trap,
            CurrentStopCmd::FinishStepOver {
                original_stack_pointer,
                original_file,
                original_line,
                started_from_inline,
            },
        ),
        CurrentStopCmd::FinishStepOver {
            original_stack_pointer,
            original_file,
            original_line,
            started_from_inline,
        } => if original_stack_pointer >= regs.rsp {
            keep_stepping(
                CurrentStopCmd::StepOver {
                    start_stack_pointer: original_stack_pointer,
                    start_file: original_file,
                    start_line: original_line,
                    started_from_inline,
                },
            )
        } else {
            complete()
        },
        CurrentStopCmd::Finish { start_stack_pointer, started_from_inline } => if regs.rsp
            > start_stack_pointer {
            complete()
        } else if started_from_inline && regs.rsp == start_stack_pointer {
            if !inline_at(scopes, pc, 0) {
                complete()
            } else {
                keep_stepping(cmd)
            }
        } else {
            match return_address {
                None => keep_stepping(cmd),
                Some(a) => StopPlan {
                    cmd: CurrentStopCmd::StepOutFinish {
                        original_stack_pointer: start_stack_pointer,
                        return_address: a,
                        started_from_inline,
                    },
                    resume: Resume::Continue,
                    effect: BreakpointEffect::Acquire(a),
                    rewind_to: None,
                },
            }
        },
        CurrentStopCmd::StepOutFinish {
            original_stack_pointer,
            return_address: target,
            started_from_inline,
        } => return_hit(
            cmd,
            target,
            trap,
            CurrentStopCmd::CompleteFinish {
                start_stack_pointer: original_stack_pointer,
                started_from_inline,
            },
        ),
        CurrentStopCmd::CompleteFinish { start_stack_pointer, started_from_inline } => if start_stack_pointer
            >= regs.rsp {
            keep_stepping(CurrentStopCmd::Finish { start_stack_pointer, started_from_inline })
        } else {
            complete()
        },
        CurrentStopCmd::SearchingForValidLocation => if row_at(rows, pc) is Some {
            complete()
        } else {
            keep_stepping(cmd)
        },
        CurrentStopCmd::Running | CurrentStopCmd::Continuing => match word {
            None => StopPlan {
                cmd,
                resume: Resume::Continue,
                effect: BreakpointEffect::Keep,
                rewind_to: None,
            },
            Some(_) => if bps.contains_key(trap) {
                StopPlan {
                    cmd,
                    resume: Resume::Menu,
                    effect: BreakpointEffect::Disarm(trap),
                    rewind_to: Some(trap),
                }
            } else {
                StopPlan { cmd, resume: Resume::Menu, effect: BreakpointEffect::Keep, rewind_to: None }
            },
        },
        CurrentStopCmd::Idle | CurrentStopCmd::Completed => StopPlan {
            cmd,
            resume: Resume::Report,
            effect: BreakpointEffect::Keep,
            rewind_to: None,
        },
    }
}

/// The breakpoint at `a` with its original byte back in memory, still registered.
pub open spec fn disarmed(m: Map<u64, ManagedBreakpoint>, a: u64) -> Map<u64, ManagedBreakpoint> {
    if m.contains_key(a) {
        m.insert(
            a,
            ManagedBreakpoint {
                breakpoint: BreakPoint { is_enabled: false, ..m[a].breakpoint },
                ..m[a]
            },
        )
    } else {
        m
    }
}

/// The registered breakpoints after an effect.
pub open spec fn apply_effect(m: Map<u64, ManagedBreakpoint>, e: BreakpointEffect) -> Map<u64, ManagedBreakpoint> {
    match e {
        BreakpointEffect::Keep => m,
        BreakpointEffect::Acquire(a) => acquire_spec(m, a),
        BreakpointEffect::Release(a) => release_spec(m, a),
        BreakpointEffect::Disarm(a) => disarmed(m, a),
    }
}

/// The machine address at which an effect needs a new breakpoint armed.
pub open spec fn effect_arms(m: Map<u64, ManagedBreakpoint>, e: BreakpointEffect) -> Option<u64> {
    match e {
        BreakpointEffect::Acquire(a) => if m.contains_key(a) {
            None
        } else {
            Some(a)
        },
        _ => None,
    }
}

/// The memory word an effect writes back (address and word), given the word
/// now at the trap address: the saved byte of an armed breakpoint that is
/// released for the last time or disarmed.
pub open spec fn effect_poke(m: Map<u64, ManagedBreakpoint>, e: BreakpointEffect, word: Option<i64>) -> Option<(u64, i64)> {
    match (e, word) {
        (BreakpointEffect::Release(a), Some(w)) => if m.contains_key(a) && m[a].ref_count <= 1
            && m[a].breakpoint.is_enabled {
            Some((a, restored_word(w, m[a].breakpoint.original_byte)))
        } else {
            None
        },
        (BreakpointEffect::Disarm(a), Some(w)) => if m.contains_key(a)
            && m[a].breakpoint.is_enabled {
            Some((a, restored_word(w, m[a].breakpoint.original_byte)))
        } else {
            None
        },
        _ => None,
    }
}

/// The registers after the instruction pointer is moved back to `rewind_to`.
pub open spec fn rewound(regs: RegisterViewer, rewind_to: Option<u64>) -> RegisterViewer {
    match rewind_to {
        Some(a) => RegisterViewer { regs: PlatformRegStruct { rip: a, ..regs.regs } },
        None => regs,
    }
}

proof fn lemma_absolute_relative(base: u64, a: u64)
    ensures
        absolute(base, relative(base, a)) == a,
{
    if a >= base {
        assert((base + (a - base)) % 0x1_0000_0000_0000_0000int == a as int);
    } else {
        assert((a + 0x1_0000_0000_0000_0000int) % 0x1_0000_0000_0000_0000int == a as int) by {
            vstd::arithmetic::div_mod::lemma_mod_add_multiples_vanish(
                a as int,
                0x1_0000_0000_0000_0000int,
            );
            vstd::arithmetic::div_mod::lemma_small_mod(a as nat, 0x1_0000_0000_0000_0000nat);
        }
    }
}

/// Resume with one more instruction.
fn step_action() -> (r: TrapAction)
    ensures
        r == (TrapAction { poke: None, rewind_to: None, arm: None, resume: Resume::SingleStep }),
{
    TrapAction { poke: None, rewind_to: None, arm: None, resume: Resume::SingleStep }
}

/// Resume nothing; or resume in the plain way `resume` says.
fn plain_action(resume: Resume) -> (r: TrapAction)
    ensures
        r == (TrapAction { poke: None, rewind_to: None, arm: None, resume }),
{
    TrapAction { poke: None, rewind_to: None, arm: None, resume }
}

impl DebugSession {
    /// The line row covering the instruction at machine address `rip`.
    fn row_at_machine(&self, rip: u64) -> (r: Option<LineRow>)
        requires
            sorted_by_start(self.line_row@),
        ensures
            r == row_at(self.line_row@, relative(self.base_address, rip)),
    {
        match self.find_line_range(rip.wrapping_sub(self.base_address)) {
            Some(row) => Some(*row),
            None => None,
        }
    }

    /// One more user of the breakpoint at machine address `a`; returns the
    /// address when it needs arming.
    fn acquire_at(&mut self, a: u64) -> (r: Option<u64>)
        ensures
            final(self).active_breakpoints@ == acquire_spec(old(self).active_breakpoints@, a),
            r == effect_arms(old(self).active_breakpoints@, BreakpointEffect::Acquire(a)),
            Self::same_program(final(self), old(self)),
            final(self).breakpoint_index_tracker@ == old(self).breakpoint_index_tracker@,
            final(self).current_cmd == old(self).current_cmd,
    {
        proof {
            lemma_absolute_relative(self.base_address, a);
        }
        self.create_specific_breakpoint(a.wrapping_sub(self.base_address))
    }

    /// One user fewer of the breakpoint at machine address `a`, given the word
    /// now in memory there; returns the word to write back.
    fn release_at(&mut self, a: u64, word: Option<i64>) -> (r: Option<(u64, i64)>)
        ensures
            final(self).active_breakpoints@ == release_spec(old(self).active_breakpoints@, a),
            r == effect_poke(old(self).active_breakpoints@, BreakpointEffect::Release(a), word),
            Self::same_program(final(self), old(self)),
            final(self).breakpoint_index_tracker@ == old(self).breakpoint_index_tracker@,
            final(self).current_cmd == old(self).current_cmd,
    {
        proof {
            lemma_absolute_relative(self.base_address, a);
        }
        match self.clear_specific_breakpoint(a.wrapping_sub(self.base_address)) {
            Some(bp) => match word {
                Some(w) => {
                    let mut bp = bp;
                    match bp.disable(w) {
                        Some(restored) => Some((a, restored)),
                        None => None,
                    }
                },
                None => None,
            },
            None => None,
        }
    }

    /// Disarms the breakpoint at machine address `a` (it stays registered),
    /// given the word now in memory there; returns the word to write back.
    fn disarm_at(&mut self, a: u64, word: i64) -> (r: Option<(u64, i64)>)
        ensures
            final(self).active_breakpoints@ == disarmed(old(self).active_breakpoints@, a),
            r == effect_poke(old(self).active_breakpoints@, BreakpointEffect::Disarm(a), Some(word)),
            Self::same_program(final(self), old(self)),
            final(self).breakpoint_index_tracker@ == old(self).breakpoint_index_tracker@,
            final(self).current_cmd == old(self).current_cmd,
    {
        match fx_get(&self.active_breakpoints, &a) {
            Some(managed) => {
                let mut updated = *managed;
                let restored = updated.breakpoint.disable(word);
                fx_insert(&mut self.active_breakpoints, a, updated);
                match restored {
                    Some(w) => Some((a, w)),
                    None => None,
                }
            },
            None => None,
        }
    }

    /// The plan of a stop under `cmd` for this session.
    pub open spec fn plan_for(&self, cmd: CurrentStopCmd, regs: RegisterViewer, word: Option<i64>, return_address: Option<u64>) -> StopPlan {
        plan_stop(
            cmd,
            self.line_row@,
            self.metadata.execution_scopes@,
            self.base_address,
            self.active_breakpoints@,
            regs.regs,
            word,
            return_address,
        )
    }

    /// A stop under a command that only looks at the location: a single
    /// step, a step into, or the search for a location with line information.
    fn trap_locate(&self, cmd: CurrentStopCmd, regs: RegisterViewer) -> (r: (CurrentStopCmd, TrapAction))
        requires
            sorted_by_start(self.line_row@),
            cmd is SingleStep || cmd is StepInto || cmd is SearchingForValidLocation,
        ensures
            conforms(self.plan_for(cmd, regs, None, None), self.active_breakpoints@, self.active_breakpoints@, None, r.0, r.1),
            forall|w: Option<i64>, a: Option<u64>| #[trigger] self.plan_for(cmd, regs, w, a) == self.plan_for(cmd, regs, None, None),
    {
        let rip = regs.instruction_pointer();
        match cmd {
            CurrentStopCmd::StepInto { start_file, start_line } => match self.row_at_machine(rip) {
                None => (cmd, step_action()),
                Some(row) => if row.location.file.0 != start_file.0 || row.location.line
                    != start_line {
                    (CurrentStopCmd::Completed, plain_action(Resume::Report))
                } else {
                    (cmd, step_action())
                },
            },
            CurrentStopCmd::SearchingForValidLocation => if self.row_at_machine(rip).is_some() {
                (CurrentStopCmd::Completed, plain_action(Resume::Report))
            } else {
                (cmd, step_action())
            },
            _ => (CurrentStopCmd::Completed, plain_action(Resume::Report)),
        }
    }

    /// A stop while stepping over a line.
    fn trap_step_over(&mut self, cmd: CurrentStopCmd, regs: RegisterViewer, return_address: Option<u64>) -> (r: (CurrentStopCmd, TrapAction))
        requires
            sorted_by_start(old(self).line_row@),
            cmd is StepOver || cmd is FinishStepOver,
        ensures
            conforms(old(self).plan_for(cmd, regs, None, return_address), old(self).active_breakpoints@, final(self).active_breakpoints@, None, r.0, r.1),
            forall|w: Option<i64>| #[trigger] old(self).plan_for(cmd, regs, w, return_address) == old(self).plan_for(cmd, regs, None, return_address),
            Self::same_program(final(self), old(self)),
            final(self).breakpoint_index_tracker@ == old(self).breakpoint_index_tracker@,
            final(self).current_cmd == old(self).current_cmd,
    {
        let rip = regs.instruction_pointer();
        let rsp = regs.stack_pointer();
        match cmd {
            CurrentStopCmd::StepOver {
                start_stack_pointer,
                start_file,
                start_line,
                started_from_inline,
            } => if rsp > start_stack_pointer {
                (CurrentStopCmd::Completed, plain_action(Resume::Report))
            } else if rsp == start_stack_pointer {
                match self.row_at_machine(rip) {
                    None => (cmd, step_action()),
                    Some(row) => {
                        let pc = rip.wrapping_sub(self.base_address);
                        let ends = (row.location.file.0 == start_file.0 && row.location.line
                            != start_line) || (started_from_inline
                            && !self.metadata.is_in_inline(pc));
                        if row.is_stmt && ends {
                            (CurrentStopCmd::Completed, plain_action(Resume::Report))
                        } else {
                            (cmd, step_action())
                        }
                    },
                }
            } else {
                match return_address {
                    None => (cmd, step_action()),
                    Some(a) => {
                        let arm = self.acquire_at(a);
                        (
                            CurrentStopCmd::StepOut {
                                original_stack_pointer: start_stack_pointer,
                                original_file: start_file,
                                original_line: start_line,
                                return_address: a,
                                started_from_inline,
                            },
                            TrapAction { poke: None, rewind_to: None, arm, resume: Resume::Continue },
                        )
                    },
                }
            },
            CurrentStopCmd::FinishStepOver {
                original_stack_pointer,
                original_file,
                original_line,
                started_from_inline,
            } => if original_stack_pointer >= rsp {
                (
                    CurrentStopCmd::StepOver {
                        start_stack_pointer: original_stack_pointer,
                        start_file: original_file,
                        start_line: original_line,
                        started_from_inline,
                    },
                    step_action(),
                )
            } else {
                (CurrentStopCmd::Completed, plain_action(Resume::Report))
            },
            _ => (cmd, step_action()),
        }
    }

    /// A stop while finishing the current function.
    fn trap_finish(&mut self, cmd: CurrentStopCmd, regs: RegisterViewer, return_address: Option<u64>) -> (r: (CurrentStopCmd, TrapAction))
        requires
            cmd is Finish || cmd is CompleteFinish,
        ensures
            conforms(old(self).plan_for(cmd, regs, None, return_address), old(self).active_breakpoints@, final(self).active_breakpoints@, None, r.0, r.1),
            forall|w: Option<i64>| #[trigger] old(self).plan_for(cmd, regs, w, return_address) == old(self).plan_for(cmd, regs, None, return_address),
            Self::same_program(final(self), old(self)),
            final(self).breakpoint_index_tracker@ == old(self).breakpoint_index_tracker@,
            final(self).current_cmd == old(self).current_cmd,
    {
        let rip = regs.instruction_pointer();
        let rsp = regs.stack_pointer();
        match cmd {
            CurrentStopCmd::Finish { start_stack_pointer, started_from_inline } => if rsp
                > start_stack_pointer {
                (CurrentStopCmd::Completed, plain_action(Resume::Report))
            } else if started_from_inline && rsp == start_stack_pointer {
                if !self.metadata.is_in_inline(rip.wrapping_sub(self.base_address)) {
                    (CurrentStopCmd::Completed, plain_action(Resume::Report))
                } else {
                    (cmd, step_action())
                }
            } else {
                match return_address {
                    None => (cmd, step_action()),
                    Some(a) => {
                        let arm = self.acquire_at(a);
                        (
                            CurrentStopCmd::StepOutFinish {
                                original_stack_pointer: start_stack_pointer,
                                return_address: a,
                                started_from_inline,
                            },
                            TrapAction { poke: None, rewind_to: None, arm, resume: Resume::Continue },
                        )
                    },
                }
            },
            CurrentStopCmd::CompleteFinish { start_stack_pointer, started_from_inline } => if start_stack_pointer >= rsp {
                (
                    CurrentStopCmd::Finish { start_stack_pointer, started_from_inline },
                    step_action(),
                )
            } else {
                (CurrentStopCmd::Completed, plain_action(Resume::Report))
            },
            _ => (cmd, step_action()),
        }
    }

    /// A stop at the temporary breakpoint on a return address (or another
    /// breakpoint hit on the way there).
    fn trap_return_hit(&mut self, cmd: CurrentStopCmd, regs: RegisterViewer, word: Option<i64>) -> (r: (CurrentStopCmd, TrapAction))
        requires
            cmd is StepOut || cmd is StepOutFinish,
        ensures
            conforms(old(self).plan_for(cmd, regs, word, None), old(self).active_breakpoints@, final(self).active_breakpoints@, word, r.0, r.1),
            forall|a: Option<u64>| #[trigger] old(self).plan_for(cmd, regs, word, a) == old(self).plan_for(cmd, regs, word, None),
            Self::same_program(final(self), old(self)),
            final(self).breakpoint_index_tracker@ == old(self).breakpoint_index_tracker@,
            final(self).current_cmd == old(self).current_cmd,
    {
        let rip = regs.instruction_pointer();
        let trap = if rip >= 1 {
            rip - 1
        } else {
            u64::MAX
        };
        let poke = self.release_at(trap, word);
        let (target, then) = match cmd {
            CurrentStopCmd::StepOut {
                original_stack_pointer,
                original_file,
                original_line,
                return_address,
                started_from_inline,
            } => (
                return_address,
                CurrentStopCmd::FinishStepOver {
                    original_stack_pointer,
                    original_file,
                    original_line,
                    started_from_inline,
                },
            ),
            CurrentStopCmd::StepOutFinish {
                original_stack_pointer,
                return_address,
                started_from_inline,
            } => (
                return_address,
                CurrentStopCmd::CompleteFinish {
                    start_stack_pointer: original_stack_pointer,
                    started_from_inline,
                },
            ),
            _ => (trap, cmd),
        };
        if target == trap {
            (then, TrapAction { poke, rewind_to: Some(trap), arm: None, resume: Resume::SingleStep })
        } else {
            (cmd, TrapAction { poke, rewind_to: Some(trap), arm: None, resume: Resume::Continue })
        }
    }

    /// A stop while the debuggee runs freely: a breakpoint hit, or a trap
    /// from elsewhere.
    fn trap_running(&mut self, cmd: CurrentStopCmd, regs: RegisterViewer, word: Option<i64>) -> (r: (CurrentStopCmd, TrapAction))
        requires
            cmd is Running || cmd is Continuing,
        ensures
            conforms(old(self).plan_for(cmd, regs, word, None), old(self).active_breakpoints@, final(self).active_breakpoints@, word, r.0, r.1),
            forall|a: Option<u64>| #[trigger] old(self).plan_for(cmd, regs, word, a) == old(self).plan_for(cmd, regs, word, None),
            Self::same_program(final(self), old(self)),
            final(self).breakpoint_index_tracker@ == old(self).breakpoint_index_tracker@,
            final(self).current_cmd == old(self).current_cmd,
    {
        let rip = regs.instruction_pointer();
        let trap = if rip >= 1 {
            rip - 1
        } else {
            u64::MAX
        };
        match word {
            None => (cmd, plain_action(Resume::Continue)),
            Some(w) => if fx_get(&self.active_breakpoints, &trap).is_some() {
                let poke = self.disarm_at(trap, w);
                (cmd, TrapAction { poke, rewind_to: Some(trap), arm: None, resume: Resume::Menu })
            } else {
                (cmd, plain_action(Resume::Menu))
            },
        }
    }

    /// Advances the current command on a trap of the debuggee, given the
    /// registers at the stop, the memory word at the address just before the
    /// instruction pointer (`None` when it could not be read) and the return
    /// address of the current frame (`None` when it could not be found).
    /// Records the registers (with the instruction pointer moved back onto a
    /// breakpoint that was hit) and says what the tracer does next.
    pub fn handle_trap(&mut self, regs: RegisterViewer, word: Option<i64>, return_address: Option<u64>) -> (r: TrapAction)
        requires
            sorted_by_start(old(self).line_row@),
            !(old(self).current_cmd is Idle),
            !(old(self).current_cmd is Completed),
        ensures
            ({
                let plan = old(self).plan_for(old(self).current_cmd, regs, word, return_address);
                &&& final(self).current_cmd == plan.cmd
                &&& r.resume == plan.resume
                &&& r.rewind_to == plan.rewind_to
                &&& final(self).active_breakpoints@ == apply_effect(
                    old(self).active_breakpoints@,
                    plan.effect,
                )
                &&& r.arm == effect_arms(old(self).active_breakpoints@, plan.effect)
                &&& r.poke == effect_poke(old(self).active_breakpoints@, plan.effect, word)
                &&& final(self).registers == Some(rewound(regs, plan.rewind_to))
            }),
            Self::same_image(final(self), old(self)),
            final(self).breakpoint_index_tracker@ == old(self).breakpoint_index_tracker@,
            every_entry_used(old(self).active_breakpoints@) ==> every_entry_used(final(self).active_breakpoints@),
    {
        proof {
            let m = self.active_breakpoints@;
            if every_entry_used(m) {
                lemma_registry_keeps_used(m, self.base_address);
                assert forall|a: u64| every_entry_used(#[trigger] disarmed(m, a)) by {
                    assert forall|b: u64| #[trigger] disarmed(m, a).contains_key(b) implies disarmed(m, a)[b].ref_count >= 1 by {
                        assert(m.contains_key(b));
                    }
                }
                assert forall|e: BreakpointEffect| every_entry_used(#[trigger] apply_effect(m, e)) by {
                    match e {
                        BreakpointEffect::Acquire(a) => assert(every_entry_used(acquire_spec(m, a))),
                        BreakpointEffect::Release(a) => assert(every_entry_used(release_spec(m, a))),
                        BreakpointEffect::Disarm(a) => assert(every_entry_used(disarmed(m, a))),
                        BreakpointEffect::Keep => {},
                    }
                }
            }
        }
        let cmd = self.current_cmd;
        let (next, action) = match cmd {
            CurrentStopCmd::SingleStep
            | CurrentStopCmd::StepInto { .. }
            | CurrentStopCmd::SearchingForValidLocation => self.trap_locate(cmd, regs),
            CurrentStopCmd::StepOver { .. } | CurrentStopCmd::FinishStepOver { .. } => self.trap_step_over(cmd, regs, return_address),
            CurrentStopCmd::Finish { .. } | CurrentStopCmd::CompleteFinish { .. } => self.trap_finish(cmd, regs, return_address),
            CurrentStopCmd::StepOut { .. } | CurrentStopCmd::StepOutFinish { .. } => self.trap_return_hit(cmd, regs, word),
            _ => self.trap_running(cmd, regs, word),
        };
        self.current_cmd = next;
        self.registers = Some(
            match action.rewind_to {
                Some(a) => RegisterViewer { regs: PlatformRegStruct { rip: a, ..regs.regs } },
                None => regs,
            },
        );
        action
    }
}

/// `next` and `action` carry out `plan` on the breakpoints `m0`, which become `m1`.
pub open spec fn conforms(
    plan: StopPlan,
    m0: Map<u64, ManagedBreakpoint>,
    m1: Map<u64, ManagedBreakpoint>,
    word: Option<i64>,
    next: CurrentStopCmd,
    action: TrapAction,
) -> bool {
    &&& next == plan.cmd
    &&& action.resume == plan.resume
    &&& action.rewind_to == plan.rewind_to
    &&& m1 == apply_effect(m0, plan.effect)
    &&& action.arm == effect_arms(m0, plan.effect)
    &&& action.poke == effect_poke(m0, plan.effect, word)
}

} // verus!

verus! {

/// The source location of the instruction at machine address `rip`.
pub open spec fn location_at(rows: Seq<LineRow>, base: u64, rip: u64) -> Option<SourceLocation> {
    match row_at(rows, relative(base, rip)) {
        Some(row) => Some(row.location),
        None => None,
    }
}

/// The location of the stop at `regs`, when they could be read.
pub open spec fn location_of(rows: Seq<LineRow>, base: u64, regs: Option<RegisterViewer>) -> Option<SourceLocation> {
    match regs {
        Some(r) => location_at(rows, base, r.regs.rip),
        None => None,
    }
}

/// Whether the instruction at machine address `rip` lies in inlined code.
pub open spec fn inline_at_machine(scopes: Seq<ScopeCacheNode>, base: u64, rip: u64) -> bool {
    inline_at(scopes, relative(base, rip), 0)
}

impl DebugSession {
    /// Everything but the current command and the registers is unchanged.
    pub open spec fn only_command_changed(a: &DebugSession, b: &DebugSession) -> bool {
        &&& Self::same_image(a, b)
        &&& a.active_breakpoints@ == b.active_breakpoints@
        &&& a.breakpoint_index_tracker@ == b.breakpoint_index_tracker@
    }

    /// The registers of the stop: those recorded, or else what
    /// `read_registers` reads from the debuggee.
    pub fn get_regs<F: Fn() -> Result<RegisterViewer, SystemError>>(&self, read_registers: &F) -> (r: Result<
        RegisterViewer,
        SystemError,
    >)
        requires
            read_registers.requires(()),
        ensures
            match self.registers {
                Some(regs) => r == Ok::<RegisterViewer, SystemError>(regs),
                None => read_registers.ensures((), r),
            },
    {
        match self.registers {
            Some(regs) => Ok(regs),
            None => read_registers(),
        }
    }

    /// The location where the debuggee is stopped, by the registers of the
    /// stop `regs` (none where they could not be read).
    pub fn current_location(&self, regs: Option<RegisterViewer>) -> (r: Option<&SourceLocation>)
        requires
            sorted_by_start(self.line_row@),
        ensures
            match location_of(self.line_row@, self.base_address, regs) {
                Some(l) => r == Some(&l),
                None => r is None,
            },
    {
        match regs {
            Some(regs) => match self.find_line_range(
                regs.instruction_pointer().wrapping_sub(self.base_address),
            ) {
                Some(row) => Some(&row.location),
                None => None,
            },
            None => None,
        }
    }

    /// Starts a single step.
    pub fn complete_single_step(&mut self)
        ensures
            final(self).current_cmd is SingleStep,
            final(self).registers is None,
            Self::only_command_changed(final(self), old(self)),
    {
        self.invalidate_register();
        self.current_cmd = CurrentStopCmd::SingleStep;
    }

    /// Starts a step into from the stop at `regs` (`None` when they could not
    /// be read): stepping until the line changes, or, where the stop has no
    /// line information, until a place that has.
    pub fn begin_step_into(&mut self, regs: Option<RegisterViewer>)
        requires
            sorted_by_start(old(self).line_row@),
        ensures
            match location_of(old(self).line_row@, old(self).base_address, regs) {
                Some(l) => final(self).current_cmd == (CurrentStopCmd::StepInto {
                    start_file: l.file,
                    start_line: l.line,
                }),
                None => final(self).current_cmd is SearchingForValidLocation,
            },
            final(self).registers is None,
            Self::only_command_changed(final(self), old(self)),
    {
        self.invalidate_register();
        let here = match regs {
            Some(r) => self.row_at_machine(r.instruction_pointer()),
            None => None,
        };
        match here {
            Some(row) => {
                self.current_cmd = CurrentStopCmd::StepInto {
                    start_file: row.location.file,
                    start_line: row.location.line,
                };
            },
            None => {
                self.current_cmd = CurrentStopCmd::SearchingForValidLocation;
            },
        }
    }

    /// Starts a step over from the stop at `regs` (`None` when they could not
    /// be read): stepping to another line of the same frame, running through
    /// calls, or, where the stop has no line information, until a place that has.
    pub fn begin_step_over(&mut self, regs: Option<RegisterViewer>)
        requires
            sorted_by_start(old(self).line_row@),
        ensures
            match (regs, location_of(old(self).line_row@, old(self).base_address, regs)) {
                (Some(r), Some(l)) => final(self).current_cmd == (CurrentStopCmd::StepOver {
                    start_stack_pointer: r.regs.rsp,
                    start_file: l.file,
                    start_line: l.line,
                    started_from_inline: inline_at_machine(
                        old(self).metadata.execution_scopes@,
                        old(self).base_address,
                        r.regs.rip,
                    ),
                }),
                _ => final(self).current_cmd is SearchingForValidLocation,
            },
            final(self).registers is None,
            Self::only_command_changed(final(self), old(self)),
    {
        self.invalidate_register();
        match regs {
            Some(r) => match self.row_at_machine(r.instruction_pointer()) {
                Some(row) => {
                    let is_inline = self.metadata.is_in_inline(
                        r.instruction_pointer().wrapping_sub(self.base_address),
                    );
                    self.current_cmd = CurrentStopCmd::StepOver {
                        start_stack_pointer: r.stack_pointer(),
                        start_file: row.location.file,
                        start_line: row.location.line,
                        started_from_inline: is_inline,
                    };
                },
                None => {
                    self.current_cmd = CurrentStopCmd::SearchingForValidLocation;
                },
            },
            None => {
                self.current_cmd = CurrentStopCmd::SearchingForValidLocation;
            },
        }
    }

    /// Starts running to the end of the current function from the stop at `regs`.
    pub fn begin_finish(&mut self, regs: RegisterViewer)
        ensures
            final(self).current_cmd == (CurrentStopCmd::Finish {
                start_stack_pointer: regs.regs.rsp,
                started_from_inline: inline_at_machine(
                    old(self).metadata.execution_scopes@,
                    old(self).base_address,
                    regs.regs.rip,
                ),
            }),
            final(self).registers is None,
            Self::only_command_changed(final(self), old(self)),
    {
        self.invalidate_register();
        let is_inline = self.metadata.is_in_inline(
            regs.instruction_pointer().wrapping_sub(self.base_address),
        );
        self.current_cmd = CurrentStopCmd::Finish {
            start_stack_pointer: regs.stack_pointer(),
            started_from_inline: is_inline,
        };
    }
}

/// Stepping over a call leaves no breakpoint behind: the stop inside the
/// callee arms a temporary breakpoint at the return address (where none was
/// registered), and the stop on that breakpoint takes it away again, moves
/// the instruction pointer back onto it and goes on with the step over.
pub proof fn law_step_over_call_cleans_up(
    cmd: CurrentStopCmd,
    rows: Seq<LineRow>,
    scopes: Seq<ScopeCacheNode>,
    base: u64,
    m: Map<u64, ManagedBreakpoint>,
    in_callee: PlatformRegStruct,
    at_return: PlatformRegStruct,
    word1: Option<i64>,
    word2: Option<i64>,
    return_address: u64,
    later_return_address: Option<u64>,
)
    requires
        cmd matches CurrentStopCmd::StepOver { start_stack_pointer, .. } && in_callee.rsp
            < start_stack_pointer,
        !m.contains_key(return_address),
        return_address < u64::MAX,
        at_return.rip == return_address + 1,
    ensures
        ({
            let first = plan_stop(cmd, rows, scopes, base, m, in_callee, word1, Some(return_address));
            let m1 = apply_effect(m, first.effect);
            let second = plan_stop(first.cmd, rows, scopes, base, m1, at_return, word2, later_return_address);
            &&& effect_arms(m, first.effect) == Some(return_address)
            &&& first.resume == Resume::Continue
            &&& apply_effect(m1, second.effect) == m
            &&& second.cmd is FinishStepOver
            &&& second.rewind_to == Some(return_address)
            &&& second.resume == Resume::SingleStep
        }),
{
    let first = plan_stop(cmd, rows, scopes, base, m, in_callee, word1, Some(return_address));
    let m1 = apply_effect(m, first.effect);
    assert(release_spec(acquire_spec(m, return_address), return_address) =~= m);
}

/// Finishing a function called from the current frame leaves no breakpoint
/// behind, in the same way as stepping over a call.
pub proof fn law_finish_cleans_up(
    cmd: CurrentStopCmd,
    rows: Seq<LineRow>,
    scopes: Seq<ScopeCacheNode>,
    base: u64,
    m: Map<u64, ManagedBreakpoint>,
    in_callee: PlatformRegStruct,
    at_return: PlatformRegStruct,
    word1: Option<i64>,
    word2: Option<i64>,
    return_address: u64,
    later_return_address: Option<u64>,
)
    requires
        cmd matches CurrentStopCmd::Finish { start_stack_pointer, .. } && in_callee.rsp
            < start_stack_pointer,
        !m.contains_key(return_address),
        return_address < u64::MAX,
        at_return.rip == return_address + 1,
    ensures
        ({
            let first = plan_stop(cmd, rows, scopes, base, m, in_callee, word1, Some(return_address));
            let m1 = apply_effect(m, first.effect);
            let second = plan_stop(first.cmd, rows, scopes, base, m1, at_return, word2, later_return_address);
            &&& effect_arms(m, first.effect) == Some(return_address)
            &&& first.resume == Resume::Continue
            &&& apply_effect(m1, second.effect) == m
            &&& second.cmd is CompleteFinish
            &&& second.rewind_to == Some(return_address)
            &&& second.resume == Resume::SingleStep
        }),
{
    assert(release_spec(acquire_spec(m, return_address), return_address) =~= m);
}

/// A single step is complete at the very next stop.
pub proof fn law_single_step_completes(
    rows: Seq<LineRow>,
    scopes: Seq<ScopeCacheNode>,
    base: u64,
    m: Map<u64, ManagedBreakpoint>,
    regs: PlatformRegStruct,
    word: Option<i64>,
    return_address: Option<u64>,
)
    ensures
        plan_stop(CurrentStopCmd::SingleStep, rows, scopes, base, m, regs, word, return_address)
            == complete(),
{
}

} // verus!

verus! {

/// Stepping into from `start_file:start_line`: a stop at a row of another
/// file or of another line completes the command and reports where it
/// stopped; a stop on the starting line, or where no row covers the program
/// counter, single-steps on under the same command. Nothing is armed or
/// released, and the instruction pointer stays.
pub proof fn law_step_into_stops_on_a_new_line(
    start_file: StringId,
    start_line: u32,
    rows: Seq<LineRow>,
    scopes: Seq<ScopeCacheNode>,
    base: u64,
    bps: Map<u64, ManagedBreakpoint>,
    regs: PlatformRegStruct,
    word: Option<i64>,
    return_address: Option<u64>,
)
    ensures
        ({
            let cmd = CurrentStopCmd::StepInto { start_file, start_line };
            let p = plan_stop(cmd, rows, scopes, base, bps, regs, word, return_address);
            &&& p.effect == BreakpointEffect::Keep
            &&& p.rewind_to is None
            &&& match row_at(rows, relative(base, regs.rip)) {
                Some(row) => if row.location.file != start_file || row.location.line != start_line {
                    p.cmd == CurrentStopCmd::Completed && p.resume == Resume::Report
                } else {
                    p.cmd == cmd && p.resume == Resume::SingleStep
                },
                None => p.cmd == cmd && p.resume == Resume::SingleStep,
            }
        }),
{
}

/// The search for a place with line information stops, and reports, at the
/// first stop whose program counter a row covers; elsewhere it single-steps on.
pub proof fn law_search_stops_where_a_row_covers_the_pc(
    rows: Seq<LineRow>,
    scopes: Seq<ScopeCacheNode>,
    base: u64,
    bps: Map<u64, ManagedBreakpoint>,
    regs: PlatformRegStruct,
    word: Option<i64>,
    return_address: Option<u64>,
)
    ensures
        ({
            let cmd = CurrentStopCmd::SearchingForValidLocation;
            let p = plan_stop(cmd, rows, scopes, base, bps, regs, word, return_address);
            &&& p.effect == BreakpointEffect::Keep
            &&& p.rewind_to is None
            &&& if row_at(rows, relative(base, regs.rip)) is Some {
                p.cmd == CurrentStopCmd::Completed && p.resume == Resume::Report
            } else {
                p.cmd == cmd && p.resume == Resume::SingleStep
            }
        }),
{
}

/// Stepping over from `start_file:start_line` with the stack pointer at
/// `start`: a stop with a higher stack pointer (the function returned)
/// completes; one in the same frame completes at a statement row on another
/// line of the starting file, or, for a step that began in inlined code, at a
/// statement row outside inlined code, and single-steps on otherwise; one in
/// a deeper frame (a call) puts a breakpoint on the return address and runs
/// to it, or single-steps on where the return address is unknown.
pub proof fn law_step_over_decisions(
    start: u64,
    start_file: StringId,
    start_line: u32,
    started_from_inline: bool,
    rows: Seq<LineRow>,
    scopes: Seq<ScopeCacheNode>,
    base: u64,
    bps: Map<u64, ManagedBreakpoint>,
    regs: PlatformRegStruct,
    word: Option<i64>,
    return_address: Option<u64>,
)
    ensures
        ({
            let cmd = CurrentStopCmd::StepOver { start_stack_pointer: start, start_file, start_line, started_from_inline };
            let p = plan_stop(cmd, rows, scopes, base, bps, regs, word, return_address);
            let pc = relative(base, regs.rip);
            let done = p.cmd == CurrentStopCmd::Completed && p.resume == Resume::Report && p.effect
                == BreakpointEffect::Keep;
            let on = p.cmd == cmd && p.resume == Resume::SingleStep && p.effect == BreakpointEffect::Keep;
            &&& regs.rsp > start ==> done
            &&& regs.rsp == start ==> match row_at(rows, pc) {
                Some(row) => if row.is_stmt && ((row.location.file == start_file && row.location.line != start_line) || (
                started_from_inline && !inline_at(scopes, pc, 0))) {
                    done
                } else {
                    on
                },
                None => on,
            }
            &&& regs.rsp < start ==> match return_address {
                Some(a) => p.resume == Resume::Continue && p.effect == BreakpointEffect::Acquire(a) && p.cmd
                    == CurrentStopCmd::StepOut {
                    original_stack_pointer: start,
                    original_file: start_file,
                    original_line: start_line,
                    return_address: a,
                    started_from_inline,
                },
                None => on,
            }
        }),
{
}

/// Running or continuing, a trap right after a registered breakpoint stops
/// at it: the menu opens, the breakpoint's original byte goes back and the
/// instruction pointer moves back onto it; any other trap opens the menu and
/// changes nothing, and a stop whose memory cannot be read lets it run on.
pub proof fn law_breakpoint_hits_open_the_menu(
    cmd: CurrentStopCmd,
    rows: Seq<LineRow>,
    scopes: Seq<ScopeCacheNode>,
    base: u64,
    bps: Map<u64, ManagedBreakpoint>,
    regs: PlatformRegStruct,
    word: Option<i64>,
    return_address: Option<u64>,
)
    requires
        cmd is Running || cmd is Continuing,
        regs.rip >= 1,
    ensures
        ({
            let p = plan_stop(cmd, rows, scopes, base, bps, regs, word, return_address);
            let at = (regs.rip - 1) as u64;
            &&& p.cmd == cmd
            &&& word is None ==> p.resume == Resume::Continue && p.effect == BreakpointEffect::Keep && p.rewind_to is None
            &&& word is Some && bps.contains_key(at) ==> p.resume == Resume::Menu && p.effect == BreakpointEffect::Disarm(at)
                && p.rewind_to == Some(at)
            &&& word is Some && !bps.contains_key(at) ==> p.resume == Resume::Menu && p.effect == BreakpointEffect::Keep
                && p.rewind_to is None
        }),
{
}

} // verus!
