use imo::dwarf::{PlatformRegStruct, RegisterViewer};
use imo::session::DebugSession;
use imo::stepping::Resume;
use imo::types::{CurrentStopCmd, LineRow, SourceLocation, StringId};

fn regs(rip: u64, rsp: u64) -> RegisterViewer {
    RegisterViewer::new(PlatformRegStruct { rip, rsp, ..Default::default() })
}

/// A session loaded at 0x5000 whose line table has lines 10, 11 and 12 of
/// file 0 at 0x100, 0x110 and 0x120 (relative), each 16 bytes long.
fn session() -> DebugSession {
    let mut s = DebugSession::from_pid(7);
    s.base_address = 0x5000;
    for (i, line) in [10u32, 11, 12].iter().enumerate() {
        s.line_row.push(LineRow {
            location: SourceLocation { file: StringId(0), line: *line },
            start_address: 0x100 + 0x10 * i as u64,
            end_address: 0x110 + 0x10 * i as u64,
            is_stmt: true,
        });
    }
    s.set_up_line_row();
    s
}

#[test]
fn single_step_completes_at_the_next_stop() {
    let mut s = session();
    s.complete_single_step();
    assert!(matches!(s.current_cmd, CurrentStopCmd::SingleStep));
    let action = s.handle_trap(regs(0x5104, 0x8000), None, None);
    assert_eq!(action.resume, Resume::Report);
    assert!(s.current_cmd.is_completed());
    assert_eq!(s.registers.unwrap().instruction_pointer(), 0x5104);
}

#[test]
fn step_into_runs_until_the_line_changes() {
    let mut s = session();
    s.begin_step_into(Some(regs(0x5100, 0x8000)));
    assert!(matches!(s.current_cmd, CurrentStopCmd::StepInto { start_line: 10, .. }));
    assert!(s.registers.is_none());
    let same_line = s.handle_trap(regs(0x5108, 0x8000), None, None);
    assert_eq!(same_line.resume, Resume::SingleStep);
    let no_line = s.handle_trap(regs(0x5300, 0x8000), None, None);
    assert_eq!(no_line.resume, Resume::SingleStep);
    let next_line = s.handle_trap(regs(0x5110, 0x8000), None, None);
    assert_eq!(next_line.resume, Resume::Report);
    assert!(s.current_cmd.is_completed());
}

#[test]
fn step_from_nowhere_searches_for_a_line() {
    let mut s = session();
    s.begin_step_into(Some(regs(0x5900, 0x8000)));
    assert!(matches!(s.current_cmd, CurrentStopCmd::SearchingForValidLocation));
    assert_eq!(s.handle_trap(regs(0x5904, 0x8000), None, None).resume, Resume::SingleStep);
    assert_eq!(s.handle_trap(regs(0x5120, 0x8000), None, None).resume, Resume::Report);
}

#[test]
fn step_over_a_call_leaves_no_breakpoint_behind() {
    let mut s = session();
    s.begin_step_over(Some(regs(0x5100, 0x8000)));
    assert!(matches!(
        s.current_cmd,
        CurrentStopCmd::StepOver { start_stack_pointer: 0x8000, start_line: 10, .. }
    ));
    // Inside the callee: the stack pointer is lower; the return address is 0x5108.
    let into_call = s.handle_trap(regs(0x5600, 0x7ff0), None, Some(0x5108));
    assert_eq!(into_call.resume, Resume::Continue);
    assert_eq!(into_call.arm, Some(0x5108));
    assert_eq!(s.active_breakpoints.len(), 1);
    let word = s.arm_breakpoint(0x5108, 0x1122_3344_5566_7788).unwrap();
    assert_eq!(word, 0x1122_3344_5566_77CC);
    // Back at the return address, just after the INT3.
    let back = s.handle_trap(regs(0x5109, 0x8000), Some(word), None);
    assert_eq!(back.rewind_to, Some(0x5108));
    assert_eq!(back.poke, Some((0x5108, 0x1122_3344_5566_7788)));
    assert_eq!(back.resume, Resume::SingleStep);
    assert!(s.active_breakpoints.is_empty());
    assert!(matches!(s.current_cmd, CurrentStopCmd::FinishStepOver { .. }));
    assert_eq!(s.registers.unwrap().instruction_pointer(), 0x5108);
    // Still in the same frame: the step over goes on.
    let again = s.handle_trap(regs(0x510c, 0x8000), None, None);
    assert_eq!(again.resume, Resume::SingleStep);
    assert!(matches!(s.current_cmd, CurrentStopCmd::StepOver { .. }));
    // The next line of the same file ends it.
    assert_eq!(s.handle_trap(regs(0x5110, 0x8000), None, None).resume, Resume::Report);
}

#[test]
fn step_over_ends_when_the_frame_returns() {
    let mut s = session();
    s.begin_step_over(Some(regs(0x5100, 0x8000)));
    assert_eq!(s.handle_trap(regs(0x5700, 0x8010), None, None).resume, Resume::Report);
}

#[test]
fn finish_runs_to_the_caller() {
    let mut s = session();
    s.begin_finish(regs(0x5100, 0x8000));
    assert!(matches!(s.current_cmd, CurrentStopCmd::Finish { start_stack_pointer: 0x8000, .. }));
    let out = s.handle_trap(regs(0x5600, 0x7ff0), None, Some(0x5200));
    assert_eq!(out.arm, Some(0x5200));
    assert_eq!(out.resume, Resume::Continue);
    assert!(matches!(s.current_cmd, CurrentStopCmd::StepOutFinish { return_address: 0x5200, .. }));
    let elsewhere = s.handle_trap(regs(0x5301, 0x7f00), None, None);
    assert_eq!(elsewhere.resume, Resume::Continue);
    assert_eq!(elsewhere.rewind_to, Some(0x5300));
    let hit = s.handle_trap(regs(0x5201, 0x8010), Some(0), None);
    assert_eq!(hit.rewind_to, Some(0x5200));
    assert_eq!(hit.resume, Resume::SingleStep);
    assert!(matches!(s.current_cmd, CurrentStopCmd::CompleteFinish { .. }));
    assert_eq!(s.handle_trap(regs(0x5204, 0x8010), None, None).resume, Resume::Report);
}

#[test]
fn a_user_breakpoint_stops_a_running_program() {
    let mut s = session();
    let arm = s.create_specific_breakpoint(0x110);
    assert_eq!(arm, Some(0x5110));
    let word = s.arm_breakpoint(0x5110, 0x0102_0304_0506_0708).unwrap();
    s.toggle_running();
    let hit = s.handle_trap(regs(0x5111, 0x8000), Some(word), None);
    assert_eq!(hit.resume, Resume::Menu);
    assert_eq!(hit.rewind_to, Some(0x5110));
    assert_eq!(hit.poke, Some((0x5110, 0x0102_0304_0506_0708)));
    let managed = s.active_breakpoints.get(&0x5110).unwrap();
    assert!(!managed.breakpoint.is_enabled);
    assert_eq!(managed.ref_count, 1);
    let other = s.handle_trap(regs(0x5150, 0x8000), Some(0), None);
    assert_eq!(other.resume, Resume::Menu);
    assert_eq!(other.rewind_to, None);
    let unreadable = s.handle_trap(regs(0x5150, 0x8000), None, None);
    assert_eq!(unreadable.resume, Resume::Continue);
}

#[test]
fn current_location_follows_the_registers() {
    let s = session();
    assert!(s.current_location(None).is_none());
    let here = s.current_location(Some(regs(0x5125, 0x8000))).unwrap();
    assert_eq!(here.line, 12);
    assert!(s.current_location(Some(regs(0x4000, 0x8000))).is_none());
}

#[test]
fn registers_are_read_from_the_debuggee_when_none_are_recorded() {
    let mut s = session();
    let read = s.get_regs(&|| Ok(regs(0x5125, 0x8000))).unwrap();
    assert_eq!(read.regs.rip, 0x5125);
    assert!(s.get_regs(&|| Err(imo::sys::LinuxError::ByteRead)).is_err());
    s.registers = Some(regs(0x6000, 0x8000));
    let recorded = s.get_regs(&|| Err(imo::sys::LinuxError::ByteRead)).unwrap();
    assert_eq!(recorded.regs.rip, 0x6000);
}
