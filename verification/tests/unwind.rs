use gimli::write::{Address, CallFrameInstruction, CommonInformationEntry, EhFrame, EndianVec, FrameDescriptionEntry, FrameTable};
use gimli::{Encoding, Format, LittleEndian, X86_64};
use imo::dwarf::{PlatformRegStruct, RawDebugFrame, RegisterViewer};
use imo::session::DebugSession;
use imo::sys::LinuxError;

/// An `.eh_frame` section with one entry for [0x1000, 0x1100): the frame
/// address is the stack pointer plus 8, and the return address is found by `ra`.
fn eh_frame(ra: CallFrameInstruction) -> Vec<u8> {
    let encoding = Encoding { format: Format::Dwarf32, version: 1, address_size: 8 };
    let mut cie = CommonInformationEntry::new(encoding, 1, -8, X86_64::RA);
    cie.add_instruction(CallFrameInstruction::Cfa(X86_64::RSP, 8));
    cie.add_instruction(ra);
    let mut table = FrameTable::default();
    let cie_id = table.add_cie(cie);
    table.add_fde(cie_id, FrameDescriptionEntry::new(Address::Constant(0x1000), 0x100));
    let mut section = EhFrame(EndianVec::new(LittleEndian));
    table.write_eh_frame(&mut section).unwrap();
    section.0.into_vec()
}

fn session(frame: Vec<u8>, rip: u64) -> DebugSession {
    let mut s = DebugSession::from_pid(1);
    s.raw_debug_frame = RawDebugFrame(frame);
    s.registers = Some(RegisterViewer::new(PlatformRegStruct {
        r15: 0, r14: 0, r13: 0, r12: 0, rbp: 0x5555, rbx: 0, r11: 0, r10: 0, r9: 0, r8: 0,
        rax: 0, rcx: 0, rdx: 0, rsi: 0, rdi: 0, orig_rax: 0, rip, cs: 0,
        eflags: 0, rsp: 0x7000, ss: 0, fs_base: 0, gs_base: 0, ds: 0, es: 0, fs: 0, gs: 0,
    }));
    s
}

fn memory(address: u64) -> Result<i64, LinuxError> {
    if address == 0x7000 {
        Ok(0x4242)
    } else {
        Err(LinuxError::ByteRead)
    }
}

#[test]
fn the_return_address_is_read_from_the_frame() {
    let s = session(eh_frame(CallFrameInstruction::Offset(X86_64::RA, -8)), 0x1010);
    assert_eq!(s.get_return_address(&memory), Some(0x4242));
}

#[test]
fn the_return_address_can_sit_in_a_register() {
    let s = session(eh_frame(CallFrameInstruction::Register(X86_64::RA, X86_64::RBP)), 0x1010);
    assert_eq!(s.get_return_address(&memory), Some(0x5555));
}

#[test]
fn no_return_address_outside_the_table() {
    let s = session(eh_frame(CallFrameInstruction::Offset(X86_64::RA, -8)), 0x2000);
    assert_eq!(s.get_return_address(&memory), None);
    let mut s = session(eh_frame(CallFrameInstruction::Offset(X86_64::RA, -8)), 0x1010);
    s.registers = None;
    assert_eq!(s.get_return_address(&memory), None);
}
