use imo::display::{print_color, Color};
use imo::dwarf::{Abi, DwarfType, PlatformRegStruct, RegisterViewer, TypeCacheNode};
use imo::location::{location_step, LocationRequest, LocationStep};
use imo::menu::VariableParseError;
use imo::sys::LinuxError;
use rustc_hash::FxHashMap;

fn regs() -> RegisterViewer {
    RegisterViewer::new(PlatformRegStruct {
        r15: 0, r14: 0, r13: 0, r12: 0, rbp: 0x7ff0, rbx: 0, r11: 0, r10: 0, r9: 0, r8: 0,
        rax: 0, rcx: 0, rdx: 0, rsi: 0, rdi: 0, orig_rax: 0, rip: 0x1139, cs: 0,
        eflags: 0, rsp: 0x7fe0, ss: 0, fs_base: 0, gs_base: 0, ds: 0, es: 0, fs: 0, gs: 0,
    })
}

fn types() -> FxHashMap<usize, TypeCacheNode> {
    let mut m = FxHashMap::default();
    m.insert(0x40, TypeCacheNode {
        dwarf_type: DwarfType::Base { name: "i32".to_string(), encoding: 5, byte_size: 4 },
        offset: 0x40,
    });
    m
}

fn no_bytes(_: usize, _: usize) -> Result<Vec<u8>, LinuxError> {
    Err(LinuxError::ByteRead)
}

fn step(request: LocationRequest, word: Result<i64, LinuxError>) -> LocationStep {
    let frame_base = vec![0x56u8];
    location_step(request, &frame_base, &regs(), &Abi::SystemV, &types(), &|_a: u64| word.clone(), &no_bytes)
}

#[test]
fn a_finished_program_gives_its_address() {
    assert_eq!(step(LocationRequest::Complete(Some(0x10)), Ok(0)), LocationStep::Done(Some(0x10)));
    assert_eq!(step(LocationRequest::Complete(None), Ok(0)), LocationStep::Done(None));
}

#[test]
fn the_frame_base_comes_from_the_frame_base_program() {
    // DW_OP_reg6 names the base pointer.
    assert_eq!(step(LocationRequest::FrameBase, Ok(0)), LocationStep::FrameBase(0x7ff0));
}

#[test]
fn memory_requests_read_the_debuggee() {
    let plain = LocationRequest::Memory { address: 0x100, base_type: 0 };
    assert_eq!(step(plain, Ok(-1)), LocationStep::Unsigned(u64::MAX));
    assert_eq!(step(plain, Err(LinuxError::ByteRead)), LocationStep::Failed(VariableParseError::System(LinuxError::ByteRead)));
    let typed = LocationRequest::Memory { address: 0x100, base_type: 0x40 };
    assert_eq!(step(typed, Ok(0xFFFF_FFFF)), LocationStep::Signed(-1));
    let unknown = LocationRequest::Memory { address: 0x100, base_type: 0x99 };
    assert_eq!(step(unknown, Ok(7)), LocationStep::Done(None));
}

#[test]
fn colours_by_code() {
    assert_eq!(print_color("hi", Color::Red), "\u{1b}[31mhi\u{1b}[0m");
    assert_eq!(print_color("x", Color::BrightWhite), "\u{1b}[97mx\u{1b}[0m");
}
