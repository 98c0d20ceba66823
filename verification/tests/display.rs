use imo::breakpoint::{BreakpointData, BreakpointTarget};
use imo::display::display_source_code;
use imo::dwarf::{PlatformRegStruct, RegisterViewer};
use imo::types::{SourceCodeDisplay, StackInfo, StringId};

fn target(file: &str, relative_address: u64) -> BreakpointTarget {
    BreakpointTarget { file: file.to_string(), relative_address }
}

#[test]
fn source_lines_are_highlighted_word_by_word() {
    assert_eq!(
        display_source_code("    let mut  x: u32 = 5;"),
        "\u{1b}[31mlet\u{1b}[39m \u{1b}[35mmut\u{1b}[39m x: \u{1b}[93mu32\u{1b}[39m = 5; "
    );
    assert_eq!(display_source_code("   "), "");
    assert_eq!(display_source_code("// note"), "\u{1b}[38;2;118;118;118m// note\u{1b}[39m");
}

#[test]
fn backtrace_frames() {
    let f = StackInfo::Function { func_name: "main", file: "/src/main.rs", rip: 0x1139, line: 4 };
    let expected = format!("\u{1b}[34mmain\u{1b}[39m(){}0x1139 @ \u{1b}[32mmain.rs\u{1b}[39m:4", " ".repeat(30));
    assert_eq!(f.text(), expected);
    let g = StackInfo::Function { func_name: "id<u8>", file: "lib.rs", rip: 0x10, line: 9 };
    let expected = format!("\u{1b}[34mid{}\u{1b}[39m0x10 @ \u{1b}[32mlib.rs\u{1b}[39m:9", " ".repeat(34));
    assert_eq!(g.text(), expected);
    let i = StackInfo::Inlined {
        func_name: "add",
        decl_file: "/a/ops.rs",
        call_file: "/a/main.rs",
        rip: 0x20,
        call_line: 7,
        decl_line: 2,
    };
    let expected = format!(
        "\u{1b}[38;2;180;180;180madd{}\u{1b}[39m0x20 [INLINED]\n\tDeclared     @ \u{1b}[32mops.rs\u{1b}[39m:2 \n\tCalled       @ \u{1b}[32mmain.rs\u{1b}[39m:7",
        " ".repeat(33)
    );
    assert_eq!(i.text(), expected);
}

#[test]
fn breakpoint_listing() {
    let one = BreakpointData::from_target(vec![target("/src/main.rs", 0x40)], 6, "/src/main.rs");
    assert_eq!(one.text(), "breakpoint\tkeep y\t\u{1b}[94m0x40\u{1b}[39m at \u{1b}[32mmain.rs\u{1b}[39m:6");
    let mut two = BreakpointData::from_target(vec![target("/src/main.rs", 0x48), target("/src/main.rs", 0x4c)], 7, "/src/main.rs");
    two.enabled = false;
    assert_eq!(
        two.text(),
        "breakpoint\tkeep n\t<MULTIPLE>\n  .\u{1b}[36m1\u{1b}[39m\t\t     n\t\u{1b}[34m0x48\u{1b}[39m at \u{1b}[32mmain.rs\u{1b}[39m:7\n  .\u{1b}[36m2\u{1b}[39m\t\t     n\t\u{1b}[34m0x4c\u{1b}[39m at \u{1b}[32mmain.rs\u{1b}[39m:7"
    );
}

fn regs() -> PlatformRegStruct {
    PlatformRegStruct {
        r15: 0, r14: 0, r13: 0, r12: 0, rbp: 0x7ff0, rbx: 0, r11: 0, r10: 0, r9: 0, r8: 0,
        rax: 42, rcx: 0, rdx: 0, rsi: 0, rdi: 0, orig_rax: 0, rip: 0x1139, cs: 0x33,
        eflags: 0x246, rsp: 0x7fe0, ss: 0x2b, fs_base: 0, gs_base: 0, ds: 0, es: 0, fs: 0, gs: 0,
    }
}

#[test]
fn register_listing() {
    let text = RegisterViewer::new(regs()).text();
    let lines: Vec<&str> = text.lines().collect();
    assert_eq!(lines.len(), 26);
    assert_eq!(lines[0], format!("{:<8}0x{:<18x}{}", "rax", 42, 42));
    assert_eq!(lines[6], format!("{:<8}0x{:<18x}0x{:x}", "rbp", 0x7ff0, 0x7ff0));
    // 0x246 has the parity, zero and interrupt flags set.
    assert_eq!(lines[17], format!("{:<8}0x{:<18x}[ PF ZF IF ]", "eflags", 0x246));
    assert_eq!(lines[25], format!("{:<8}0x{:<18x}{}", "gs_base", 0, 0));
    let mut quiet = regs();
    quiet.eflags = 0x2;
    let text = RegisterViewer::new(quiet).text();
    assert!(text.contains("eflags  0x2                 []\n"));
}

#[test]
fn source_view() {
    let full = SourceCodeDisplay::FullyResolved { source_code: "fn main() {", line_number: 3 };
    assert_eq!(full.text(), "\u{1b}[36m3\u{1b}[39m\t\u{1b}[31mfn\u{1b}[39m main() { ");
    let partial = SourceCodeDisplay::PartiallyResolved { path: "/x/y.rs".to_string(), line_number: 8 };
    assert_eq!(partial.text(), "Could not locate \u{1b}[94m/x/y.rs\u{1b}[39m. Line number: \u{1b}[36m8\u{1b}[39m.");
    let corrupt = SourceCodeDisplay::CacheCorrupt { id: StringId(5) };
    assert_eq!(corrupt.text(), "Could not resolve string with id StringId(5). Restarting session might fix this issue");
    assert_eq!(SourceCodeDisplay::Unresolved.text(), "Could not resolve current location");
}
