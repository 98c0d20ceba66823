use imo::dwarf::{
    ObjectFormat,
    evaluate_frame_base_bytes, frame_base_is_supported, AddressRange, Abi, DebugVariable,
    DebuggerMetadataCache, ExecutionScope, ParamType, PlatformRegStruct, RegisterViewer,
    ScopeCacheNode, UniqueFileId,
};

fn var(name: &str, line: u32) -> DebugVariable {
    DebugVariable { name: name.to_string(), target_type_offset: 0x30, location: vec![0x91, 0x70], decl_line: line }
}

fn function() -> ScopeCacheNode {
    let inlined = ScopeCacheNode {
        scope: ExecutionScope::Inlined {
            name: "add".to_string(),
            unit_offset: 0,
            call_file_idx: 1,
            decl_file_idx: 1,
            call_line: 7,
            decl_line: 2,
        },
        offset: 0x80,
        variables: vec![var("inner", 3)],
        args: vec![],
        ranges: vec![AddressRange { low_pc: 0x1010, high_pc: 0x1020 }],
        children: vec![],
    };
    ScopeCacheNode {
        scope: ExecutionScope::Function {
            display_name: "main".to_string(),
            linkage_name: "_ZN4main".to_string(),
            bytes: Some(vec![0x56]),
            decl_file_id: UniqueFileId { offset: 0, file_idx: 1 },
            decl_line: 1,
        },
        offset: 0x40,
        variables: vec![var("x", 4)],
        args: vec![var("argc", 1)],
        ranges: vec![AddressRange { low_pc: 0x1000, high_pc: 0x1100 }],
        children: vec![inlined],
    }
}

fn regs() -> RegisterViewer {
    RegisterViewer::new(PlatformRegStruct {
        r15: 0, r14: 0, r13: 0, r12: 0, rbp: 0x7ff0, rbx: 0, r11: 0, r10: 0, r9: 0, r8: 0,
        rax: 0, rcx: 0, rdx: 0, rsi: 0, rdi: 0, orig_rax: 0, rip: 0, cs: 0,
        eflags: 0, rsp: 0x7f00, ss: 0, fs_base: 0, gs_base: 0, ds: 0, es: 0, fs: 0, gs: 0,
    })
}

#[test]
fn the_innermost_scope_holding_the_pc_is_active() {
    let f = function();
    assert!(f.is_in_scope(0x1015));
    assert!(!f.is_in_scope(0x1100));
    let active = f.find_active_scope(0x1015).unwrap();
    assert!(active.scope.is_inline());
    assert_eq!(f.find_active_scope(0x1050).unwrap().offset, 0x40);
    assert!(f.find_active_scope(0x2000).is_none());
    assert_eq!(f.get_variable_with_name("x").unwrap().decl_line, 4);
    assert!(f.get_variable_with_name("y").is_none());
}

#[test]
fn metadata_finds_inlined_code_traces_and_variables() {
    // Every scope is listed once at the top level, inner ones first.
    let mut m = DebuggerMetadataCache::empty();
    let f = function();
    m.execution_scopes.push(f.children[0].duplicate());
    m.execution_scopes.push(f);
    assert!(m.is_in_inline(0x1015));
    assert!(!m.is_in_inline(0x1050));
    let trace = m.get_function_trace(0x1015);
    assert_eq!(trace.len(), 2);
    assert!(trace[0].scope.is_inline());
    assert_eq!(trace[1].scope.get_name(), Some("main"));
    let here = m.find_scope_by_pc(0x1015, ParamType::Variable);
    let names: Vec<&str> = here.params.iter().map(|v| v.name.as_str()).collect();
    assert_eq!(names, vec!["inner", "x"]);
    let all = m.find_scope_by_pc(0x1050, ParamType::All);
    let names: Vec<&str> = all.params.iter().map(|v| v.name.as_str()).collect();
    assert_eq!(names, vec!["x", "argc"]);
    assert_eq!(all.frame_base, Some(&vec![0x56u8]));
    let args = m.find_scope_by_pc(0x1050, ParamType::Argument);
    assert_eq!(args.params.len(), 1);
    assert_eq!(args.get_param_with_name("argc").unwrap().decl_line, 1);
    assert!(m.find_scope_by_pc(0x3000, ParamType::All).params.is_empty());
}

#[test]
fn frame_base_programs_read_registers() {
    let r = regs();
    // DW_OP_reg6 (rbp), DW_OP_reg7 (rsp), DW_OP_minus.
    let program = [0x56u8, 0x57, 0x1c];
    assert!(frame_base_is_supported(&program, &r, &Abi::SystemV));
    assert_eq!(evaluate_frame_base_bytes(&program, &r, &Abi::SystemV), 0xf0);
    assert_eq!(evaluate_frame_base_bytes(&[0x56], &r, &Abi::SystemV), 0x7ff0);
    // An operation without operands, and an unknown opcode.
    assert!(!frame_base_is_supported(&[0x22], &r, &Abi::SystemV));
    assert!(!frame_base_is_supported(&[0x91], &r, &Abi::SystemV));
}

#[test]
fn the_abi_follows_the_binary_format() {
    assert!(matches!(Abi::new(ObjectFormat::Elf), Abi::SystemV));
    assert!(matches!(Abi::new(ObjectFormat::Coff), Abi::WindowsMsvc));
    assert!(matches!(Abi::new(ObjectFormat::Wasm), Abi::Unknown));
}
