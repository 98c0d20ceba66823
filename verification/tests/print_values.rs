use imo::command::{parse_command, Command};
use imo::die::{
    AttrValue, DieAttr, DieRecord, UnitRecord, DW_AT_BYTE_SIZE, DW_AT_DECL_LINE, DW_AT_ENCODING,
    DW_AT_FRAME_BASE, DW_AT_HIGH_PC, DW_AT_LINKAGE_NAME, DW_AT_LOCATION, DW_AT_LOW_PC, DW_AT_NAME,
    DW_AT_TYPE, DW_TAG_BASE_TYPE, DW_TAG_SUBPROGRAM, DW_TAG_VARIABLE,
};
use imo::dwarf::{
    DwarfType, GenericField, ParamType, PlatformRegStruct, RegisterViewer, StructField,
    TypeCacheNode, UnitEncoding,
};
use imo::menu::VariableParseError;
use imo::session::DebugSession;
use imo::sys::{LinuxError, SystemError};
use imo::types::{LineRow, SourceLocation, StringId};
use imo::value::DebugValue;
use rustc_hash::FxHashMap;
use std::collections::HashMap;

/// The debuggee's memory: bytes by address.
struct Memory {
    bytes: HashMap<u64, u8>,
}

impl Memory {
    fn new() -> Self {
        Memory { bytes: HashMap::new() }
    }

    fn write(&mut self, address: u64, data: &[u8]) {
        for (i, b) in data.iter().enumerate() {
            self.bytes.insert(address + i as u64, *b);
        }
    }

    fn write_word(&mut self, address: u64, word: u64) {
        self.write(address, &word.to_le_bytes());
    }

    fn peek(&self, address: u64) -> Result<i64, SystemError> {
        let mut word = [0u8; 8];
        for (i, b) in word.iter_mut().enumerate() {
            *b = *self.bytes.get(&(address + i as u64)).unwrap_or(&0);
        }
        Ok(i64::from_le_bytes(word))
    }

    fn read(&self, address: usize, len: usize) -> Result<Vec<u8>, SystemError> {
        if len == 0 {
            return Err(LinuxError::ByteRead);
        }
        Ok((0..len).map(|i| *self.bytes.get(&(address as u64 + i as u64)).unwrap_or(&0)).collect())
    }
}

fn attr(name: u16, value: AttrValue) -> DieAttr {
    DieAttr { name, value }
}

fn die(offset: usize, depth: i64, tag: u16, has_children: bool, attrs: Vec<DieAttr>) -> DieRecord {
    DieRecord { offset, depth, tag, has_children, attrs }
}

fn base_type(offset: usize, name: &str, encoding: u8, size: u64) -> DieRecord {
    die(
        offset,
        1,
        DW_TAG_BASE_TYPE,
        false,
        vec![
            attr(DW_AT_NAME, AttrValue::Str(name.to_string())),
            attr(DW_AT_ENCODING, AttrValue::Encoding(encoding)),
            attr(DW_AT_BYTE_SIZE, AttrValue::Data1(size as u8)),
        ],
    )
}

fn variable(offset: usize, name: &str, type_offset: usize, frame_offset: u8, line: u64) -> DieRecord {
    die(
        offset,
        2,
        DW_TAG_VARIABLE,
        false,
        vec![
            attr(DW_AT_NAME, AttrValue::Str(name.to_string())),
            attr(DW_AT_TYPE, AttrValue::UnitRef(type_offset)),
            attr(DW_AT_LOCATION, AttrValue::Exprloc(vec![0x91, frame_offset])),
            attr(DW_AT_DECL_LINE, AttrValue::Udata(line)),
        ],
    )
}

/// A session stopped at line 6 of `main` (machine address 0x1010), whose
/// debug information is the unit of `dies` (after the unit entry and the
/// function entry, which come first).
fn session_for(variables: Vec<DieRecord>, types: Vec<DieRecord>) -> DebugSession {
    let mut dies = vec![
        die(0, 0, 0x11, true, vec![]),
        die(
            0x10,
            1,
            DW_TAG_SUBPROGRAM,
            true,
            vec![
                attr(DW_AT_LOW_PC, AttrValue::Addr(0x1000)),
                attr(DW_AT_HIGH_PC, AttrValue::Udata(0x100)),
                attr(DW_AT_NAME, AttrValue::Str("main".to_string())),
                attr(DW_AT_LINKAGE_NAME, AttrValue::Str("_ZN3out4main".to_string())),
                attr(DW_AT_FRAME_BASE, AttrValue::Exprloc(vec![0x56])),
            ],
        ),
    ];
    dies.extend(variables);
    dies.extend(types);
    let unit = UnitRecord {
        offset: 0,
        encoding: UnitEncoding { address_size: 8, is_dwarf64: false, version: 4 },
        dies,
    };
    let mut session = DebugSession::from_pid(1);
    session.metadata.dump_unit(&unit);
    session.line_row.push(LineRow {
        location: SourceLocation { file: StringId(0), line: 6 },
        start_address: 0x1000,
        end_address: 0x1100,
        is_stmt: true,
    });
    session.set_up_line_row();
    let regs = PlatformRegStruct { rip: 0x1010, rsp: 0x7000, rbp: 0x7100, ..Default::default() };
    session.registers = Some(RegisterViewer::new(regs));
    session
}

fn float64(bits: u64) -> String {
    format!("{}", f64::from_bits(bits))
}

fn float32(bits: u32) -> String {
    format!("{}", f32::from_bits(bits))
}

/// What `p <name>` prints after the `=`, without colours: the variable's
/// address is the frame base (0x7100) plus the offset in its location.
fn print(session: &DebugSession, memory: &Memory, command: &str) -> String {
    let name = match parse_command(command) {
        Command::Print(Some(name)) => name,
        _ => panic!("not a print command"),
    };
    let node = session.metadata.find_scope_by_pc(0x1010, ParamType::All);
    let locate = |v: &imo::dwarf::DebugVariable, _fb: &Vec<u8>| -> Result<Option<u64>, VariableParseError> {
        Ok(Some(0x7100 + v.location[1] as u64))
    };
    let peek = |a: u64| memory.peek(a);
    let read = |p: usize, l: usize| memory.read(p, l);
    let value = session
        .get_var_value(session.registers, &node, name.as_str(), &locate, &peek, &read)
        .expect("the variable reads")
        .expect("the variable is in scope");
    let shown = value.render(&float64, &float32);
    strip_ansi_escapes::strip_str(shown)
}

#[test]
fn integer() {
    let session = session_for(
        vec![
            variable(0x20, "x", 0x100, 0x00, 2),
            variable(0x28, "p", 0x108, 0x08, 3),
            variable(0x30, "d", 0x110, 0x10, 4),
            variable(0x38, "e", 0x118, 0x18, 5),
        ],
        vec![
            base_type(0x100, "i32", 5, 4),
            base_type(0x108, "i8", 5, 1),
            base_type(0x110, "u64", 7, 8),
            base_type(0x118, "usize", 7, 8),
        ],
    );
    let mut memory = Memory::new();
    memory.write(0x7100, &(-15i32).to_le_bytes());
    memory.write(0x7108, &(-2i8).to_le_bytes());
    memory.write(0x7110, &12u64.to_le_bytes());
    memory.write(0x7118, &13u64.to_le_bytes());
    assert_eq!(print(&session, &memory, "p x"), "-15");
    assert_eq!(print(&session, &memory, "p p"), "-2");
    assert_eq!(print(&session, &memory, "p d"), "12");
    assert_eq!(print(&session, &memory, "p e"), "13");
}

#[test]
fn char() {
    let session = session_for(
        vec![
            variable(0x20, "c", 0x100, 0x00, 2),
            variable(0x28, "y", 0x100, 0x04, 3),
            variable(0x30, "d", 0x100, 0x08, 4),
            variable(0x38, "n", 0x100, 0x0c, 5),
        ],
        vec![base_type(0x100, "char", 0x10, 4)],
    );
    let mut memory = Memory::new();
    memory.write(0x7100, &('c' as u32).to_le_bytes());
    memory.write(0x7104, &('y' as u32).to_le_bytes());
    memory.write(0x7108, &('d' as u32).to_le_bytes());
    memory.write(0x710c, &('2' as u32).to_le_bytes());
    assert_eq!(print(&session, &memory, "p c"), "'c'");
    assert_eq!(print(&session, &memory, "p y"), "'y'");
    assert_eq!(print(&session, &memory, "p d"), "'d'");
    assert_eq!(print(&session, &memory, "p n"), "'2'");
}

/// The type index of a program with `&str`, `&Path` and `String` variables,
/// laid out as rustc describes them.
fn string_types() -> FxHashMap<usize, TypeCacheNode> {
    let mut index = FxHashMap::default();
    let mut add = |offset: usize, dwarf_type: DwarfType| {
        index.insert(offset, TypeCacheNode { dwarf_type, offset });
    };
    let field = |name: &str, type_offset: usize, location: u64| StructField {
        name: name.to_string(),
        type_offset,
        location,
    };
    add(0x100, DwarfType::Base { name: "u8".to_string(), encoding: 7, byte_size: 1 });
    add(0x108, DwarfType::Base { name: "usize".to_string(), encoding: 7, byte_size: 8 });
    add(0x110, DwarfType::Pointer { name: None, target_type_offset: 0x100 });
    add(
        0x120,
        DwarfType::Structure {
            name: "&str".to_string(),
            byte_size: 16,
            alignment: 8,
            generics: vec![],
            fields: vec![field("data_ptr", 0x110, 0), field("length", 0x108, 8)],
        },
    );
    add(
        0x130,
        DwarfType::Structure {
            name: "&std::path::Path".to_string(),
            byte_size: 16,
            alignment: 8,
            generics: vec![],
            fields: vec![field("data_ptr", 0x110, 0), field("length", 0x108, 8)],
        },
    );
    add(
        0x140,
        DwarfType::Structure {
            name: "NonNull<u8>".to_string(),
            byte_size: 8,
            alignment: 8,
            generics: vec![],
            fields: vec![field("pointer", 0x110, 0)],
        },
    );
    add(
        0x150,
        DwarfType::Structure {
            name: "Unique<u8>".to_string(),
            byte_size: 8,
            alignment: 8,
            generics: vec![],
            fields: vec![field("pointer", 0x140, 0)],
        },
    );
    add(
        0x160,
        DwarfType::Structure {
            name: "Cap".to_string(),
            byte_size: 8,
            alignment: 8,
            generics: vec![],
            fields: vec![field("__0", 0x108, 0)],
        },
    );
    add(
        0x170,
        DwarfType::Structure {
            name: "RawVecInner<alloc::alloc::Global>".to_string(),
            byte_size: 16,
            alignment: 8,
            generics: vec![],
            fields: vec![field("ptr", 0x150, 0), field("cap", 0x160, 8)],
        },
    );
    add(
        0x180,
        DwarfType::Structure {
            name: "RawVec<u8, alloc::alloc::Global>".to_string(),
            byte_size: 16,
            alignment: 8,
            generics: vec![GenericField { name: "T".to_string(), type_offset: 0x100 }],
            fields: vec![field("inner", 0x170, 0)],
        },
    );
    add(
        0x190,
        DwarfType::Structure {
            name: "Vec<u8, alloc::alloc::Global>".to_string(),
            byte_size: 24,
            alignment: 8,
            generics: vec![GenericField { name: "T".to_string(), type_offset: 0x100 }],
            fields: vec![field("buf", 0x180, 0), field("len", 0x108, 16)],
        },
    );
    add(
        0x1a0,
        DwarfType::Structure {
            name: "String".to_string(),
            byte_size: 24,
            alignment: 8,
            generics: vec![],
            fields: vec![field("vec", 0x190, 0)],
        },
    );
    index
}

/// A session stopped where `foo`, `bar` and `baz`, of the type at
/// `type_offset` among the string types, lie `stride` bytes apart from the
/// frame base.
fn string_session(type_offset: usize, stride: u8) -> DebugSession {
    let mut session = session_for(
        vec![
            variable(0x20, "foo", type_offset, 0, 2),
            variable(0x28, "bar", type_offset, stride, 3),
            variable(0x30, "baz", type_offset, 2 * stride, 4),
        ],
        vec![],
    );
    for (offset, node) in string_types() {
        session.metadata.type_index.insert(offset, node);
    }
    session
}

#[test]
fn static_str() {
    let session = string_session(0x120, 16);
    let mut memory = Memory::new();
    for (slot, (text, at)) in [("foo", 0x9000u64), ("bar", 0x9010), ("baz", 0x9020)].iter().enumerate() {
        memory.write(*at, text.as_bytes());
        let fat = 0x7100 + 16 * slot as u64;
        memory.write_word(fat, *at);
        memory.write_word(fat + 8, text.len() as u64);
    }
    assert_eq!(print(&session, &memory, "p foo"), "\"foo\"");
    assert_eq!(print(&session, &memory, "p bar"), "\"bar\"");
    assert_eq!(print(&session, &memory, "p baz"), "\"baz\"");
}

#[test]
fn string() {
    let session = string_session(0x1a0, 24);
    let mut memory = Memory::new();
    for (slot, (text, at)) in [("foo", 0x9000u64), ("bar", 0x9010), ("baz", 0x9020)].iter().enumerate() {
        memory.write(*at, text.as_bytes());
        let s = 0x7100 + 24 * slot as u64;
        memory.write_word(s, *at);
        memory.write_word(s + 8, text.len() as u64);
        memory.write_word(s + 16, text.len() as u64);
    }
    assert_eq!(print(&session, &memory, "p foo"), "\"foo\"");
    assert_eq!(print(&session, &memory, "p bar"), "\"bar\"");
    assert_eq!(print(&session, &memory, "p baz"), "\"baz\"");
}

#[test]
fn path() {
    let session = string_session(0x130, 16);
    let mut memory = Memory::new();
    for (slot, (text, at)) in [("foo", 0x9000u64), ("bar", 0x9010), ("baz", 0x9020)].iter().enumerate() {
        memory.write(*at, text.as_bytes());
        let fat = 0x7100 + 16 * slot as u64;
        memory.write_word(fat, *at);
        memory.write_word(fat + 8, text.len() as u64);
    }
    assert_eq!(print(&session, &memory, "p foo"), "Path(\"foo\")");
    assert_eq!(print(&session, &memory, "p bar"), "Path(\"bar\")");
    assert_eq!(print(&session, &memory, "p baz"), "Path(\"baz\")");
}

#[test]
fn uninitialised_variable_is_reported() {
    let mut session = session_for(vec![variable(0x20, "late", 0x100, 0x00, 9)], vec![base_type(0x100, "i32", 5, 4)]);
    session.file_declaration_order.insert(0, vec![6, 9]);
    let memory = Memory::new();
    let node = session.metadata.find_scope_by_pc(0x1010, ParamType::All);
    let locate = |_v: &imo::dwarf::DebugVariable, _fb: &Vec<u8>| -> Result<Option<u64>, VariableParseError> { Ok(Some(0x7100)) };
    let peek = |a: u64| memory.peek(a);
    let read = |p: usize, l: usize| memory.read(p, l);
    match session.get_var_value(session.registers, &node, "late", &locate, &peek, &read) {
        Ok(Some(DebugValue::Error(m))) => assert_eq!(m, "Variable not initialized yet"),
        _ => panic!("expected the not-initialised message"),
    }
}

#[test]
fn unknown_variable_is_not_in_scope() {
    let session = session_for(vec![variable(0x20, "x", 0x100, 0x00, 2)], vec![base_type(0x100, "i32", 5, 4)]);
    let memory = Memory::new();
    let node = session.metadata.find_scope_by_pc(0x1010, ParamType::All);
    let locate = |_v: &imo::dwarf::DebugVariable, _fb: &Vec<u8>| -> Result<Option<u64>, VariableParseError> { Ok(Some(0x7100)) };
    let peek = |a: u64| memory.peek(a);
    let read = |p: usize, l: usize| memory.read(p, l);
    assert!(matches!(session.get_var_value(session.registers, &node, "nope", &locate, &peek, &read), Ok(None)));
}

#[test]
fn missing_frame_base_is_an_error() {
    let session = session_for(vec![variable(0x20, "x", 0x100, 0x00, 2)], vec![base_type(0x100, "i32", 5, 4)]);
    let memory = Memory::new();
    let mut node = session.metadata.find_scope_by_pc(0x1010, ParamType::All);
    node.frame_base = None;
    let locate = |_v: &imo::dwarf::DebugVariable, _fb: &Vec<u8>| -> Result<Option<u64>, VariableParseError> { Ok(Some(0x7100)) };
    let peek = |a: u64| memory.peek(a);
    let read = |p: usize, l: usize| memory.read(p, l);
    assert!(matches!(
        session.get_var_value(session.registers, &node, "x", &locate, &peek, &read),
        Err(VariableParseError::FrameBase)
    ));
}

#[test]
fn registers_read_from_the_debuggee_locate_the_stop() {
    let mut session = session_for(vec![variable(0x20, "x", 0x100, 0x00, 2)], vec![base_type(0x100, "i32", 5, 4)]);
    let read_regs = session.registers.unwrap();
    session.registers = None;
    let mut memory = Memory::new();
    memory.write(0x7100, &(-15i32).to_le_bytes());
    let node = session.metadata.find_scope_by_pc(0x1010, ParamType::All);
    let locate = |_v: &imo::dwarf::DebugVariable, _fb: &Vec<u8>| -> Result<Option<u64>, VariableParseError> { Ok(Some(0x7100)) };
    let peek = |a: u64| memory.peek(a);
    let read = |p: usize, l: usize| memory.read(p, l);
    assert!(matches!(session.get_var_value(None, &node, "x", &locate, &peek, &read), Ok(None)));
    let regs = session.get_regs(&|| Ok(read_regs)).ok();
    assert!(matches!(session.get_var_value(regs, &node, "x", &locate, &peek, &read), Ok(Some(DebugValue::Integer(-15)))));
}
