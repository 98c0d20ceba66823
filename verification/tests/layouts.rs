use imo::dwarf::{DwarfType, EnumVariant, Enumerator, GenericField, StructField, TypeCacheNode};
use imo::sys::{LinuxError, SystemError};
use imo::value::{DebugValue, WrapperKind};
use rustc_hash::FxHashMap;
use std::collections::HashMap;

/// The debuggee's memory: bytes by address, zero where nothing was written.
struct Memory {
    bytes: HashMap<u64, u8>,
}

impl Memory {
    fn new() -> Self {
        Memory { bytes: HashMap::new() }
    }

    fn write(&mut self, address: u64, data: &[u8]) {
        for (i, b) in data.iter().enumerate() {
            self.bytes.insert(address + i as u64, *b);
        }
    }

    fn write_word(&mut self, address: u64, word: u64) {
        self.write(address, &word.to_le_bytes());
    }

    fn write_u32(&mut self, address: u64, v: u32) {
        self.write(address, &v.to_le_bytes());
    }

    fn peek(&self, address: u64) -> Result<i64, SystemError> {
        let mut word = [0u8; 8];
        for (i, b) in word.iter_mut().enumerate() {
            *b = *self.bytes.get(&(address + i as u64)).unwrap_or(&0);
        }
        Ok(i64::from_le_bytes(word))
    }

    fn read(&self, address: usize, len: usize) -> Result<Vec<u8>, SystemError> {
        if len == 0 {
            return Err(LinuxError::ByteRead);
        }
        Ok((0..len).map(|i| *self.bytes.get(&(address as u64 + i as u64)).unwrap_or(&0)).collect())
    }
}

const U32: usize = 0x10;
const USIZE: usize = 0x18;
const I32: usize = 0x20;
const BOOL: usize = 0x28;
const RAW_POINTER: usize = 0x30;
const RAW_VEC: usize = 0x40;
const VEC: usize = 0x50;
const VEC_DEQUE: usize = 0x60;
const ARRAY: usize = 0x70;
const RAW_TABLE: usize = 0x80;
const HASH_MAP: usize = 0x90;
const HASH_SET: usize = 0xa0;
const OPTION: usize = 0xb0;
const SOME: usize = 0xb8;
const NONE: usize = 0xc0;
const BOX: usize = 0xd0;
const COLOR: usize = 0xe0;
const TUPLE: usize = 0xf0;
const POINT: usize = 0x100;
const SELF_BOX: usize = 0x110;
const ARRAY_REF: usize = 0x120;
const STR: usize = 0x130;
const U8: usize = 0x138;
const BYTE_VEC: usize = 0x140;
const STRING: usize = 0x148;
const MISSING_ARRAY: usize = 0x150;

fn field(name: &str, type_offset: usize, location: u64) -> StructField {
    StructField { name: name.to_string(), type_offset, location }
}

fn generic(name: &str, type_offset: usize) -> GenericField {
    GenericField { name: name.to_string(), type_offset }
}

fn structure(name: &str, byte_size: u64, generics: Vec<GenericField>, fields: Vec<StructField>) -> DwarfType {
    DwarfType::Structure { name: name.to_string(), byte_size, alignment: 8, generics, fields }
}

fn types() -> FxHashMap<usize, TypeCacheNode> {
    let mut index = FxHashMap::default();
    let mut add = |offset: usize, dwarf_type: DwarfType| {
        index.insert(offset, TypeCacheNode { dwarf_type, offset });
    };
    add(U32, DwarfType::Base { name: "u32".to_string(), encoding: 7, byte_size: 4 });
    add(USIZE, DwarfType::Base { name: "usize".to_string(), encoding: 7, byte_size: 8 });
    add(I32, DwarfType::Base { name: "i32".to_string(), encoding: 5, byte_size: 4 });
    add(BOOL, DwarfType::Base { name: "bool".to_string(), encoding: 2, byte_size: 1 });
    add(U8, DwarfType::Base { name: "u8".to_string(), encoding: 7, byte_size: 1 });
    add(RAW_POINTER, DwarfType::Pointer { name: None, target_type_offset: U32 });
    add(
        RAW_VEC,
        structure(
            "RawVecInner<alloc::alloc::Global>",
            16,
            vec![],
            vec![field("ptr", RAW_POINTER, 0), field("cap", USIZE, 8)],
        ),
    );
    add(
        VEC,
        structure(
            "Vec<u32, alloc::alloc::Global>",
            24,
            vec![generic("T", U32)],
            vec![field("buf", RAW_VEC, 0), field("len", USIZE, 16)],
        ),
    );
    add(
        BYTE_VEC,
        structure(
            "Vec<u8, alloc::alloc::Global>",
            24,
            vec![generic("T", U8)],
            vec![field("buf", RAW_VEC, 0), field("len", USIZE, 16)],
        ),
    );
    add(STRING, structure("String", 24, vec![], vec![field("vec", BYTE_VEC, 0)]));
    add(
        VEC_DEQUE,
        structure(
            "VecDeque<u32, alloc::alloc::Global>",
            32,
            vec![generic("T", U32)],
            vec![field("buf", RAW_VEC, 0), field("head", USIZE, 16), field("len", USIZE, 24)],
        ),
    );
    add(ARRAY, DwarfType::Array { target_type_offset: I32, count: 3 });
    add(MISSING_ARRAY, DwarfType::Array { target_type_offset: 0xdead, count: 3 });
    add(
        RAW_TABLE,
        structure(
            "RawTableInner",
            32,
            vec![],
            vec![
                field("bucket_mask", USIZE, 0),
                field("ctrl", RAW_POINTER, 8),
                field("growth_left", USIZE, 16),
                field("items", USIZE, 24),
            ],
        ),
    );
    add(
        HASH_MAP,
        structure(
            "HashMap<u32, u32, std::hash::random::RandomState>",
            48,
            vec![generic("K", U32), generic("V", U32)],
            vec![field("table", RAW_TABLE, 0)],
        ),
    );
    add(
        HASH_SET,
        structure("HashSet<u32, std::hash::random::RandomState>", 48, vec![generic("T", U32)], vec![field("map", HASH_MAP, 0)]),
    );
    add(SOME, structure("Some", 8, vec![generic("T", I32)], vec![field("__0", I32, 4)]));
    add(NONE, structure("None", 8, vec![generic("T", I32)], vec![]));
    add(
        OPTION,
        DwarfType::Variant {
            name: "Option<i32>".to_string(),
            byte_size: 8,
            alignment: 4,
            discr_member_offset: Some(0),
            variants: vec![
                EnumVariant { discr_value: Some(0), fields: vec![field("None", NONE, 0)] },
                EnumVariant { discr_value: Some(1), fields: vec![field("Some", SOME, 0)] },
            ],
        },
    );
    add(BOX, DwarfType::Pointer { name: Some("alloc::boxed::Box<i32, alloc::alloc::Global>".to_string()), target_type_offset: I32 });
    add(ARRAY_REF, DwarfType::Pointer { name: Some("&[i32; 3]".to_string()), target_type_offset: ARRAY });
    add(SELF_BOX, DwarfType::Pointer { name: Some("alloc::boxed::Box<Node>".to_string()), target_type_offset: SELF_BOX });
    add(
        COLOR,
        DwarfType::Enum {
            name: "Color".to_string(),
            byte_size: 1,
            fields: vec![
                Enumerator { name: "Red".to_string(), value: 0 },
                Enumerator { name: "Green".to_string(), value: 1 },
                Enumerator { name: "Blue".to_string(), value: 2 },
            ],
        },
    );
    add(TUPLE, structure("(i32, bool)", 8, vec![], vec![field("__0", I32, 0), field("__1", BOOL, 4)]));
    add(POINT, structure("Point", 8, vec![], vec![field("x", I32, 0), field("y", I32, 4)]));
    add(STR, structure("&str", 16, vec![], vec![field("data_ptr", RAW_POINTER, 0), field("length", USIZE, 8)]));
    index
}

fn read(type_offset: usize, memory: &Memory, address: u64) -> Result<Option<DebugValue>, SystemError> {
    let index = types();
    let ty = index.get(&type_offset).unwrap();
    let peek = |a: u64| memory.peek(a);
    let read_bytes = |p: usize, l: usize| memory.read(p, l);
    ty.dwarf_type.to_debug_value(&index, address, &peek, &read_bytes)
}

fn shown(type_offset: usize, memory: &Memory, address: u64) -> String {
    format!("{:?}", read(type_offset, memory, address).expect("memory reads"))
}

#[test]
fn vec_elements_are_read_from_the_heap() {
    let mut memory = Memory::new();
    memory.write_word(0x1000, 0x2000);
    memory.write_word(0x1008, 4);
    memory.write_word(0x1010, 3);
    for (i, v) in [7u32, 8, 9].iter().enumerate() {
        memory.write_u32(0x2000 + 4 * i as u64, *v);
    }
    assert_eq!(shown(VEC, &memory, 0x1000), "Some(Vec([Unsigned(7), Unsigned(8), Unsigned(9)]))");
}

#[test]
fn empty_vec_reads_no_elements() {
    let mut memory = Memory::new();
    memory.write_word(0x1000, 0x2000);
    memory.write_word(0x1008, 0);
    memory.write_word(0x1010, 0);
    assert_eq!(shown(VEC, &memory, 0x1000), "Some(Vec([]))");
}

#[test]
fn vec_deque_wraps_around_its_ring_buffer() {
    let mut memory = Memory::new();
    memory.write_word(0x1100, 0x2100);
    memory.write_word(0x1108, 4);
    memory.write_word(0x1110, 3);
    memory.write_word(0x1118, 3);
    memory.write_u32(0x2100, 20);
    memory.write_u32(0x2104, 30);
    memory.write_u32(0x2108, 99);
    memory.write_u32(0x210c, 10);
    assert_eq!(shown(VEC_DEQUE, &memory, 0x1100), "Some(Vec([Unsigned(10), Unsigned(20), Unsigned(30)]))");
}

#[test]
fn array_of_signed_integers() {
    let mut memory = Memory::new();
    memory.write_u32(0x1200, -1i32 as u32);
    memory.write_u32(0x1204, 2);
    memory.write_u32(0x1208, -3i32 as u32);
    assert_eq!(shown(ARRAY, &memory, 0x1200), "Some(Array([Integer(-1), Integer(2), Integer(-3)]))");
}

fn hash_table(memory: &mut Memory, at: u64) {
    memory.write_word(at, 3);
    memory.write_word(at + 8, 0x3000);
    memory.write_word(at + 16, 1);
    memory.write_word(at + 24, 2);
    memory.write(0x3000, &[0x12, 0xff, 0x34, 0xff]);
    memory.write_u32(0x3000 - 8, 1);
    memory.write_u32(0x3000 - 4, 100);
    memory.write_u32(0x3000 - 24, 3);
    memory.write_u32(0x3000 - 20, 300);
}

#[test]
fn hash_map_reads_the_full_buckets() {
    let mut memory = Memory::new();
    hash_table(&mut memory, 0x1400);
    assert_eq!(
        shown(HASH_MAP, &memory, 0x1400),
        "Some(HashMap { entries: [(Unsigned(1), Unsigned(100)), (Unsigned(3), Unsigned(300))] })"
    );
}

#[test]
fn hash_set_shows_the_keys_of_its_map() {
    let mut memory = Memory::new();
    hash_table(&mut memory, 0x1400);
    assert_eq!(shown(HASH_SET, &memory, 0x1400), "Some(HashSet { elements: [Unsigned(1), Unsigned(3)] })");
}

#[test]
fn option_shows_its_active_variant() {
    let mut memory = Memory::new();
    memory.write(0x1500, &[1, 0, 0, 0]);
    memory.write_u32(0x1504, 5);
    assert_eq!(shown(OPTION, &memory, 0x1500), "Some(Variant { name: \"Some\", field: Some(Integer(5)) })");
    memory.write(0x1510, &[0, 0, 0, 0]);
    assert_eq!(shown(OPTION, &memory, 0x1510), "Some(Variant { name: \"None\", field: Some(Tuple([])) })");
}

#[test]
fn unknown_discriminant_is_an_error() {
    let mut memory = Memory::new();
    memory.write(0x1520, &[7, 0, 0, 0]);
    match read(OPTION, &memory, 0x1520) {
        Ok(Some(DebugValue::Error(m))) => assert_eq!(m, "Could not find active enum"),
        other => panic!("unexpected {:?}", other),
    }
}

#[test]
fn box_wraps_the_value_it_points_to() {
    let mut memory = Memory::new();
    memory.write_word(0x1600, 0x2600);
    memory.write_u32(0x2600, 42);
    assert_eq!(shown(BOX, &memory, 0x1600), "Some(PointerWrapper { kind: Box, value: Integer(42) })");
}

#[test]
fn reference_to_array_shows_the_array() {
    let mut memory = Memory::new();
    memory.write_word(0x1700, 0x2700);
    memory.write_u32(0x2700, 4);
    memory.write_u32(0x2704, 5);
    memory.write_u32(0x2708, 6);
    assert_eq!(shown(ARRAY_REF, &memory, 0x1700), "Some(Array([Integer(4), Integer(5), Integer(6)]))");
}

#[test]
fn raw_pointer_shows_its_address() {
    let mut memory = Memory::new();
    memory.write_word(0x1710, 0x2710);
    assert_eq!(shown(RAW_POINTER, &memory, 0x1710), format!("Some(Pointer({}))", 0x2710));
}

#[test]
fn c_like_enum_shows_the_enumerator() {
    let mut memory = Memory::new();
    memory.write(0x1800, &[1]);
    assert_eq!(shown(COLOR, &memory, 0x1800), "Some(Enum { name: \"Color\", inner_name: \"Green\" })");
    memory.write(0x1810, &[7]);
    assert_eq!(shown(COLOR, &memory, 0x1810), "None");
}

#[test]
fn positional_fields_make_a_tuple() {
    let mut memory = Memory::new();
    memory.write_u32(0x1900, -5i32 as u32);
    memory.write(0x1904, &[1]);
    assert_eq!(shown(TUPLE, &memory, 0x1900), "Some(Tuple([Integer(-5), Boolean(true)]))");
}

#[test]
fn named_fields_make_a_struct() {
    let mut memory = Memory::new();
    memory.write_u32(0x1a00, 1);
    memory.write_u32(0x1a04, 2);
    assert_eq!(
        shown(POINT, &memory, 0x1a00),
        "Some(Struct { name: \"Point\", fields: [DebugStructField { name: \"x\", value: Integer(1) }, DebugStructField { name: \"y\", value: Integer(2) }] })"
    );
}

#[test]
fn deep_box_chains_are_read_to_the_end() {
    let mut index = types();
    let levels: usize = 520;
    for k in 1..=levels {
        let target = if k == 1 { I32 } else { 0x10000 + k - 1 };
        let offset = 0x10000 + k;
        index.insert(offset, TypeCacheNode { dwarf_type: DwarfType::Pointer { name: Some("alloc::boxed::Box<T>".to_string()), target_type_offset: target }, offset });
    }
    let mut memory = Memory::new();
    for k in 1..=levels as u64 {
        memory.write_word(0x10_0000 + 8 * k, 0x10_0000 + 8 * (k - 1));
    }
    memory.write_u32(0x10_0000, 7);
    let ty = index.get(&(0x10000 + levels)).unwrap();
    let peek = |a: u64| memory.peek(a);
    let read_bytes = |p: usize, l: usize| memory.read(p, l);
    let mut value = ty.dwarf_type.to_debug_value(&index, 0x10_0000 + 8 * levels as u64, &peek, &read_bytes).expect("memory reads").expect("a value");
    let mut boxes = 0;
    loop {
        match value {
            DebugValue::PointerWrapper { kind: WrapperKind::Box, value: inner } => {
                boxes += 1;
                value = *inner;
            },
            DebugValue::Integer(n) => {
                assert_eq!(n, 7);
                break;
            },
            other => panic!("unexpected {:?}", other),
        }
    }
    assert_eq!(boxes, levels);
}

#[test]
fn missing_element_type_is_an_error() {
    let memory = Memory::new();
    match read(MISSING_ARRAY, &memory, 0x1c00) {
        Ok(Some(DebugValue::Error(m))) => assert_eq!(m, format!("Failed to get type at offset: {}", 0xdead)),
        other => panic!("unexpected {:?}", other),
    }
}

#[test]
fn failed_byte_read_fails_the_value() {
    let mut memory = Memory::new();
    memory.write_word(0x1d00, 0x2d00);
    memory.write_word(0x1d08, 0);
    assert!(matches!(read(STR, &memory, 0x1d00), Err(LinuxError::ByteRead)));
}

#[test]
fn invalid_utf8_in_a_string_is_replaced() {
    let mut memory = Memory::new();
    memory.write_word(0x1e00, 0x2e00);
    memory.write_word(0x1e08, 3);
    memory.write_word(0x1e10, 3);
    memory.write(0x2e00, &[0x66, 0xff, 0x6f]);
    assert_eq!(shown(STRING, &memory, 0x1e00), "Some(String(\"f\u{fffd}o\"))");
}
