use imo::die::{
    AttrValue, DieAttr, DieRecord, UnitRecord, DW_AT_ABSTRACT_ORIGIN, DW_AT_ALIGNMENT, DW_AT_BYTE_SIZE,
    DW_AT_CALL_LINE, DW_AT_CONST_VALUE, DW_AT_COUNT, DW_AT_DATA_MEMBER_LOCATION, DW_AT_DECL_LINE,
    DW_AT_DISCR, DW_AT_DISCR_VALUE, DW_AT_HIGH_PC, DW_AT_LINKAGE_NAME, DW_AT_LOCATION, DW_AT_LOW_PC,
    DW_AT_NAME, DW_AT_RANGES, DW_AT_TYPE, DW_TAG_ARRAY_TYPE, DW_TAG_ENUMERATION_TYPE, DW_TAG_ENUMERATOR,
    DW_TAG_FORMAL_PARAMETER, DW_TAG_INLINED_SUBROUTINE, DW_TAG_LEXICAL_BLOCK, DW_TAG_MEMBER,
    DW_TAG_STRUCTURE_TYPE, DW_TAG_SUBPROGRAM, DW_TAG_SUBRANGE_TYPE, DW_TAG_TEMPLATE_TYPE_PARAMETER,
    DW_TAG_VARIABLE, DW_TAG_VARIANT, DW_TAG_VARIANT_PART,
};
use imo::dwarf::{
    AddressRange, DebuggerMetadataCache, DwarfType, ExecutionScope, ParamType, UnitEncoding,
};

fn a(name: u16, value: AttrValue) -> DieAttr {
    DieAttr { name, value }
}

fn d(offset: usize, depth: i64, tag: u16, has_children: bool, attrs: Vec<DieAttr>) -> DieRecord {
    DieRecord { offset, depth, tag, has_children, attrs }
}

fn s(text: &str) -> AttrValue {
    AttrValue::Str(text.to_string())
}

fn unit(dies: Vec<DieRecord>) -> UnitRecord {
    UnitRecord { offset: 0x40, encoding: UnitEncoding { address_size: 8, is_dwarf64: false, version: 5 }, dies }
}

fn cache(dies: Vec<DieRecord>) -> DebuggerMetadataCache {
    let mut c = DebuggerMetadataCache::empty();
    c.dump_unit(&unit(dies));
    c
}

#[test]
fn rust_enum_with_a_niche_becomes_a_variant_type() {
    // enum Shape { Dot, Circle(u32) } with the discriminant at offset 0.
    let dies = vec![
        d(0, 0, 0x11, true, vec![]),
        d(0x10, 1, DW_TAG_STRUCTURE_TYPE, true, vec![
            a(DW_AT_NAME, s("Shape")),
            a(DW_AT_BYTE_SIZE, AttrValue::Udata(8)),
            a(DW_AT_ALIGNMENT, AttrValue::Udata(4)),
        ]),
        d(0x18, 2, DW_TAG_VARIANT_PART, true, vec![a(DW_AT_DISCR, AttrValue::UnitRef(0x20))]),
        d(0x20, 3, DW_TAG_MEMBER, false, vec![
            a(DW_AT_NAME, s("__tag")),
            a(DW_AT_TYPE, AttrValue::UnitRef(0x90)),
            a(DW_AT_DATA_MEMBER_LOCATION, AttrValue::Udata(0)),
        ]),
        d(0x28, 3, DW_TAG_VARIANT, true, vec![a(DW_AT_DISCR_VALUE, AttrValue::Data1(0))]),
        d(0x30, 4, DW_TAG_MEMBER, false, vec![
            a(DW_AT_NAME, s("Dot")),
            a(DW_AT_TYPE, AttrValue::UnitRef(0x60)),
            a(DW_AT_DATA_MEMBER_LOCATION, AttrValue::Udata(0)),
        ]),
        d(0x38, 3, DW_TAG_VARIANT, true, vec![a(DW_AT_DISCR_VALUE, AttrValue::Data1(1))]),
        d(0x40, 4, DW_TAG_MEMBER, false, vec![
            a(DW_AT_NAME, s("Circle")),
            a(DW_AT_TYPE, AttrValue::UnitRef(0x70)),
            a(DW_AT_DATA_MEMBER_LOCATION, AttrValue::Udata(0)),
        ]),
        d(0x48, 2, DW_TAG_TEMPLATE_TYPE_PARAMETER, false, vec![a(DW_AT_NAME, s("T")), a(DW_AT_TYPE, AttrValue::UnitRef(0x90))]),
        d(0x50, 2, DW_TAG_TEMPLATE_TYPE_PARAMETER, false, vec![a(DW_AT_NAME, s("T")), a(DW_AT_TYPE, AttrValue::UnitRef(0x91))]),
        d(0x90, 1, 0x24, false, vec![
            a(DW_AT_NAME, s("u32")),
            a(0x3e, AttrValue::Encoding(7)),
            a(DW_AT_BYTE_SIZE, AttrValue::Data1(4)),
        ]),
    ];
    let c = cache(dies);
    assert!(matches!(c.encoding, Some(UnitEncoding { version: 5, .. })));
    match &c.type_index.get(&0x10).unwrap().dwarf_type {
        DwarfType::Variant { name, byte_size, alignment, discr_member_offset, variants } => {
            assert_eq!(name, "Shape");
            assert_eq!((*byte_size, *alignment), (8, 4));
            assert_eq!(*discr_member_offset, Some(0));
            assert_eq!(variants.len(), 3);
            assert_eq!(variants[0].discr_value, Some(0));
            assert_eq!(variants[0].fields[0].name, "Dot");
            assert_eq!(variants[1].discr_value, Some(1));
            assert_eq!(variants[1].fields[0].name, "Circle");
            // The fallback variant keeps nothing: the tag is reserved and the
            // others belong to variants.
            assert_eq!(variants[2].discr_value, None);
            assert!(variants[2].fields.is_empty());
        }
        other => panic!("expected a variant type, got {:?}", other),
    }
    assert!(matches!(&c.type_index.get(&0x90).unwrap().dwarf_type, DwarfType::Base { byte_size: 4, encoding: 7, .. }));
}

#[test]
fn structures_enumerations_and_arrays() {
    let dies = vec![
        d(0, 0, 0x11, true, vec![]),
        d(0x10, 1, DW_TAG_STRUCTURE_TYPE, true, vec![
            a(DW_AT_NAME, s("Pair<u8>")),
            a(DW_AT_BYTE_SIZE, AttrValue::Udata(2)),
            a(DW_AT_ALIGNMENT, AttrValue::Udata(1)),
        ]),
        d(0x18, 2, DW_TAG_MEMBER, false, vec![
            a(DW_AT_NAME, s("left")),
            a(DW_AT_TYPE, AttrValue::UnitRef(0x80)),
            a(DW_AT_DATA_MEMBER_LOCATION, AttrValue::Udata(0)),
        ]),
        d(0x20, 2, DW_TAG_MEMBER, false, vec![
            a(DW_AT_NAME, s("right")),
            a(DW_AT_TYPE, AttrValue::UnitRef(0x80)),
            a(DW_AT_DATA_MEMBER_LOCATION, AttrValue::Udata(1)),
        ]),
        d(0x28, 2, DW_TAG_TEMPLATE_TYPE_PARAMETER, false, vec![a(DW_AT_NAME, s("T")), a(DW_AT_TYPE, AttrValue::UnitRef(0x80))]),
        d(0x30, 1, DW_TAG_ENUMERATION_TYPE, true, vec![a(DW_AT_NAME, s("Color")), a(DW_AT_BYTE_SIZE, AttrValue::Udata(1))]),
        d(0x38, 2, DW_TAG_ENUMERATOR, false, vec![a(DW_AT_NAME, s("Red")), a(DW_AT_CONST_VALUE, AttrValue::Udata(0))]),
        d(0x40, 2, DW_TAG_ENUMERATOR, false, vec![a(DW_AT_NAME, s("Green")), a(DW_AT_CONST_VALUE, AttrValue::Udata(1))]),
        d(0x48, 1, DW_TAG_ARRAY_TYPE, true, vec![a(DW_AT_TYPE, AttrValue::UnitRef(0x80))]),
        d(0x50, 2, DW_TAG_SUBRANGE_TYPE, false, vec![a(DW_AT_COUNT, AttrValue::Data1(3))]),
        d(0x80, 1, 0x24, false, vec![
            a(DW_AT_NAME, s("u8")),
            a(0x3e, AttrValue::Encoding(8)),
            a(DW_AT_BYTE_SIZE, AttrValue::Data1(1)),
        ]),
    ];
    let c = cache(dies);
    match &c.type_index.get(&0x10).unwrap().dwarf_type {
        DwarfType::Structure { name, generics, fields, .. } => {
            assert_eq!(name, "Pair<u8>");
            assert_eq!(generics.len(), 1);
            assert_eq!(fields.iter().map(|f| f.name.as_str()).collect::<Vec<_>>(), vec!["left", "right"]);
        }
        _ => panic!("structure"),
    }
    match &c.type_index.get(&0x30).unwrap().dwarf_type {
        DwarfType::Enum { fields, .. } => assert_eq!(fields.len(), 2),
        _ => panic!("enumeration"),
    }
    assert!(matches!(c.type_index.get(&0x48).unwrap().dwarf_type, DwarfType::Array { count: 3, target_type_offset: 0x80 }));
    assert_eq!(c.type_index.get(&0x48).unwrap().dwarf_type.get_byte_size(&c.type_index), Some(3));
}

#[test]
fn scopes_nest_and_hold_their_variables() {
    let var = |offset: usize, depth: i64, tag: u16, name: &str| {
        d(offset, depth, tag, false, vec![
            a(DW_AT_NAME, s(name)),
            a(DW_AT_TYPE, AttrValue::UnitRef(0x80)),
            a(DW_AT_LOCATION, AttrValue::Exprloc(vec![0x91, 0x08])),
            a(DW_AT_DECL_LINE, AttrValue::Udata(4)),
        ])
    };
    let dies = vec![
        d(0, 0, 0x11, true, vec![]),
        d(0x10, 1, DW_TAG_SUBPROGRAM, true, vec![
            a(DW_AT_LOW_PC, AttrValue::Addr(0x1000)),
            a(DW_AT_HIGH_PC, AttrValue::Udata(0x100)),
            a(DW_AT_NAME, s("main")),
            a(DW_AT_LINKAGE_NAME, s("_ZN4main")),
        ]),
        var(0x18, 2, DW_TAG_FORMAL_PARAMETER, "argc"),
        var(0x20, 2, DW_TAG_VARIABLE, "total"),
        d(0x28, 2, DW_TAG_LEXICAL_BLOCK, true, vec![a(DW_AT_RANGES, AttrValue::Ranges(vec![
            AddressRange { low_pc: 0x1010, high_pc: 0x1020 },
            AddressRange { low_pc: 0x1030, high_pc: 0x1040 },
        ]))]),
        var(0x30, 3, DW_TAG_VARIABLE, "inner"),
        d(0x38, 2, DW_TAG_INLINED_SUBROUTINE, true, vec![
            a(DW_AT_LOW_PC, AttrValue::Addr(0x1050)),
            a(DW_AT_HIGH_PC, AttrValue::Addr(0x1060)),
            a(DW_AT_ABSTRACT_ORIGIN, AttrValue::UnitRef(0x60)),
            a(DW_AT_CALL_LINE, AttrValue::Udata(12)),
        ]),
        var(0x40, 3, DW_TAG_VARIABLE, "helper_local"),
        d(0x48, 1, DW_TAG_SUBPROGRAM, false, vec![a(DW_AT_LOW_PC, AttrValue::Addr(0)), a(DW_AT_NAME, s("gone"))]),
        d(0x60, 1, DW_TAG_SUBPROGRAM, false, vec![a(DW_AT_NAME, s("helper")), a(DW_AT_DECL_LINE, AttrValue::Udata(30))]),
        d(0x80, 1, 0x24, false, vec![a(DW_AT_NAME, s("i32")), a(0x3e, AttrValue::Encoding(5)), a(DW_AT_BYTE_SIZE, AttrValue::Data1(4))]),
    ];
    let c = cache(dies);
    // Inner scopes end first.
    let offsets: Vec<usize> = c.execution_scopes.iter().map(|n| n.offset).collect();
    assert_eq!(offsets, vec![0x28, 0x38, 0x10]);
    let main = &c.execution_scopes[2];
    assert!(matches!(&main.scope, ExecutionScope::Function { display_name, .. } if display_name == "main"));
    assert_eq!(main.variables.iter().map(|v| v.name.as_str()).collect::<Vec<_>>(), vec!["total"]);
    assert_eq!(main.args.iter().map(|v| v.name.as_str()).collect::<Vec<_>>(), vec!["argc"]);
    assert_eq!(main.children.iter().map(|n| n.offset).collect::<Vec<_>>(), vec![0x28, 0x38]);
    let block = &c.execution_scopes[0];
    assert_eq!(block.ranges.len(), 2);
    assert_eq!(block.variables[0].name, "inner");
    match &c.execution_scopes[1].scope {
        ExecutionScope::Inlined { name, call_line, decl_line, unit_offset, .. } => {
            assert_eq!(name, "helper");
            assert_eq!((*call_line, *decl_line, *unit_offset), (12, 30, 0x40));
        }
        _ => panic!("inlined call"),
    }
    // At 0x1035 the block is active: its variable and main's are visible.
    let ctx = c.find_scope_by_pc(0x1035, ParamType::Variable);
    let names: Vec<&str> = ctx.params.iter().map(|v| v.name.as_str()).collect();
    assert!(names.contains(&"inner") && names.contains(&"total"));
    assert!(c.is_in_inline(0x1055));
    assert!(!c.is_in_inline(0x1005));
}
