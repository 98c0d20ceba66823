use imo::die::{
    AttrValue, DieAttr, DieRecord, DW_AT_DECL_LINE, DW_AT_HIGH_PC, DW_AT_LINKAGE_NAME, DW_AT_LOCATION,
    DW_AT_LOW_PC, DW_AT_NAME, DW_AT_RANGES, DW_AT_TYPE, DW_TAG_LEXICAL_BLOCK, DW_TAG_SUBPROGRAM,
    DW_TAG_VARIABLE,
};
use imo::dwarf::{AddressRange, ExecutionScope};
use imo::dwarf_scopes::{extract_lexical_block_node, extract_subprogram_node, extract_variable};

fn a(name: u16, value: AttrValue) -> DieAttr {
    DieAttr { name, value }
}

fn d(offset: usize, tag: u16, attrs: Vec<DieAttr>) -> DieRecord {
    DieRecord { offset, depth: 1, tag, has_children: false, attrs }
}

#[test]
fn variable_needs_all_four_attributes() {
    let full = d(0x10, DW_TAG_VARIABLE, vec![
        a(DW_AT_NAME, AttrValue::Str("x".to_string())),
        a(DW_AT_TYPE, AttrValue::UnitRef(0x80)),
        a(DW_AT_LOCATION, AttrValue::Exprloc(vec![0x91, 0x7c])),
        a(DW_AT_DECL_LINE, AttrValue::Udata(12)),
    ]);
    let v = extract_variable(&full).expect("a variable");
    assert_eq!(v.name, "x");
    assert_eq!(v.target_type_offset, 0x80);
    assert_eq!(v.location, vec![0x91, 0x7c]);
    assert_eq!(v.decl_line, 12);
    let no_line = d(0x10, DW_TAG_VARIABLE, vec![
        a(DW_AT_NAME, AttrValue::Str("x".to_string())),
        a(DW_AT_TYPE, AttrValue::UnitRef(0x80)),
        a(DW_AT_LOCATION, AttrValue::Exprloc(vec![0x91, 0x7c])),
    ]);
    assert!(extract_variable(&no_line).is_none());
}

#[test]
fn subprogram_range_ends_at_low_plus_size() {
    let dies = vec![d(0x20, DW_TAG_SUBPROGRAM, vec![
        a(DW_AT_NAME, AttrValue::Str("main".to_string())),
        a(DW_AT_LINKAGE_NAME, AttrValue::Str("_ZN4demo4main17h0E".to_string())),
        a(DW_AT_LOW_PC, AttrValue::Addr(0x1000)),
        a(DW_AT_HIGH_PC, AttrValue::Udata(0x40)),
    ])];
    let (scope, ranges) = extract_subprogram_node(&dies, 0, 0).expect("a function");
    assert!(matches!(scope, ExecutionScope::Function { ref display_name, .. } if display_name == "main"));
    assert_eq!(ranges, vec![AddressRange { low_pc: 0x1000, high_pc: 0x1040 }]);
    let at_zero = vec![d(0x20, DW_TAG_SUBPROGRAM, vec![
        a(DW_AT_NAME, AttrValue::Str("main".to_string())),
        a(DW_AT_LINKAGE_NAME, AttrValue::Str("_ZN4demo4main17h0E".to_string())),
        a(DW_AT_LOW_PC, AttrValue::Addr(0)),
        a(DW_AT_HIGH_PC, AttrValue::Udata(0x40)),
    ])];
    assert!(extract_subprogram_node(&at_zero, 0, 0).is_none());
}

#[test]
fn lexical_block_prefers_its_range_list() {
    let listed = vec![AddressRange { low_pc: 0x10, high_pc: 0x20 }, AddressRange { low_pc: 0x30, high_pc: 0x38 }];
    let dies = vec![d(0x30, DW_TAG_LEXICAL_BLOCK, vec![
        a(DW_AT_LOW_PC, AttrValue::Addr(0x10)),
        a(DW_AT_HIGH_PC, AttrValue::Addr(0x40)),
        a(DW_AT_RANGES, AttrValue::Ranges(listed.clone())),
    ])];
    let (scope, ranges) = extract_lexical_block_node(&dies, 0).expect("a block");
    assert!(matches!(scope, ExecutionScope::LexicalBlock));
    assert_eq!(ranges, listed);
    let single = vec![d(0x30, DW_TAG_LEXICAL_BLOCK, vec![
        a(DW_AT_LOW_PC, AttrValue::Addr(0x10)),
        a(DW_AT_HIGH_PC, AttrValue::Addr(0x40)),
    ])];
    assert_eq!(extract_lexical_block_node(&single, 0).expect("a block").1, vec![AddressRange { low_pc: 0x10, high_pc: 0x40 }]);
}
