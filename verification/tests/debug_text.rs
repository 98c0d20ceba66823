use imo::debug_text::{fields_debug, generics_debug, node_debug};
use imo::dwarf::{DwarfType, EnumVariant, Enumerator, GenericField, StructField, TypeCacheNode};

fn field(name: &str, type_offset: usize, location: u64) -> StructField {
    StructField { name: name.to_string(), type_offset, location }
}

#[test]
fn field_lists_read_as_derive_writes_them() {
    let fields = vec![field("buf", 0x40, 0), field("say \"hi\"\n", 7, 16)];
    assert_eq!(fields_debug(&fields), format!("{:?}", fields));
    assert_eq!(fields_debug(&vec![]), "[]");
    let generics = vec![GenericField { name: "T".to_string(), type_offset: 256 }, GenericField { name: "A".to_string(), type_offset: 3 }];
    assert_eq!(generics_debug(&generics), format!("{:?}", generics));
}

#[test]
fn type_entries_read_as_derive_writes_them() {
    let types = vec![
        DwarfType::Base { name: "i32".to_string(), encoding: 5, byte_size: 4 },
        DwarfType::Pointer { name: Some("&str".to_string()), target_type_offset: 9 },
        DwarfType::Pointer { name: None, target_type_offset: 0 },
        DwarfType::Const { target_type_offset: 12 },
        DwarfType::Array { target_type_offset: 1, count: 3 },
        DwarfType::Structure {
            name: "Vec<u8>".to_string(),
            byte_size: 24,
            alignment: 8,
            generics: vec![GenericField { name: "T".to_string(), type_offset: 256 }],
            fields: vec![field("buf", 0x40, 0), field("len", 0x18, 16)],
        },
        DwarfType::Enum {
            name: "Color".to_string(),
            byte_size: 1,
            fields: vec![Enumerator { name: "Red".to_string(), value: 0 }, Enumerator { name: "Blue".to_string(), value: 2 }],
        },
        DwarfType::Variant {
            name: "Option<i32>".to_string(),
            byte_size: 8,
            alignment: 4,
            discr_member_offset: Some(0),
            variants: vec![
                EnumVariant { discr_value: Some(0), fields: vec![field("None", 5, 0)] },
                EnumVariant { discr_value: None, fields: vec![] },
            ],
        },
    ];
    for (i, dwarf_type) in types.into_iter().enumerate() {
        let node = TypeCacheNode { dwarf_type, offset: 0x100 + i };
        assert_eq!(node_debug(&node), format!("{:?}", node));
    }
}
