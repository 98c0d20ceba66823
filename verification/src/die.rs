//! Debugging information entries (DIEs) of a compilation unit as plain
//! records, and the reading of their attributes.
//!
//! The ELF and DWARF parsers hand each unit over as the list of its entries in
//! depth-first order, with every reference and entry offset counted from the
//! start of `.debug_info`, strings already read and range lists resolved.
use crate::dwarf::{AddressRange, UnitEncoding};
use vstd::prelude::*;

verus! {

/// The `DW_TAG_*` codes of the entries the debugger reads.
pub const DW_TAG_ARRAY_TYPE: u16 = 0x01;
pub const DW_TAG_ENUMERATION_TYPE: u16 = 0x04;
pub const DW_TAG_FORMAL_PARAMETER: u16 = 0x05;
pub const DW_TAG_LEXICAL_BLOCK: u16 = 0x0b;
pub const DW_TAG_MEMBER: u16 = 0x0d;
pub const DW_TAG_POINTER_TYPE: u16 = 0x0f;
pub const DW_TAG_STRUCTURE_TYPE: u16 = 0x13;
pub const DW_TAG_VARIANT: u16 = 0x19;
pub const DW_TAG_INLINED_SUBROUTINE: u16 = 0x1d;
pub const DW_TAG_SUBRANGE_TYPE: u16 = 0x21;
pub const DW_TAG_BASE_TYPE: u16 = 0x24;
pub const DW_TAG_CONST_TYPE: u16 = 0x26;
pub const DW_TAG_ENUMERATOR: u16 = 0x28;
pub const DW_TAG_SUBPROGRAM: u16 = 0x2e;
pub const DW_TAG_TEMPLATE_TYPE_PARAMETER: u16 = 0x2f;
pub const DW_TAG_VARIANT_PART: u16 = 0x33;
pub const DW_TAG_VARIABLE: u16 = 0x34;

/// The `DW_AT_*` codes of the attributes the debugger reads.
pub const DW_AT_LOCATION: u16 = 0x02;
pub const DW_AT_NAME: u16 = 0x03;
pub const DW_AT_BYTE_SIZE: u16 = 0x0b;
pub const DW_AT_LOW_PC: u16 = 0x11;
pub const DW_AT_HIGH_PC: u16 = 0x12;
pub const DW_AT_DISCR: u16 = 0x15;
pub const DW_AT_DISCR_VALUE: u16 = 0x16;
pub const DW_AT_CONST_VALUE: u16 = 0x1c;
pub const DW_AT_ABSTRACT_ORIGIN: u16 = 0x31;
pub const DW_AT_COUNT: u16 = 0x37;
pub const DW_AT_DATA_MEMBER_LOCATION: u16 = 0x38;
pub const DW_AT_DECL_FILE: u16 = 0x3a;
pub const DW_AT_DECL_LINE: u16 = 0x3b;
pub const DW_AT_ENCODING: u16 = 0x3e;
pub const DW_AT_FRAME_BASE: u16 = 0x40;
pub const DW_AT_TYPE: u16 = 0x49;
pub const DW_AT_RANGES: u16 = 0x55;
pub const DW_AT_CALL_FILE: u16 = 0x58;
pub const DW_AT_CALL_LINE: u16 = 0x59;
pub const DW_AT_LINKAGE_NAME: u16 = 0x6e;
pub const DW_AT_ALIGNMENT: u16 = 0x88;

/// The value of an attribute, in the forms the debugger reads.
#[derive(Debug, Clone)]
pub enum AttrValue {
    Data1(u8),
    Data2(u16),
    Data4(u32),
    Data8(u64),
    Sdata(i64),
    Udata(u64),
    Addr(u64),
    /// A reference to another entry, by its `.debug_info` offset.
    UnitRef(usize),
    /// A string, from whichever string form it was stored in.
    Str(String),
    /// A DWARF expression.
    Exprloc(Vec<u8>),
    /// A base type encoding (`DW_ATE_*`).
    Encoding(u8),
    /// A resolved range list.
    Ranges(Vec<AddressRange>),
    /// Any form the debugger does not read.
    Other,
}

/// One attribute of an entry: its `DW_AT_*` name and its value.
#[derive(Debug, Clone)]
pub struct DieAttr {
    pub name: u16,
    pub value: AttrValue,
}

/// One entry: its `.debug_info` offset, its depth in the unit's tree, its
/// `DW_TAG_*` tag, whether it has children, and its attributes in order.
#[derive(Debug, Clone)]
pub struct DieRecord {
    pub offset: usize,
    pub depth: i64,
    pub tag: u16,
    pub has_children: bool,
    pub attrs: Vec<DieAttr>,
}

/// A compilation unit: its `.debug_info` offset, its encoding and its entries
/// in depth-first order, starting with the unit entry itself.
#[derive(Debug, Clone)]
pub struct UnitRecord {
    pub offset: usize,
    pub encoding: UnitEncoding,
    pub dies: Vec<DieRecord>,
}

/// The value as an unsigned constant: any data form, or a non-negative
/// signed one (gimli's `AttributeValue::udata_value`).
pub open spec fn udata_of(v: AttrValue) -> Option<u64> {
    match v {
        AttrValue::Data1(d) => Some(d as u64),
        AttrValue::Data2(d) => Some(d as u64),
        AttrValue::Data4(d) => Some(d as u64),
        AttrValue::Data8(d) => Some(d),
        AttrValue::Udata(d) => Some(d),
        AttrValue::Sdata(d) => if d < 0 {
            None
        } else {
            Some(d as u64)
        },
        _ => None,
    }
}

impl AttrValue {
    /// The value as an unsigned constant.
    pub fn udata_value(&self) -> (r: Option<u64>)
        ensures
            r == udata_of(*self),
    {
        match self {
            AttrValue::Data1(d) => Some(*d as u64),
            AttrValue::Data2(d) => Some(*d as u64),
            AttrValue::Data4(d) => Some(*d as u64),
            AttrValue::Data8(d) => Some(*d),
            AttrValue::Udata(d) => Some(*d),
            AttrValue::Sdata(d) => if *d < 0 {
                None
            } else {
                Some(*d as u64)
            },
            _ => None,
        }
    }
}

/// Which values of an attribute a reader takes.
#[derive(Debug, Clone, Copy, PartialEq, Eq)]
pub enum AttrKind {
    /// Every value.
    Any,
    /// Unsigned constants in any data form.
    Constant,
    /// The `Udata` form only.
    UdataOnly,
    UnitRef,
    Str,
    Addr,
    Exprloc,
    Encoding,
    Ranges,
}

/// Whether a reader of `kind` takes the value `v`.
pub open spec fn takes(kind: AttrKind, v: AttrValue) -> bool {
    match kind {
        AttrKind::Any => true,
        AttrKind::Constant => udata_of(v) is Some,
        AttrKind::UdataOnly => v is Udata,
        AttrKind::UnitRef => v is UnitRef,
        AttrKind::Str => v is Str,
        AttrKind::Addr => v is Addr,
        AttrKind::Exprloc => v is Exprloc,
        AttrKind::Encoding => v is Encoding,
        AttrKind::Ranges => v is Ranges,
    }
}

/// The value a reader of `kind` ends up with for the attribute `name` when it
/// goes through `attrs` in order, keeping the last value it takes.
pub open spec fn last_attr(attrs: Seq<DieAttr>, name: u16, kind: AttrKind) -> Option<AttrValue>
    decreases attrs.len(),
{
    if attrs.len() == 0 {
        None
    } else if attrs.last().name == name && takes(kind, attrs.last().value) {
        Some(attrs.last().value)
    } else {
        last_attr(attrs.drop_last(), name, kind)
    }
}

fn takes_exec(kind: AttrKind, v: &AttrValue) -> (r: bool)
    ensures
        r == takes(kind, *v),
{
    match kind {
        AttrKind::Any => true,
        AttrKind::Constant => v.udata_value().is_some(),
        AttrKind::UdataOnly => matches!(v, AttrValue::Udata(_)),
        AttrKind::UnitRef => matches!(v, AttrValue::UnitRef(_)),
        AttrKind::Str => matches!(v, AttrValue::Str(_)),
        AttrKind::Addr => matches!(v, AttrValue::Addr(_)),
        AttrKind::Exprloc => matches!(v, AttrValue::Exprloc(_)),
        AttrKind::Encoding => matches!(v, AttrValue::Encoding(_)),
        AttrKind::Ranges => matches!(v, AttrValue::Ranges(_)),
    }
}

/// The value a reader of `kind` keeps for attribute `name`.
pub fn find_attr(attrs: &Vec<DieAttr>, name: u16, kind: AttrKind) -> (r: Option<&AttrValue>)
    ensures
        match last_attr(attrs@, name, kind) {
            Some(v) => r matches Some(x) && *x == v,
            None => r is None,
        },
        r matches Some(x) ==> takes(kind, *x),
{
    let mut i = attrs.len();
    assert(attrs@.take(i as int) =~= attrs@);
    while i > 0
        invariant
            i <= attrs@.len(),
            last_attr(attrs@, name, kind) == last_attr(attrs@.take(i as int), name, kind),
        decreases i,
    {
        assert(attrs@.take(i as int).drop_last() =~= attrs@.take(i - 1));
        let a = &attrs[i - 1];
        if a.name == name && takes_exec(kind, &a.value) {
            return Some(&a.value);
        }
        i = i - 1;
    }
    None
}

/// The unsigned constant of attribute `name`.
pub open spec fn attr_constant(attrs: Seq<DieAttr>, name: u16) -> Option<u64> {
    match last_attr(attrs, name, AttrKind::Constant) {
        Some(v) => udata_of(v),
        None => None,
    }
}

/// The `Udata` value of attribute `name`.
pub open spec fn attr_udata(attrs: Seq<DieAttr>, name: u16) -> Option<u64> {
    match last_attr(attrs, name, AttrKind::UdataOnly) {
        Some(AttrValue::Udata(d)) => Some(d),
        _ => None,
    }
}

/// The entry that attribute `name` refers to.
pub open spec fn attr_ref(attrs: Seq<DieAttr>, name: u16) -> Option<usize> {
    match last_attr(attrs, name, AttrKind::UnitRef) {
        Some(AttrValue::UnitRef(o)) => Some(o),
        _ => None,
    }
}

/// The string of attribute `name`.
pub open spec fn attr_str(attrs: Seq<DieAttr>, name: u16) -> Option<Seq<char>> {
    match last_attr(attrs, name, AttrKind::Str) {
        Some(AttrValue::Str(s)) => Some(s@),
        _ => None,
    }
}

/// The address of attribute `name`.
pub open spec fn attr_addr(attrs: Seq<DieAttr>, name: u16) -> Option<u64> {
    match last_attr(attrs, name, AttrKind::Addr) {
        Some(AttrValue::Addr(a)) => Some(a),
        _ => None,
    }
}

/// The expression of attribute `name`.
pub open spec fn attr_exprloc(attrs: Seq<DieAttr>, name: u16) -> Option<Seq<u8>> {
    match last_attr(attrs, name, AttrKind::Exprloc) {
        Some(AttrValue::Exprloc(e)) => Some(e@),
        _ => None,
    }
}

/// The unsigned constant of attribute `name`, in any data form.
pub fn get_constant(attrs: &Vec<DieAttr>, name: u16) -> (r: Option<u64>)
    ensures
        r == attr_constant(attrs@, name),
{
    match find_attr(attrs, name, AttrKind::Constant) {
        Some(v) => v.udata_value(),
        None => None,
    }
}

/// The value of attribute `name` in the `Udata` form.
pub fn get_udata(attrs: &Vec<DieAttr>, name: u16) -> (r: Option<u64>)
    ensures
        r == attr_udata(attrs@, name),
{
    match find_attr(attrs, name, AttrKind::UdataOnly) {
        Some(AttrValue::Udata(d)) => Some(*d),
        _ => None,
    }
}

/// The `.debug_info` offset that attribute `name` refers to.
pub fn get_ref(attrs: &Vec<DieAttr>, name: u16) -> (r: Option<usize>)
    ensures
        r == attr_ref(attrs@, name),
{
    match find_attr(attrs, name, AttrKind::UnitRef) {
        Some(AttrValue::UnitRef(o)) => Some(*o),
        _ => None,
    }
}

/// The string of attribute `name`.
pub fn get_str(attrs: &Vec<DieAttr>, name: u16) -> (r: Option<String>)
    ensures
        match attr_str(attrs@, name) {
            Some(s) => r matches Some(x) && x@ == s,
            None => r is None,
        },
{
    match find_attr(attrs, name, AttrKind::Str) {
        Some(AttrValue::Str(s)) => Some(s.clone()),
        _ => None,
    }
}

/// The address of attribute `name`.
pub fn get_addr(attrs: &Vec<DieAttr>, name: u16) -> (r: Option<u64>)
    ensures
        r == attr_addr(attrs@, name),
{
    match find_attr(attrs, name, AttrKind::Addr) {
        Some(AttrValue::Addr(a)) => Some(*a),
        _ => None,
    }
}

/// The DWARF expression of attribute `name`.
pub fn get_exprloc(attrs: &Vec<DieAttr>, name: u16) -> (r: Option<Vec<u8>>)
    ensures
        match attr_exprloc(attrs@, name) {
            Some(e) => r matches Some(x) && x@ == e,
            None => r is None,
        },
{
    match find_attr(attrs, name, AttrKind::Exprloc) {
        Some(AttrValue::Exprloc(e)) => {
            let c = e.clone();
            assert(c@ =~= e@);
            Some(c)
        },
        _ => None,
    }
}

} // verus!
