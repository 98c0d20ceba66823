//! What a value of a DWARF type stored in the debuggee's memory is: the
//! meaning of the memory layouts the debugger reads, stated over the memory
//! of the stopped process (one word per address, one run of bytes per range).
use crate::decode::{bytes_view, missing_field_text, missing_generic_text, missing_size_text, reads_bytes, reads_words, utf8_lossy};
use crate::display::decimal;
use crate::dwarf::{byte_size_of, shown_type_name, size_fuel, DwarfType, EnumVariant, Enumerator, GenericField, StructField, TypeCacheNode};
use crate::sys::SystemError;
use crate::text::is_prefix;
use crate::value::{
    active_variant, all_tuple_fields, buffer_byte, buffer_of, bucket_addresses, entry_layout, enum_constant, first_enumerator,
    is_scalar_value, qualified, ring_slot_address, wrapper_of, DebugStructField, DebugValue, WrapperKind,
};
use vstd::prelude::*;

verus! {

/// A value as the user sees it.
pub enum ValueView {
    Integer(i64),
    Unsigned(u64),
    Usize(u64),
    Isize(i64),
    Float(u64),
    Float32(u32),
    Char(char),
    StringSlice(Seq<char>),
    String(Seq<char>),
    FilePath(Seq<char>),
    FilePathBuf(Seq<char>),
    Boolean(bool),
    Pointer(usize),
    Array(Seq<ValueView>),
    Vec(Seq<ValueView>),
    Tuple(Seq<ValueView>),
    PointerWrapper { kind: WrapperKind, value: Box<ValueView> },
    HashMap { entries: Seq<(ValueView, ValueView)> },
    HashSet { elements: Seq<ValueView> },
    Enum { name: Seq<char>, inner_name: Seq<char> },
    RawVecInner { heap_pointer_value: usize, cap: u64 },
    RawParts { heap_pointer_value: usize, len: u64, cap: u64 },
    RawTableInner { bucket_mask: u64, ctrl: usize, growth_left: u64, items: u64 },
    Variant { name: Seq<char>, field: Option<Box<ValueView>> },
    Struct { name: Seq<char>, fields: Seq<(Seq<char>, ValueView)> },
    /// The message shown in place of a value that cannot be read.
    Error(Seq<char>),
}

/// The view of a value.
pub open spec fn value_view(v: DebugValue) -> ValueView
    decreases v,
{
    match v {
        DebugValue::Integer(n) => ValueView::Integer(n),
        DebugValue::Unsigned(n) => ValueView::Unsigned(n),
        DebugValue::Usize(n) => ValueView::Usize(n),
        DebugValue::Isize(n) => ValueView::Isize(n),
        DebugValue::Float(b) => ValueView::Float(b),
        DebugValue::Float32(b) => ValueView::Float32(b),
        DebugValue::Char(c) => ValueView::Char(c),
        DebugValue::StringSlice(s) => ValueView::StringSlice(s@),
        DebugValue::String(s) => ValueView::String(s@),
        DebugValue::FilePath(s) => ValueView::FilePath(s@),
        DebugValue::FilePathBuf(s) => ValueView::FilePathBuf(s@),
        DebugValue::Boolean(b) => ValueView::Boolean(b),
        DebugValue::Pointer(p) => ValueView::Pointer(p),
        DebugValue::Array(xs) => ValueView::Array(values_view(xs@, xs@.len() as int)),
        DebugValue::Vec(xs) => ValueView::Vec(values_view(xs@, xs@.len() as int)),
        DebugValue::Tuple(xs) => ValueView::Tuple(values_view(xs@, xs@.len() as int)),
        DebugValue::PointerWrapper { kind, value } => ValueView::PointerWrapper {
            kind,
            value: Box::new(value_view(*value)),
        },
        DebugValue::HashMap { entries } => ValueView::HashMap {
            entries: entries_view(entries@, entries@.len() as int),
        },
        DebugValue::HashSet { elements } => ValueView::HashSet {
            elements: values_view(elements@, elements@.len() as int),
        },
        DebugValue::Enum { name, inner_name } => ValueView::Enum { name: name@, inner_name: inner_name@ },
        DebugValue::RawVecInner { heap_pointer_value, cap } => ValueView::RawVecInner {
            heap_pointer_value,
            cap,
        },
        DebugValue::RawParts { heap_pointer_value, len, cap } => ValueView::RawParts {
            heap_pointer_value,
            len,
            cap,
        },
        DebugValue::RawTableInner { bucket_mask, ctrl, growth_left, items } => ValueView::RawTableInner {
            bucket_mask,
            ctrl,
            growth_left,
            items,
        },
        DebugValue::Variant { name, field } => ValueView::Variant {
            name: name@,
            field: match field {
                Some(f) => Some(Box::new(value_view(*f))),
                None => None,
            },
        },
        DebugValue::Struct { name, fields } => ValueView::Struct {
            name: name@,
            fields: fields_view(fields@, fields@.len() as int),
        },
        DebugValue::Error(m) => ValueView::Error(m@),
    }
}

/// The views of the first `k` values.
pub open spec fn values_view(xs: Seq<DebugValue>, k: int) -> Seq<ValueView>
    decreases xs, k,
{
    if k <= 0 || k > xs.len() {
        Seq::empty()
    } else {
        values_view(xs, k - 1).push(value_view(xs[k - 1]))
    }
}

/// The views of the first `k` map entries.
pub open spec fn entries_view(es: Seq<(DebugValue, DebugValue)>, k: int) -> Seq<(ValueView, ValueView)>
    decreases es, k,
{
    if k <= 0 || k > es.len() {
        Seq::empty()
    } else {
        entries_view(es, k - 1).push((value_view(es[k - 1].0), value_view(es[k - 1].1)))
    }
}

/// The views of the first `k` structure fields, each with its name.
pub open spec fn fields_view(fs: Seq<DebugStructField>, k: int) -> Seq<(Seq<char>, ValueView)>
    decreases fs, k,
{
    if k <= 0 || k > fs.len() {
        Seq::empty()
    } else {
        fields_view(fs, k - 1).push((fs[k - 1].name@, value_view(fs[k - 1].value)))
    }
}

/// The view of a read: a value, nothing, or the failed system call.
pub open spec fn read_view(r: Result<Option<DebugValue>, SystemError>) -> Result<Option<ValueView>, SystemError> {
    match r {
        Ok(Some(v)) => Ok(Some(value_view(v))),
        Ok(None) => Ok(None),
        Err(e) => Err(e),
    }
}

/// The view of a value that may be absent.
pub open spec fn opt_view(v: Option<DebugValue>) -> Option<ValueView> {
    match v {
        Some(x) => Some(value_view(x)),
        None => None,
    }
}

/// The view of trying one layout: `None` where it does not apply.
pub open spec fn layout_view(r: Option<Result<Option<DebugValue>, SystemError>>) -> Option<Result<Option<ValueView>, SystemError>> {
    match r {
        Some(x) => Some(read_view(x)),
        None => None,
    }
}

/// The view of reading one field: the failed system call, a missing field
/// (the error value shown instead), or what the field holds.
pub open spec fn field_read_view(r: Result<Result<Option<DebugValue>, DebugValue>, SystemError>) -> FieldRead {
    match r {
        Err(e) => FieldRead::Sys(e),
        Ok(Err(e)) => FieldRead::Failed(error_text(e)),
        Ok(Ok(v)) => FieldRead::Read(opt_view(v)),
    }
}

/// The message of an error value.
pub open spec fn error_text(v: DebugValue) -> Seq<char> {
    match v {
        DebugValue::Error(m) => m@,
        _ => Seq::empty(),
    }
}

/// The message for a value nested deeper than the reading goes.
pub open spec fn nested_text() -> Seq<char> {
    "Value nested too deeply"@
}

/// The message for a field whose address does not fit in 64 bits.
pub open spec fn field_address_text() -> Seq<char> {
    "Field address out of range"@
}

/// The message for an element whose address does not fit in 64 bits.
pub open spec fn element_address_text() -> Seq<char> {
    "Element address out of range"@
}

/// The message for a bucket whose address does not fit in 64 bits.
pub open spec fn bucket_address_text() -> Seq<char> {
    "Bucket address out of range"@
}

/// The message for a type offset with no type in the index.
pub open spec fn missing_type_text(offset: usize) -> Seq<char> {
    "Failed to get type at offset: "@ + decimal(offset as nat)
}

/// The message for the type behind generic parameter `name` that cannot be
/// used: the parameter is missing, its type is unknown, or its size is.
pub open spec fn generic_error(generics: Seq<GenericField>, name: Seq<char>, ti: Map<usize, TypeCacheNode>) -> Seq<char> {
    match first_generic(generics, name) {
        None => missing_generic_text(name, generics),
        Some(g) => if !ti.contains_key(generics[g].type_offset) {
            missing_type_text(generics[g].type_offset)
        } else {
            missing_size_text(ti[generics[g].type_offset])
        },
    }
}

/// The message for the key and value types of a hash map that cannot be
/// used, as they are looked up: `K`, its type, `V`, its type, then the sizes.
pub open spec fn hashmap_types_error(generics: Seq<GenericField>, ti: Map<usize, TypeCacheNode>) -> Seq<char> {
    match first_generic(generics, "K"@) {
        None => missing_generic_text("K"@, generics),
        Some(k) => if !ti.contains_key(generics[k].type_offset) {
            missing_type_text(generics[k].type_offset)
        } else {
            match first_generic(generics, "V"@) {
                None => missing_generic_text("V"@, generics),
                Some(v) => if !ti.contains_key(generics[v].type_offset) {
                    missing_type_text(generics[v].type_offset)
                } else if size_at(ti, generics[k].type_offset) is None {
                    missing_size_text(ti[generics[k].type_offset])
                } else {
                    missing_size_text(ti[generics[v].type_offset])
                },
            }
        },
    }
}

/// The word at `address` as `peek` reads it.
pub open spec fn word_at<P: Fn(u64) -> Result<i64, SystemError>>(peek: &P, address: u64) -> Result<i64, SystemError> {
    choose|r: Result<i64, SystemError>| peek.ensures((address,), r)
}

/// The `len` bytes at `address` as `read_bytes` reads them.
pub open spec fn bytes_at<B: Fn(usize, usize) -> Result<Vec<u8>, SystemError>>(read_bytes: &B, address: usize, len: usize) -> Result<Seq<u8>, SystemError> {
    bytes_view(choose|r: Result<Vec<u8>, SystemError>| read_bytes.ensures((address, len), r))
}

/// A primitive value of type `name` (DWARF base-type encoding `encoding`,
/// `byte_size` bytes) held in the memory word `raw`: `usize` and `isize` by
/// name, then booleans, floating-point numbers (by their bits), signed and
/// unsigned integers (sign- or zero-extended from their size) and characters
/// (where the code is a Unicode scalar value) by encoding.
pub open spec fn base_value(name: Seq<char>, encoding: u8, byte_size: u64, raw: i64) -> Option<ValueView> {
    if name == "usize"@ {
        Some(ValueView::Usize(raw as u64))
    } else if name == "isize"@ {
        Some(ValueView::Isize(raw))
    } else if encoding == 2 {
        Some(ValueView::Boolean((raw & 0xFF) != 0))
    } else if encoding == 4 {
        if byte_size == 4 {
            Some(ValueView::Float32((raw & 0xFFFF_FFFF) as u32))
        } else if byte_size == 8 {
            Some(ValueView::Float(raw as u64))
        } else {
            None
        }
    } else if encoding == 5 {
        Some(
            ValueView::Integer(
                if byte_size == 1 {
                    raw as i8 as i64
                } else if byte_size == 2 {
                    raw as i16 as i64
                } else if byte_size == 4 {
                    raw as i32 as i64
                } else {
                    raw
                },
            ),
        )
    } else if encoding == 7 {
        Some(
            ValueView::Unsigned(
                if byte_size == 1 {
                    raw as u8 as u64
                } else if byte_size == 2 {
                    raw as u16 as u64
                } else if byte_size == 4 {
                    raw as u32 as u64
                } else {
                    raw as u64
                },
            ),
        )
    } else if encoding == 16 {
        if is_scalar_value(raw as u32) {
            Some(ValueView::Char((raw as u32) as char))
        } else {
            None
        }
    } else {
        None
    }
}

/// The constant of the C-like enum `name` held in the memory word `data`.
pub open spec fn enum_value(name: Seq<char>, byte_size: u64, fields: Seq<Enumerator>, data: i64) -> Option<ValueView> {
    match first_enumerator(fields, enum_constant(byte_size, data)) {
        Some(i) => Some(ValueView::Enum { name, inner_name: fields[i].name@ }),
        None => None,
    }
}

/// Where element `i` of `size` bytes lies in an array at `address`.
pub open spec fn element_address(address: u64, i: u64, size: u64) -> Option<u64> {
    if i * size > u64::MAX || address + i * size > u64::MAX {
        None
    } else {
        Some((address + i * size) as u64)
    }
}

/// `address + offset`, where it does not overflow.
pub open spec fn offset_address(address: u64, offset: u64) -> Option<u64> {
    if address + offset > u64::MAX {
        None
    } else {
        Some((address + offset) as u64)
    }
}

/// The outcome of reading a run of items: all of them, or the value the
/// whole read stops with (an error value, nothing, or a failed system call).
pub enum Items<T> {
    Done(Seq<T>),
    Stop(Result<Option<ValueView>, SystemError>),
}

/// `items` with `prefix` read before them.
pub open spec fn after<T>(prefix: Seq<T>, items: Items<T>) -> Items<T> {
    match items {
        Items::Done(s) => Items::Done(prefix + s),
        Items::Stop(r) => Items::Stop(r),
    }
}

/// The outcome of reading one field of a structure: a failed system call,
/// an error value (no such field, type or address), or what the field holds.
pub enum FieldRead {
    Sys(SystemError),
    /// The field cannot be read; the message is shown instead of the structure.
    Failed(Seq<char>),
    Read(Option<ValueView>),
}

/// The first field named `name`.
#[verifier::opaque]
pub open spec fn first_field(fields: Seq<StructField>, name: Seq<char>) -> Option<int> {
    if exists|i: int| 0 <= i < fields.len() && fields[i].name@ == name {
        Some(choose|i: int| 0 <= i < fields.len() && fields[i].name@ == name && forall|j: int| 0 <= j < i ==> fields[j].name@ != name)
    } else {
        None
    }
}

/// The first generic parameter named `name`.
#[verifier::opaque]
pub open spec fn first_generic(generics: Seq<GenericField>, name: Seq<char>) -> Option<int> {
    if exists|i: int| 0 <= i < generics.len() && generics[i].name@ == name {
        Some(
            choose|i: int|
                0 <= i < generics.len() && generics[i].name@ == name && forall|j: int| 0 <= j < i ==> generics[j].name@ != name,
        )
    } else {
        None
    }
}

/// The size of the type at `offset`, where the type is known and has one.
pub open spec fn size_at(ti: Map<usize, TypeCacheNode>, offset: usize) -> Option<u64> {
    if ti.contains_key(offset) {
        byte_size_of(ti[offset].dwarf_type, ti, size_fuel())
    } else {
        None
    }
}

/// The type behind generic parameter `name`, and its size.
pub open spec fn generic_type(generics: Seq<GenericField>, name: Seq<char>, ti: Map<usize, TypeCacheNode>) -> Option<(DwarfType, u64)> {
    match first_generic(generics, name) {
        None => None,
        Some(g) => if ti.contains_key(generics[g].type_offset) {
            match size_at(ti, generics[g].type_offset) {
                Some(s) => Some((ti[generics[g].type_offset].dwarf_type, s)),
                None => None,
            }
        } else {
            None
        },
    }
}

/// The byte a value contributes to a byte buffer: the lowest byte of an integer.
pub open spec fn view_byte(v: ValueView) -> Option<u8> {
    match v {
        ValueView::Integer(n) => Some(n as u8),
        ValueView::Unsigned(n) => Some(n as u8),
        _ => None,
    }
}

/// The bytes of the integers among `xs`.
pub open spec fn view_buffer(xs: Seq<ValueView>) -> Seq<u8>
    decreases xs.len(),
{
    if xs.len() == 0 {
        Seq::empty()
    } else {
        match view_byte(xs.last()) {
            Some(b) => view_buffer(xs.drop_last()).push(b),
            None => view_buffer(xs.drop_last()),
        }
    }
}

/// The value of type `ty` at `address`, reading nested values (behind
/// pointers, in fields and elements) at most `depth` levels down.
#[verifier::opaque]
pub open spec fn value_of<P: Fn(u64) -> Result<i64, SystemError>, B: Fn(usize, usize) -> Result<Vec<u8>, SystemError>>(
    ty: DwarfType,
    ti: Map<usize, TypeCacheNode>,
    address: u64,
    peek: &P,
    read_bytes: &B,
    depth: nat,
) -> Result<Option<ValueView>, SystemError>
    decreases depth, 3nat, 0int,
{
    match ty {
        DwarfType::Base { name, encoding, byte_size } => match word_at(peek, address) {
            Err(e) => Err(e),
            Ok(raw) => Ok(base_value(name@, encoding, byte_size, raw)),
        },
        DwarfType::Pointer { name, target_type_offset } => match word_at(peek, address) {
            Err(e) => Err(e),
            Ok(raw) => match name {
                None => Ok(Some(ValueView::Pointer(raw as usize))),
                Some(n) => if !ti.contains_key(target_type_offset) {
                    Ok(Some(ValueView::Error(missing_type_text(target_type_offset))))
                } else if depth == 0 {
                    Ok(Some(ValueView::Error(nested_text())))
                } else {
                    match value_of(ti[target_type_offset].dwarf_type, ti, raw as u64, peek, read_bytes, (depth - 1) as nat) {
                        Err(e) => Err(e),
                        Ok(None) => Ok(None),
                        Ok(Some(v)) => if n@.contains(';') {
                            Ok(Some(v))
                        } else {
                            match wrapper_of(n@) {
                                Some(kind) => Ok(Some(ValueView::PointerWrapper { kind, value: Box::new(v) })),
                                None => Ok(Some(ValueView::Pointer(raw as usize))),
                            }
                        },
                    }
                },
            },
        },
        DwarfType::Const { .. } => Ok(Some(ValueView::Error("Reading const-qualified types is not supported"@))),
        DwarfType::Array { target_type_offset, count } => if !ti.contains_key(target_type_offset) {
            Ok(Some(ValueView::Error(missing_type_text(target_type_offset))))
        } else {
            match size_at(ti, target_type_offset) {
                None => Ok(Some(ValueView::Error(missing_size_text(ti[target_type_offset])))),
                Some(size) => if depth == 0 {
                    Ok(Some(ValueView::Error(nested_text())))
                } else {
                    match element_items(ti[target_type_offset].dwarf_type, ti, address, size, count, 0, peek, read_bytes, depth) {
                        Items::Done(s) => Ok(Some(ValueView::Array(s))),
                        Items::Stop(r) => r,
                    }
                },
            }
        },
        DwarfType::Enum { name, byte_size, fields } => match word_at(peek, address) {
            Err(e) => Err(e),
            Ok(raw) => Ok(enum_value(name@, byte_size, fields@, raw)),
        },
        DwarfType::Variant { name, discr_member_offset, variants, .. } => match discr_member_offset {
            Some(off) => match offset_address(address, off) {
                None => Ok(Some(ValueView::Error(field_address_text()))),
                Some(at) => match word_at(peek, at) {
                    Err(e) => Err(e),
                    Ok(tag) => variant_of(name@, variants@, Some(tag as u8), ti, address, peek, read_bytes, depth),
                },
            },
            None => variant_of(name@, variants@, None, ti, address, peek, read_bytes, depth),
        },
        DwarfType::Structure { name, generics, fields, alignment, .. } => structure_of(
            name@,
            generics@,
            fields@,
            alignment,
            ti,
            address,
            peek,
            read_bytes,
            depth,
        ),
    }
}

/// The value of a Rust enum at `address` whose discriminant byte is `tag`:
/// the first field of the active variant, named after the enum.
#[verifier::opaque]
pub open spec fn variant_of<P: Fn(u64) -> Result<i64, SystemError>, B: Fn(usize, usize) -> Result<Vec<u8>, SystemError>>(
    name: Seq<char>,
    variants: Seq<EnumVariant>,
    tag: Option<u8>,
    ti: Map<usize, TypeCacheNode>,
    address: u64,
    peek: &P,
    read_bytes: &B,
    depth: nat,
) -> Result<Option<ValueView>, SystemError>
    decreases depth, 2nat, 0int,
{
    match active_variant(variants, tag) {
        None => Ok(Some(ValueView::Error("Could not find active enum"@))),
        Some(i) => if variants[i].fields@.len() == 0 {
            Ok(Some(ValueView::Error("Could not find active field"@)))
        } else {
            let field = variants[i].fields@[0];
            if !ti.contains_key(field.type_offset) {
                Ok(Some(ValueView::Error(missing_type_text(field.type_offset))))
            } else {
                let inner_ty = ti[field.type_offset].dwarf_type;
                match offset_address(address, field.location) {
                    None => Ok(Some(ValueView::Error(field_address_text()))),
                    Some(at) => if depth == 0 {
                        Ok(Some(ValueView::Error(nested_text())))
                    } else {
                        match value_of(inner_ty, ti, at, peek, read_bytes, (depth - 1) as nat) {
                            Err(e) => Err(e),
                            Ok(None) => Ok(None),
                            Ok(Some(v)) => Ok(Some(named_variant(name, shown_type_name(inner_ty), v))),
                        }
                    },
                }
            }
        },
    }
}

/// The variant value shown for the active variant of enum `enum_name` whose
/// first field, of type `inner_type_name`, holds `v`.
#[verifier::opaque]
pub open spec fn named_variant(enum_name: Seq<char>, inner_type_name: Seq<char>, v: ValueView) -> ValueView {
    match v {
        ValueView::Struct { name: struct_name, fields } => if fields.len() == 0 {
            ValueView::Variant { name: qualified(enum_name, struct_name), field: None }
        } else {
            ValueView::Variant { name: inner_type_name, field: None }
        },
        _ => ValueView::Variant { name: qualified(enum_name, inner_type_name), field: Some(Box::new(v)) },
    }
}

/// Elements `i` to `count` of an array of `size`-byte elements of type `elem`
/// at `address`.
#[verifier::opaque]
pub open spec fn element_items<P: Fn(u64) -> Result<i64, SystemError>, B: Fn(usize, usize) -> Result<Vec<u8>, SystemError>>(
    elem: DwarfType,
    ti: Map<usize, TypeCacheNode>,
    address: u64,
    size: u64,
    count: u64,
    i: u64,
    peek: &P,
    read_bytes: &B,
    depth: nat,
) -> Items<ValueView>
    decreases depth, 0nat, count - i,
{
    if i >= count || depth == 0 {
        Items::Done(Seq::empty())
    } else {
        match element_address(address, i, size) {
            None => Items::Stop(Ok(Some(ValueView::Error(element_address_text())))),
            Some(at) => match value_of(elem, ti, at, peek, read_bytes, (depth - 1) as nat) {
                Err(e) => Items::Stop(Err(e)),
                Ok(None) => Items::Stop(Ok(None)),
                Ok(Some(v)) => after(seq![v], element_items(elem, ti, address, size, count, (i + 1) as u64, peek, read_bytes, depth)),
            },
        }
    }
}

/// Elements `i` to `len` of a `VecDeque` of `size`-byte elements of type
/// `elem` in a ring buffer of `cap` slots at `heap`, starting at slot `head`.
#[verifier::opaque]
pub open spec fn ring_items<P: Fn(u64) -> Result<i64, SystemError>, B: Fn(usize, usize) -> Result<Vec<u8>, SystemError>>(
    elem: DwarfType,
    ti: Map<usize, TypeCacheNode>,
    heap: u64,
    head: u64,
    cap: u64,
    size: u64,
    len: u64,
    i: u64,
    peek: &P,
    read_bytes: &B,
    depth: nat,
) -> Items<ValueView>
    decreases depth, 0nat, len - i,
{
    if i >= len || depth == 0 {
        Items::Done(Seq::empty())
    } else {
        match ring_slot_address(heap, head, cap, size, i) {
            None => Items::Stop(Ok(Some(ValueView::Error(element_address_text())))),
            Some(at) => match value_of(elem, ti, at, peek, read_bytes, (depth - 1) as nat) {
                Err(e) => Items::Stop(Err(e)),
                Ok(None) => Items::Stop(Ok(None)),
                Ok(Some(v)) => after(seq![v], ring_items(elem, ti, heap, head, cap, size, len, (i + 1) as u64, peek, read_bytes, depth)),
            },
        }
    }
}

/// Buckets `i` to `total` of a `hashbrown` table whose control bytes start at
/// `ctrl`: each bucket whose control byte has its top bit clear holds a key of
/// type `key` and a value of type `value`.
#[verifier::opaque]
pub open spec fn bucket_items<P: Fn(u64) -> Result<i64, SystemError>, B: Fn(usize, usize) -> Result<Vec<u8>, SystemError>>(
    key: DwarfType,
    value: DwarfType,
    ti: Map<usize, TypeCacheNode>,
    ctrl: u64,
    total_offset: u64,
    value_offset: u64,
    total: u64,
    i: u64,
    peek: &P,
    read_bytes: &B,
    depth: nat,
) -> Items<(ValueView, ValueView)>
    decreases depth, 0nat, total - i,
{
    if i >= total || depth == 0 {
        Items::Done(Seq::empty())
    } else {
        let rest = bucket_items(key, value, ti, ctrl, total_offset, value_offset, total, (i + 1) as u64, peek, read_bytes, depth);
        match offset_address(ctrl, i) {
            None => Items::Stop(Ok(Some(ValueView::Error(bucket_address_text())))),
            Some(at) => match word_at(peek, at) {
                Err(e) => Items::Stop(Err(e)),
                Ok(byte) => if byte & 0x80 != 0 {
                    rest
                } else {
                    match bucket_addresses(ctrl, i, total_offset, value_offset) {
                        None => Items::Stop(Ok(Some(ValueView::Error(bucket_address_text())))),
                        Some((ka, va)) => match value_of(key, ti, ka, peek, read_bytes, (depth - 1) as nat) {
                            Err(e) => Items::Stop(Err(e)),
                            Ok(None) => Items::Stop(Ok(None)),
                            Ok(Some(k)) => match value_of(value, ti, va, peek, read_bytes, (depth - 1) as nat) {
                                Err(e) => Items::Stop(Err(e)),
                                Ok(None) => Items::Stop(Ok(None)),
                                Ok(Some(v)) => after(seq![(k, v)], rest),
                            },
                        },
                    }
                },
            },
        }
    }
}

/// The field `target` of a structure at `address`.
#[verifier::opaque]
pub open spec fn field_of<P: Fn(u64) -> Result<i64, SystemError>, B: Fn(usize, usize) -> Result<Vec<u8>, SystemError>>(
    fields: Seq<StructField>,
    target: Seq<char>,
    ti: Map<usize, TypeCacheNode>,
    address: u64,
    peek: &P,
    read_bytes: &B,
    depth: nat,
) -> FieldRead
    decreases depth, 1nat, 0int,
{
    match first_field(fields, target) {
        None => FieldRead::Failed(missing_field_text(target, fields)),
        Some(i) => if !ti.contains_key(fields[i].type_offset) {
            FieldRead::Failed(missing_type_text(fields[i].type_offset))
        } else {
            match offset_address(address, fields[i].location) {
                None => FieldRead::Failed(field_address_text()),
                Some(at) => if depth == 0 {
                    FieldRead::Failed(nested_text())
                } else {
                    match value_of(ti[fields[i].type_offset].dwarf_type, ti, at, peek, read_bytes, (depth - 1) as nat) {
                        Err(e) => FieldRead::Sys(e),
                        Ok(v) => FieldRead::Read(v),
                    }
                },
            }
        },
    }
}

/// The value of a layout that applies, else `otherwise`.
pub open spec fn or_else<T>(layout: Option<T>, otherwise: T) -> T {
    match layout {
        Some(r) => r,
        None => otherwise,
    }
}

/// A `String`: the text of the bytes in its `vec` field.
#[verifier::opaque]
pub open spec fn string_layout_of<P: Fn(u64) -> Result<i64, SystemError>, B: Fn(usize, usize) -> Result<Vec<u8>, SystemError>>(
    name: Seq<char>,
    fields: Seq<StructField>,
    ti: Map<usize, TypeCacheNode>,
    address: u64,
    peek: &P,
    read_bytes: &B,
    depth: nat,
) -> Option<Result<Option<ValueView>, SystemError>>
    decreases depth, 2nat, 0int,
{
    if name != "String"@ {
        None
    } else {
        match field_of(fields, "vec"@, ti, address, peek, read_bytes, depth) {
            FieldRead::Sys(e) => Some(Err(e)),
            FieldRead::Failed(m) => Some(Ok(Some(ValueView::Error(m)))),
            FieldRead::Read(Some(ValueView::Vec(buf))) => Some(Ok(Some(ValueView::String(utf8_lossy(view_buffer(buf)))))),
            FieldRead::Read(_) => None,
        }
    }
}

/// A `PathBuf`: the text of the bytes in its `inner` field.
#[verifier::opaque]
pub open spec fn path_buf_layout_of<P: Fn(u64) -> Result<i64, SystemError>, B: Fn(usize, usize) -> Result<Vec<u8>, SystemError>>(
    name: Seq<char>,
    fields: Seq<StructField>,
    ti: Map<usize, TypeCacheNode>,
    address: u64,
    peek: &P,
    read_bytes: &B,
    depth: nat,
) -> Option<Result<Option<ValueView>, SystemError>>
    decreases depth, 2nat, 0int,
{
    if name != "PathBuf"@ {
        None
    } else {
        match field_of(fields, "inner"@, ti, address, peek, read_bytes, depth) {
            FieldRead::Sys(e) => Some(Err(e)),
            FieldRead::Failed(m) => Some(Ok(Some(ValueView::Error(m)))),
            FieldRead::Read(Some(ValueView::Vec(buf))) => Some(Ok(Some(ValueView::FilePathBuf(utf8_lossy(view_buffer(buf)))))),
            FieldRead::Read(_) => None,
        }
    }
}

/// A `Vec`: the `len` elements of the type of its parameter `T` that its
/// `buf` points to.
#[verifier::opaque]
pub open spec fn vec_layout_of<P: Fn(u64) -> Result<i64, SystemError>, B: Fn(usize, usize) -> Result<Vec<u8>, SystemError>>(
    name: Seq<char>,
    generics: Seq<GenericField>,
    fields: Seq<StructField>,
    ti: Map<usize, TypeCacheNode>,
    address: u64,
    peek: &P,
    read_bytes: &B,
    depth: nat,
) -> Option<Result<Option<ValueView>, SystemError>>
    decreases depth, 2nat, 0int,
{
    if !is_prefix("Vec<"@, name) {
        None
    } else {
        match field_of(fields, "len"@, ti, address, peek, read_bytes, depth) {
            FieldRead::Sys(e) => Some(Err(e)),
            FieldRead::Failed(m) => Some(Ok(Some(ValueView::Error(m)))),
            FieldRead::Read(len) => match field_of(fields, "buf"@, ti, address, peek, read_bytes, depth) {
                FieldRead::Sys(e) => Some(Err(e)),
                FieldRead::Failed(m) => Some(Ok(Some(ValueView::Error(m)))),
                FieldRead::Read(buf) => match generic_type(generics, "T"@, ti) {
                    None => Some(Ok(Some(ValueView::Error(generic_error(generics, "T"@, ti))))),
                    Some((elem, size)) => match (buf, len) {
                        (Some(ValueView::RawVecInner { heap_pointer_value, .. }), Some(ValueView::Usize(n))) => if depth == 0 {
                            Some(Ok(Some(ValueView::Error(nested_text()))))
                        } else {
                            match element_items(elem, ti, heap_pointer_value as u64, size, n, 0, peek, read_bytes, depth) {
                                Items::Done(s) => Some(Ok(Some(ValueView::Vec(s)))),
                                Items::Stop(r) => Some(r),
                            }
                        },
                        _ => None,
                    },
                },
            },
        }
    }
}

/// A `VecDeque`: the `len` elements of the type of its parameter `T` in the
/// ring buffer that its `buf` points to, from slot `head` on.
#[verifier::opaque]
pub open spec fn vec_deque_layout_of<P: Fn(u64) -> Result<i64, SystemError>, B: Fn(usize, usize) -> Result<Vec<u8>, SystemError>>(
    name: Seq<char>,
    generics: Seq<GenericField>,
    fields: Seq<StructField>,
    ti: Map<usize, TypeCacheNode>,
    address: u64,
    peek: &P,
    read_bytes: &B,
    depth: nat,
) -> Option<Result<Option<ValueView>, SystemError>>
    decreases depth, 2nat, 0int,
{
    if !is_prefix("VecDeque<"@, name) {
        None
    } else {
        match field_of(fields, "len"@, ti, address, peek, read_bytes, depth) {
            FieldRead::Sys(e) => Some(Err(e)),
            FieldRead::Failed(m) => Some(Ok(Some(ValueView::Error(m)))),
            FieldRead::Read(len) => match field_of(fields, "buf"@, ti, address, peek, read_bytes, depth) {
                FieldRead::Sys(e) => Some(Err(e)),
                FieldRead::Failed(m) => Some(Ok(Some(ValueView::Error(m)))),
                FieldRead::Read(buf) => match field_of(fields, "head"@, ti, address, peek, read_bytes, depth) {
                    FieldRead::Sys(e) => Some(Err(e)),
                    FieldRead::Failed(m) => Some(Ok(Some(ValueView::Error(m)))),
                    FieldRead::Read(head) => match generic_type(generics, "T"@, ti) {
                        None => Some(Ok(Some(ValueView::Error(generic_error(generics, "T"@, ti))))),
                        Some((elem, size)) => match (buf, len, head) {
                            (
                                Some(ValueView::RawVecInner { heap_pointer_value, cap }),
                                Some(ValueView::Usize(n)),
                                Some(ValueView::Usize(h)),
                            ) => if depth == 0 {
                                Some(Ok(Some(ValueView::Error(nested_text()))))
                            } else {
                                match ring_items(elem, ti, heap_pointer_value as u64, h, cap, size, n, 0, peek, read_bytes, depth) {
                                    Items::Done(s) => Some(Ok(Some(ValueView::Vec(s)))),
                                    Items::Stop(r) => Some(r),
                                }
                            },
                            _ => None,
                        },
                    },
                },
            },
        }
    }
}

/// A `HashSet` (with a `map` field): the keys of its map.
#[verifier::opaque]
pub open spec fn hash_set_layout_of<P: Fn(u64) -> Result<i64, SystemError>, B: Fn(usize, usize) -> Result<Vec<u8>, SystemError>>(
    name: Seq<char>,
    fields: Seq<StructField>,
    ti: Map<usize, TypeCacheNode>,
    address: u64,
    peek: &P,
    read_bytes: &B,
    depth: nat,
) -> Option<Result<Option<ValueView>, SystemError>>
    decreases depth, 2nat, 0int,
{
    if !(is_prefix("HashSet<"@, name) && first_field(fields, "map"@) is Some) {
        None
    } else {
        match field_of(fields, "map"@, ti, address, peek, read_bytes, depth) {
            FieldRead::Sys(e) => Some(Err(e)),
            FieldRead::Failed(m) => Some(Ok(Some(ValueView::Error(m)))),
            FieldRead::Read(Some(ValueView::HashMap { entries })) => Some(
                Ok(Some(ValueView::HashSet { elements: entries.map_values(|e: (ValueView, ValueView)| e.0) })),
            ),
            FieldRead::Read(_) => None,
        }
    }
}

/// A `HashMap` (with a `table` field): the entries of its table.
#[verifier::opaque]
pub open spec fn hash_map_layout_of<P: Fn(u64) -> Result<i64, SystemError>, B: Fn(usize, usize) -> Result<Vec<u8>, SystemError>>(
    name: Seq<char>,
    generics: Seq<GenericField>,
    fields: Seq<StructField>,
    alignment: u64,
    ti: Map<usize, TypeCacheNode>,
    address: u64,
    peek: &P,
    read_bytes: &B,
    depth: nat,
) -> Option<Result<Option<ValueView>, SystemError>>
    decreases depth, 2nat, 0int,
{
    if !(is_prefix("HashMap<"@, name) && first_field(fields, "table"@) is Some) {
        None
    } else {
        match field_of(fields, "table"@, ti, address, peek, read_bytes, depth) {
            FieldRead::Sys(e) => Some(Err(e)),
            FieldRead::Failed(m) => Some(Ok(Some(ValueView::Error(m)))),
            FieldRead::Read(Some(ValueView::RawTableInner { bucket_mask, ctrl, .. })) => Some(
                hashmap_of(generics, alignment, bucket_mask, ctrl, ti, peek, read_bytes, depth),
            ),
            FieldRead::Read(_) => None,
        }
    }
}

/// The raw part of a vector: its heap pointer and capacity.
#[verifier::opaque]
pub open spec fn raw_vec_layout_of<P: Fn(u64) -> Result<i64, SystemError>, B: Fn(usize, usize) -> Result<Vec<u8>, SystemError>>(
    name: Seq<char>,
    fields: Seq<StructField>,
    ti: Map<usize, TypeCacheNode>,
    address: u64,
    peek: &P,
    read_bytes: &B,
    depth: nat,
) -> Option<Result<Option<ValueView>, SystemError>>
    decreases depth, 2nat, 0int,
{
    if name != "RawVecInner<alloc::alloc::Global>"@ {
        None
    } else {
        match field_of(fields, "ptr"@, ti, address, peek, read_bytes, depth) {
            FieldRead::Sys(e) => Some(Err(e)),
            FieldRead::Failed(m) => Some(Ok(Some(ValueView::Error(m)))),
            FieldRead::Read(ptr) => match field_of(fields, "cap"@, ti, address, peek, read_bytes, depth) {
                FieldRead::Sys(e) => Some(Err(e)),
                FieldRead::Failed(m) => Some(Ok(Some(ValueView::Error(m)))),
                FieldRead::Read(cap) => match (ptr, cap) {
                    (Some(ValueView::Pointer(p)), Some(ValueView::Usize(c))) => Some(
                        Ok(Some(ValueView::RawVecInner { heap_pointer_value: p, cap: c })),
                    ),
                    _ => None,
                },
            },
        }
    }
}

/// The raw part of a hash table: its bucket mask, control bytes, growth
/// allowance and item count.
#[verifier::opaque]
pub open spec fn raw_table_layout_of<P: Fn(u64) -> Result<i64, SystemError>, B: Fn(usize, usize) -> Result<Vec<u8>, SystemError>>(
    name: Seq<char>,
    fields: Seq<StructField>,
    ti: Map<usize, TypeCacheNode>,
    address: u64,
    peek: &P,
    read_bytes: &B,
    depth: nat,
) -> Option<Result<Option<ValueView>, SystemError>>
    decreases depth, 2nat, 0int,
{
    if name != "RawTableInner"@ {
        None
    } else {
        match field_of(fields, "bucket_mask"@, ti, address, peek, read_bytes, depth) {
            FieldRead::Sys(e) => Some(Err(e)),
            FieldRead::Failed(m) => Some(Ok(Some(ValueView::Error(m)))),
            FieldRead::Read(bm) => match field_of(fields, "ctrl"@, ti, address, peek, read_bytes, depth) {
                FieldRead::Sys(e) => Some(Err(e)),
                FieldRead::Failed(m) => Some(Ok(Some(ValueView::Error(m)))),
                FieldRead::Read(ct) => match field_of(fields, "growth_left"@, ti, address, peek, read_bytes, depth) {
                    FieldRead::Sys(e) => Some(Err(e)),
                    FieldRead::Failed(m) => Some(Ok(Some(ValueView::Error(m)))),
                    FieldRead::Read(gl) => match field_of(fields, "items"@, ti, address, peek, read_bytes, depth) {
                        FieldRead::Sys(e) => Some(Err(e)),
                        FieldRead::Failed(m) => Some(Ok(Some(ValueView::Error(m)))),
                        FieldRead::Read(it) => match (bm, ct, gl, it) {
                            (
                                Some(ValueView::Usize(b)),
                                Some(ValueView::Pointer(c)),
                                Some(ValueView::Usize(g)),
                                Some(ValueView::Usize(n)),
                            ) => Some(Ok(Some(ValueView::RawTableInner { bucket_mask: b, ctrl: c, growth_left: g, items: n }))),
                            _ => None,
                        },
                    },
                },
            },
        }
    }
}

/// The value of a structure at `address`: the first of the known layouts
/// that applies (`String`, `PathBuf`, `Vec`, `VecDeque`, `HashSet`,
/// `HashMap`, the raw parts of vectors and tables), else the structure as
/// it stands.
#[verifier::opaque]
pub open spec fn structure_of<P: Fn(u64) -> Result<i64, SystemError>, B: Fn(usize, usize) -> Result<Vec<u8>, SystemError>>(
    name: Seq<char>,
    generics: Seq<GenericField>,
    fields: Seq<StructField>,
    alignment: u64,
    ti: Map<usize, TypeCacheNode>,
    address: u64,
    peek: &P,
    read_bytes: &B,
    depth: nat,
) -> Result<Option<ValueView>, SystemError>
    decreases depth, 2nat, 1int,
{
    or_else(
        string_layout_of(name, fields, ti, address, peek, read_bytes, depth),
        or_else(
            path_buf_layout_of(name, fields, ti, address, peek, read_bytes, depth),
            or_else(
                vec_layout_of(name, generics, fields, ti, address, peek, read_bytes, depth),
                or_else(
                    vec_deque_layout_of(name, generics, fields, ti, address, peek, read_bytes, depth),
                    or_else(
                        hash_set_layout_of(name, fields, ti, address, peek, read_bytes, depth),
                        or_else(
                            hash_map_layout_of(name, generics, fields, alignment, ti, address, peek, read_bytes, depth),
                            or_else(
                                raw_vec_layout_of(name, fields, ti, address, peek, read_bytes, depth),
                                or_else(
                                    raw_table_layout_of(name, fields, ti, address, peek, read_bytes, depth),
                                    plain_structure_of(name, fields, ti, address, peek, read_bytes, depth),
                                ),
                            ),
                        ),
                    ),
                ),
            ),
        ),
    )
}

/// The entries of a hash map whose table has `bucket_mask + 1` buckets and
/// control bytes at `ctrl`, its keys and values of the types of the generic
/// parameters `K` and `V`.
#[verifier::opaque]
pub open spec fn hashmap_of<P: Fn(u64) -> Result<i64, SystemError>, B: Fn(usize, usize) -> Result<Vec<u8>, SystemError>>(
    generics: Seq<GenericField>,
    alignment: u64,
    bucket_mask: u64,
    ctrl: usize,
    ti: Map<usize, TypeCacheNode>,
    peek: &P,
    read_bytes: &B,
    depth: nat,
) -> Result<Option<ValueView>, SystemError>
    decreases depth, 1nat, 0int,
{
    match (generic_type(generics, "K"@, ti), generic_type(generics, "V"@, ti)) {
        (Some((key, key_size)), Some((value, value_size))) => match entry_layout(key_size, value_size, alignment) {
            None => Ok(Some(ValueView::Error("Could not lay out hash map entries"@))),
            Some((value_offset, total_offset)) => if bucket_mask == u64::MAX {
                Ok(Some(ValueView::Error("Could not lay out hash map entries"@)))
            } else if depth == 0 {
                Ok(Some(ValueView::Error(nested_text())))
            } else {
                match bucket_items(key, value, ti, ctrl as u64, total_offset, value_offset, (bucket_mask + 1) as u64, 0, peek, read_bytes, depth) {
                    Items::Done(s) => Ok(Some(ValueView::HashMap { entries: s })),
                    Items::Stop(r) => r,
                }
            },
        },
        _ => Ok(Some(ValueView::Error(hashmap_types_error(generics, ti)))),
    }
}

/// Whether a field takes space: its type is unknown, or its size is known and not zero.
pub open spec fn takes_space(ti: Map<usize, TypeCacheNode>, f: StructField) -> bool {
    !ti.contains_key(f.type_offset) || (size_at(ti, f.type_offset) matches Some(s) && s > 0)
}

/// How many of the first `k` fields take space.
pub open spec fn space_count(ti: Map<usize, TypeCacheNode>, fields: Seq<StructField>, k: int) -> nat
    decreases k,
{
    if k <= 0 || k > fields.len() {
        0
    } else {
        space_count(ti, fields, k - 1) + if takes_space(ti, fields[k - 1]) {
            1nat
        } else {
            0nat
        }
    }
}

/// The first field that takes space.
pub open spec fn first_spaced(ti: Map<usize, TypeCacheNode>, fields: Seq<StructField>) -> int {
    choose|i: int| 0 <= i < fields.len() && takes_space(ti, fields[i]) && forall|j: int| 0 <= j < i ==> !takes_space(ti, #[trigger] fields[j])
}

/// Fields `i` to the end of a structure at `address`, each with its name.
#[verifier::opaque]
pub open spec fn field_items<P: Fn(u64) -> Result<i64, SystemError>, B: Fn(usize, usize) -> Result<Vec<u8>, SystemError>>(
    fields: Seq<StructField>,
    ti: Map<usize, TypeCacheNode>,
    address: u64,
    i: int,
    peek: &P,
    read_bytes: &B,
    depth: nat,
) -> Items<(Seq<char>, ValueView)>
    decreases depth, 0nat, fields.len() - i,
{
    if i < 0 || i >= fields.len() || depth == 0 {
        Items::Done(Seq::empty())
    } else {
        let f = fields[i];
        if !ti.contains_key(f.type_offset) {
            Items::Stop(Ok(Some(ValueView::Error(missing_type_text(f.type_offset)))))
        } else {
            match offset_address(address, f.location) {
                None => Items::Stop(Ok(Some(ValueView::Error(field_address_text())))),
                Some(at) => match value_of(ti[f.type_offset].dwarf_type, ti, at, peek, read_bytes, (depth - 1) as nat) {
                    Err(e) => Items::Stop(Err(e)),
                    Ok(None) => Items::Stop(Ok(None)),
                    Ok(Some(v)) => after(seq![(f.name@, v)], field_items(fields, ti, address, i + 1, peek, read_bytes, depth)),
                },
            }
        }
    }
}

/// A structure with no known layout: a structure with one field that takes
/// space shows as that field; `&str` and `&Path` (a pointer and a length) as
/// the text of the bytes they point to; a structure whose fields are all
/// positional as a tuple; any other as its named fields.
#[verifier::opaque]
pub open spec fn plain_structure_of<P: Fn(u64) -> Result<i64, SystemError>, B: Fn(usize, usize) -> Result<Vec<u8>, SystemError>>(
    name: Seq<char>,
    fields: Seq<StructField>,
    ti: Map<usize, TypeCacheNode>,
    address: u64,
    peek: &P,
    read_bytes: &B,
    depth: nat,
) -> Result<Option<ValueView>, SystemError>
    decreases depth, 1nat, 0int,
{
    if depth == 0 {
        Ok(Some(ValueView::Error(nested_text())))
    } else {
        let single = fields[first_spaced(ti, fields)];
        if space_count(ti, fields, fields.len() as int) == 1 && ti.contains_key(single.type_offset) {
            match offset_address(address, single.location) {
                None => Ok(Some(ValueView::Error(field_address_text()))),
                Some(at) => value_of(ti[single.type_offset].dwarf_type, ti, at, peek, read_bytes, (depth - 1) as nat),
            }
        } else {
            match field_items(fields, ti, address, 0, peek, read_bytes, depth) {
                Items::Stop(r) => r,
                Items::Done(values) => {
                    let is_str = name == "&str"@;
                    let text = if (is_str || name == "&std::path::Path"@) && values.len() == 2 {
                        match (values[0].1, values[1].1) {
                            (ValueView::Pointer(ptr), ValueView::Usize(len)) => Some(bytes_at(read_bytes, ptr, len as usize)),
                            _ => None,
                        }
                    } else {
                        None
                    };
                    match text {
                        Some(Err(e)) => Err(e),
                        Some(Ok(bytes)) => if is_str {
                            Ok(Some(ValueView::StringSlice(utf8_lossy(bytes))))
                        } else {
                            Ok(Some(ValueView::FilePath(utf8_lossy(bytes))))
                        },
                        None => if all_tuple_fields(fields) {
                            Ok(Some(ValueView::Tuple(values.map_values(|f: (Seq<char>, ValueView)| f.1))))
                        } else {
                            Ok(Some(ValueView::Struct { name, fields: values }))
                        },
                    }
                },
            }
        }
    }
}

/// A read of the word at `a` gives the word there.
pub(crate) proof fn lemma_word_read<P: Fn(u64) -> Result<i64, SystemError>>(peek: &P, a: u64, r: Result<i64, SystemError>)
    requires
        reads_words(peek),
        peek.ensures((a,), r),
    ensures
        word_at(peek, a) == r,
{
    let c = choose|x: Result<i64, SystemError>| peek.ensures((a,), x);
    assert(peek.ensures((a,), c));
}

/// A read of the `l` bytes at `p` gives the bytes there.
pub(crate) proof fn lemma_bytes_read<B: Fn(usize, usize) -> Result<Vec<u8>, SystemError>>(
    read_bytes: &B,
    p: usize,
    l: usize,
    r: Result<Vec<u8>, SystemError>,
)
    requires
        reads_bytes(read_bytes),
        read_bytes.ensures((p, l), r),
    ensures
        bytes_at(read_bytes, p, l) == bytes_view(r),
{
    let c = choose|x: Result<Vec<u8>, SystemError>| read_bytes.ensures((p, l), x);
    assert(read_bytes.ensures((p, l), c));
}

/// The views of the first `k` values, one by one.
pub(crate) proof fn lemma_values_view(xs: Seq<DebugValue>, k: int)
    requires
        0 <= k <= xs.len(),
    ensures
        values_view(xs, k) == Seq::new(k as nat, |j: int| value_view(xs[j])),
    decreases k,
{
    if k > 0 {
        lemma_values_view(xs, k - 1);
    }
    assert(values_view(xs, k) =~= Seq::new(k as nat, |j: int| value_view(xs[j])));
}

/// The views of the first `k` map entries, one by one.
pub(crate) proof fn lemma_entries_view(es: Seq<(DebugValue, DebugValue)>, k: int)
    requires
        0 <= k <= es.len(),
    ensures
        entries_view(es, k) == Seq::new(k as nat, |j: int| (value_view(es[j].0), value_view(es[j].1))),
    decreases k,
{
    if k > 0 {
        lemma_entries_view(es, k - 1);
    }
    assert(entries_view(es, k) =~= Seq::new(k as nat, |j: int| (value_view(es[j].0), value_view(es[j].1))));
}

/// The views of the first `k` structure fields, one by one.
pub(crate) proof fn lemma_fields_view(fs: Seq<DebugStructField>, k: int)
    requires
        0 <= k <= fs.len(),
    ensures
        fields_view(fs, k) == Seq::new(k as nat, |j: int| (fs[j].name@, value_view(fs[j].value))),
    decreases k,
{
    if k > 0 {
        lemma_fields_view(fs, k - 1);
    }
    assert(fields_view(fs, k) =~= Seq::new(k as nat, |j: int| (fs[j].name@, value_view(fs[j].value))));
}

/// Reading `x` after `prefix`, then the rest, is reading the rest after `prefix` and `x`.
pub(crate) proof fn lemma_after_push<T>(prefix: Seq<T>, x: T, rest: Items<T>)
    ensures
        after(prefix, after(seq![x], rest)) == after(prefix.push(x), rest),
{
    if let Items::Done(s) = rest {
        assert(prefix + (seq![x] + s) =~= prefix.push(x) + s);
    }
}

/// The bytes of the integers among some values, as the views see them.
pub(crate) proof fn lemma_buffer_view(xs: Seq<DebugValue>)
    ensures
        view_buffer(Seq::new(xs.len(), |j: int| value_view(xs[j]))) == buffer_of(xs),
    decreases xs.len(),
{
    if xs.len() > 0 {
        lemma_buffer_view(xs.drop_last());
        let v = Seq::new(xs.len(), |j: int| value_view(xs[j]));
        assert(v.drop_last() =~= Seq::new(xs.drop_last().len(), |j: int| value_view(xs.drop_last()[j])));
        assert(view_byte(v.last()) == buffer_byte(xs.last()));
    }
}

/// `variant_of` one step down: the first field of the active variant, read
/// as its type.
pub(crate) proof fn lemma_variant_of<P: Fn(u64) -> Result<i64, SystemError>, B: Fn(usize, usize) -> Result<Vec<u8>, SystemError>>(
    name: Seq<char>,
    variants: Seq<EnumVariant>,
    tag: Option<u8>,
    ti: Map<usize, TypeCacheNode>,
    address: u64,
    peek: &P,
    read_bytes: &B,
    depth: nat,
)
    ensures
        variant_of(name, variants, tag, ti, address, peek, read_bytes, depth) == match active_variant(variants, tag) {
            None => Ok(Some(ValueView::Error("Could not find active enum"@))),
            Some(i) => if variants[i].fields@.len() == 0 {
                Ok(Some(ValueView::Error("Could not find active field"@)))
            } else {
                let field = variants[i].fields@[0];
                if !ti.contains_key(field.type_offset) {
                    Ok(Some(ValueView::Error(missing_type_text(field.type_offset))))
                } else {
                    let inner_ty = ti[field.type_offset].dwarf_type;
                    match offset_address(address, field.location) {
                        None => Ok(Some(ValueView::Error(field_address_text()))),
                        Some(at) => if depth == 0 {
                            Ok(Some(ValueView::Error(nested_text())))
                        } else {
                            match value_of(inner_ty, ti, at, peek, read_bytes, (depth - 1) as nat) {
                                Err(e) => Err(e),
                                Ok(None) => Ok(None),
                                Ok(Some(v)) => Ok(Some(named_variant(name, shown_type_name(inner_ty), v))),
                            }
                        },
                    }
                }
            },
        },
{
    reveal_with_fuel(variant_of, 1);
    reveal_with_fuel(value_of, 1);
}

} // verus!

verus! {

/// How many values an integer of `byte_size` bytes (1, 2, 4 or 8) takes.
pub open spec fn integer_modulus(byte_size: u64) -> int {
    if byte_size == 1 {
        0x100
    } else if byte_size == 2 {
        0x1_0000
    } else if byte_size == 4 {
        0x1_0000_0000
    } else {
        0x1_0000_0000_0000_0000
    }
}

/// The low `byte_size` bytes of the memory word `raw`, as an unsigned number.
pub open spec fn low_bytes(raw: i64, byte_size: u64) -> int {
    (raw as u64) as int % integer_modulus(byte_size)
}

/// A signed integer of 1, 2, 4 or 8 bytes reads as the two's complement of
/// the low bytes of its memory word: the low bytes as a number where the top
/// bit is clear, that number less the modulus where it is set (so a negative
/// value reads as negative). An unsigned one reads as the low bytes.
pub proof fn law_integers_read_from_their_low_bytes(name: Seq<char>, byte_size: u64, raw: i64)
    requires
        name != "usize"@,
        name != "isize"@,
        byte_size == 1 || byte_size == 2 || byte_size == 4 || byte_size == 8,
    ensures
        ({
            let m = integer_modulus(byte_size);
            let low = low_bytes(raw, byte_size);
            &&& base_value(name, 5, byte_size, raw) matches Some(ValueView::Integer(n))
            &&& n as int == if low < m / 2 {
                low
            } else {
                low - m
            }
        }),
        base_value(name, 7, byte_size, raw) matches Some(ValueView::Unsigned(u)) && u as int == low_bytes(raw, byte_size),
{
    let w = raw as u64;
    if byte_size == 1 {
        assert((raw as i8) as i64 == if (w & 0xff) < 0x80 { (w & 0xff) as int } else { (w & 0xff) as int - 0x100 }) by (bit_vector)
            requires w == raw as u64;
        assert(w & 0xff == w % 0x100) by (bit_vector);
        assert((raw as u8) as u64 == w & 0xff) by (bit_vector)
            requires w == raw as u64;
    } else if byte_size == 2 {
        assert((raw as i16) as i64 == if (w & 0xffff) < 0x8000 { (w & 0xffff) as int } else { (w & 0xffff) as int - 0x1_0000 }) by (bit_vector)
            requires w == raw as u64;
        assert(w & 0xffff == w % 0x1_0000) by (bit_vector);
        assert((raw as u16) as u64 == w & 0xffff) by (bit_vector)
            requires w == raw as u64;
    } else if byte_size == 4 {
        assert((raw as i32) as i64 == if (w & 0xffff_ffff) < 0x8000_0000 { (w & 0xffff_ffff) as int } else { (w & 0xffff_ffff) as int - 0x1_0000_0000 }) by (bit_vector)
            requires w == raw as u64;
        assert(w & 0xffff_ffff == w % 0x1_0000_0000) by (bit_vector);
        assert((raw as u32) as u64 == w & 0xffff_ffff) by (bit_vector)
            requires w == raw as u64;
    } else {
        assert(w < 0x8000_0000_0000_0000 ==> raw == w as i64) by (bit_vector)
            requires w == raw as u64;
        assert(w >= 0x8000_0000_0000_0000 ==> raw < 0) by (bit_vector)
            requires w == raw as u64;
        if w >= 0x8000_0000_0000_0000 {
            assert(raw as int == w as int - 0x1_0000_0000_0000_0000) by (bit_vector)
                requires w == raw as u64, w >= 0x8000_0000_0000_0000u64;
        }
    }
}

/// The other primitive values read from their memory word: a `usize` as
/// the whole word unsigned and an `isize` as the whole word signed; a `bool`
/// as whether its low byte is non-zero; a 4-byte float as the bits of its low
/// four bytes and an 8-byte one as the bits of the whole word; a `char` as
/// the character whose code is the low four bytes, nothing where those are no
/// Unicode scalar value. An unknown encoding reads nothing.
pub proof fn law_other_primitives_read_from_their_word(name: Seq<char>, encoding: u8, byte_size: u64, raw: i64)
    ensures
        name == "usize"@ ==> (base_value(name, encoding, byte_size, raw) matches Some(ValueView::Usize(u))
            && u as int == low_bytes(raw, 8)),
        name == "isize"@ ==> base_value(name, encoding, byte_size, raw) == Some(ValueView::Isize(raw)),
        ({
            let plain = name != "usize"@ && name != "isize"@;
            &&& plain && encoding == 2 ==> (base_value(name, encoding, byte_size, raw) matches Some(ValueView::Boolean(b))
                && (b <==> low_bytes(raw, 1) != 0))
            &&& plain && encoding == 4 && byte_size == 4 ==> (base_value(name, encoding, byte_size, raw) matches Some(
                ValueView::Float32(bits),
            ) && bits as int == low_bytes(raw, 4))
            &&& plain && encoding == 4 && byte_size == 8 ==> (base_value(name, encoding, byte_size, raw) matches Some(
                ValueView::Float(bits),
            ) && bits as int == low_bytes(raw, 8))
            &&& plain && encoding == 4 && byte_size != 4 && byte_size != 8 ==> base_value(name, encoding, byte_size, raw) is None
            &&& plain && encoding == 16 ==> if is_scalar_value(low_bytes(raw, 4) as u32) {
                base_value(name, encoding, byte_size, raw) matches Some(ValueView::Char(c)) && c as int == low_bytes(raw, 4)
            } else {
                base_value(name, encoding, byte_size, raw) is None
            }
            &&& plain && encoding != 2 && encoding != 4 && encoding != 5 && encoding != 7 && encoding != 16 ==> base_value(
                name,
                encoding,
                byte_size,
                raw,
            ) is None
        }),
{
    let w = raw as u64;
    assert((w as int) % 0x1_0000_0000_0000_0000 == w as int);
    assert(((raw & 0xFF) != 0) == (w % 0x100 != 0)) by (bit_vector)
        requires w == raw as u64;
    assert((raw & 0xFFFF_FFFF) as u32 == w % 0x1_0000_0000) by (bit_vector)
        requires w == raw as u64;
    assert((raw as u32) as u64 == w % 0x1_0000_0000) by (bit_vector)
        requires w == raw as u64;
    reveal_strlit("usize");
    reveal_strlit("isize");
    assert("usize"@[0] == 'u' && "isize"@[0] == 'i');
    let v = raw as u32;
    if is_scalar_value(v) {
        assert((v as char) as int == v as int);
    }
}

} // verus!
