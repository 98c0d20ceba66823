//! Values read out of the debuggee, and the pure steps of decoding them from
//! raw memory words according to their DWARF types.
use crate::dwarf::{EnumVariant, Enumerator, StructField};
use crate::layout::{base_value, enum_value, lemma_fields_view, named_variant, opt_view, value_view};
use crate::text::{contains_char, is_prefix, starts_with, str_eq};
use vstd::prelude::*;
use vstd::string::*;

verus! {

/// The smart pointer that wraps a value.
#[derive(Clone, Copy, Debug, PartialEq, Eq)]
pub enum WrapperKind {
    Box,
    Rc,
    Arc,
}

impl WrapperKind {
    /// The type's name: `Box`, `Rc` or `Arc`.
    pub fn name(self) -> (r: &'static str)
        ensures
            self is Box ==> r@ == "Box"@,
            self is Rc ==> r@ == "Rc"@,
            self is Arc ==> r@ == "Arc"@,
    {
        match self {
            WrapperKind::Box => "Box",
            WrapperKind::Rc => "Rc",
            WrapperKind::Arc => "Arc",
        }
    }
}

/// A named field of a structure value.
#[derive(Debug)]
pub struct DebugStructField {
    pub name: String,
    pub value: DebugValue,
}

/// The values the debugger can show. Floating-point numbers are kept as their
/// bit patterns: `Float` holds an `f64`'s bits, `Float32` an `f32`'s.
#[derive(Debug)]
pub enum DebugValue {
    Integer(i64),
    Unsigned(u64),
    Usize(u64),
    Isize(i64),
    Float(u64),
    Float32(u32),
    Char(char),
    StringSlice(String),
    String(String),
    FilePath(String),
    FilePathBuf(String),
    Boolean(bool),
    Pointer(usize),
    Array(Vec<DebugValue>),
    Vec(Vec<DebugValue>),
    Tuple(Vec<DebugValue>),
    PointerWrapper { kind: WrapperKind, value: Box<DebugValue> },
    HashMap { entries: Vec<(DebugValue, DebugValue)> },
    HashSet { elements: Vec<DebugValue> },
    Enum { name: String, inner_name: String },
    RawVecInner { heap_pointer_value: usize, cap: u64 },
    RawParts { heap_pointer_value: usize, len: u64, cap: u64 },
    RawTableInner { bucket_mask: u64, ctrl: usize, growth_left: u64, items: u64 },
    Variant { name: String, field: Option<Box<DebugValue>> },
    Struct { name: String, fields: Vec<DebugStructField> },
    /// A message where the value could not be read.
    Error(String),
}

impl DebugValue {
    /// Whether the value is a tuple.
    pub fn is_tuple(&self) -> (r: bool)
        ensures
            r == (*self is Tuple),
    {
        match self {
            DebugValue::Tuple(..) => true,
            _ => false,
        }
    }
}

/// The byte that an integer value contributes to a byte buffer, if any.
pub open spec fn buffer_byte(v: DebugValue) -> Option<u8> {
    match v {
        DebugValue::Integer(n) => Some(n as u8),
        DebugValue::Unsigned(n) => Some(n as u8),
        _ => None,
    }
}

/// The bytes of the integer values of `c`, each truncated to its lowest byte.
pub open spec fn buffer_of(c: Seq<DebugValue>) -> Seq<u8>
    decreases c.len(),
{
    if c.len() == 0 {
        Seq::empty()
    } else {
        match buffer_byte(c.last()) {
            Some(b) => buffer_of(c.drop_last()).push(b),
            None => buffer_of(c.drop_last()),
        }
    }
}

/// Collects the lowest byte of each integer value, skipping the other values.
pub fn to_buffer(collection: &[DebugValue]) -> (r: Vec<u8>)
    ensures
        r@ == buffer_of(collection@),
{
    let mut buffer: Vec<u8> = Vec::new();
    let n = collection.len();
    let mut i: usize = 0;
    while i < n
        invariant
            n == collection@.len(),
            i <= n,
            buffer@ == buffer_of(collection@.take(i as int)),
        decreases n - i,
    {
        assert(collection@.take(i + 1).drop_last() =~= collection@.take(i as int));
        match &collection[i] {
            DebugValue::Integer(num) => buffer.push(*num as u8),
            DebugValue::Unsigned(num) => buffer.push(*num as u8),
            _ => {},
        }
        i = i + 1;
    }
    assert(collection@.take(n as int) =~= collection@);
    buffer
}

/// A valid Unicode scalar value.
pub open spec fn is_scalar_value(v: u32) -> bool {
    v < 0xD800 || (0xE000 <= v && v <= 0x10FFFF)
}

/// `char::from_u32`: the character with code `v` when `v` is a Unicode scalar value.
#[verifier::external_body]
pub(crate) fn char_from_u32(v: u32) -> (r: Option<char>)
    ensures
        r is Some <==> is_scalar_value(v),
        r matches Some(c) ==> c as u32 == v,
{
    char::from_u32(v)
}

/// Decodes a primitive value of type `name` (DWARF base-type encoding
/// `encoding`, `byte_size` bytes) from the memory word `raw` read at its address.
pub fn decode_base(name: &str, encoding: u8, byte_size: u64, raw: i64) -> (r: Option<DebugValue>)
    ensures
        opt_view(r) == base_value(name@, encoding, byte_size, raw),
{
    if str_eq(name, "usize") {
        return Some(DebugValue::Usize(raw as u64));
    } else if str_eq(name, "isize") {
        return Some(DebugValue::Isize(raw));
    }
    match encoding {
        2 => {
            let masked = raw & 0xFF;
            Some(DebugValue::Boolean(masked != 0))
        },
        4 => match byte_size {
            4 => Some(DebugValue::Float32((raw & 0xFFFF_FFFF) as u32)),
            8 => Some(DebugValue::Float(raw as u64)),
            _ => None,
        },
        5 => match byte_size {
            1 => Some(DebugValue::Integer((raw as i8) as i64)),
            2 => Some(DebugValue::Integer((raw as i16) as i64)),
            4 => Some(DebugValue::Integer((raw as i32) as i64)),
            _ => Some(DebugValue::Integer(raw)),
        },
        7 => match byte_size {
            1 => Some(DebugValue::Unsigned((raw as u8) as u64)),
            2 => Some(DebugValue::Unsigned((raw as u16) as u64)),
            4 => Some(DebugValue::Unsigned((raw as u32) as u64)),
            _ => Some(DebugValue::Unsigned(raw as u64)),
        },
        16 => match char_from_u32(raw as u32) {
            Some(c) => {
                proof {
                    vstd::utf8::char_u32_cast(c, raw as u32);
                }
                Some(DebugValue::Char(c))
            },
            None => None,
        },
        _ => None,
    }
}

} // verus!

verus! {

/// The constant of a C-like enum held in the low `byte_size` bytes of `data`.
pub open spec fn enum_constant(byte_size: u64, data: i64) -> u64 {
    if byte_size == 1 {
        data as u8 as u64
    } else if byte_size == 2 {
        data as u16 as u64
    } else if byte_size == 4 {
        data as u32 as u64
    } else {
        data as u64
    }
}

/// Index of the first enumerator with value `v`.
pub open spec fn first_enumerator(fields: Seq<Enumerator>, v: u64) -> Option<int> {
    if exists|i: int| 0 <= i < fields.len() && fields[i].value == v {
        Some(
            choose|i: int|
                0 <= i < fields.len() && fields[i].value == v && forall|j: int|
                    0 <= j < i ==> fields[j].value != v,
        )
    } else {
        None
    }
}

/// Decodes a C-like enum named `name` of `byte_size` bytes from the memory
/// word `data`: the enumerator whose value it holds.
pub fn decode_enum(name: &str, byte_size: u64, fields: &Vec<Enumerator>, data: i64) -> (r: Option<DebugValue>)
    ensures
        opt_view(r) == enum_value(name@, byte_size, fields@, data),
{
    let const_value: u64 = match byte_size {
        1 => data as u8 as u64,
        2 => data as u16 as u64,
        4 => data as u32 as u64,
        _ => data as u64,
    };
    let n = fields.len();
    let mut i: usize = 0;
    while i < n
        invariant
            n == fields@.len(),
            i <= n,
            const_value == enum_constant(byte_size, data),
            forall|j: int| 0 <= j < i ==> fields@[j].value != const_value,
        decreases n - i,
    {
        if fields[i].value == const_value {
            let ghost w = choose|w: int|
                0 <= w < fields@.len() && fields@[w].value == const_value && forall|j: int|
                    0 <= j < w ==> fields@[j].value != const_value;
            assert(w == i as int) by {
                if w < i {
                } else if w > i {
                }
            }
            return Some(DebugValue::Enum { name: name.to_owned(), inner_name: fields[i].name.clone() });
        }
        i = i + 1;
    }
    None
}

/// Index of the first variant selected by discriminant `tag`.
pub open spec fn first_with_discr(variants: Seq<EnumVariant>, d: Option<u8>) -> Option<int> {
    if exists|i: int| 0 <= i < variants.len() && variants[i].discr_value == d {
        Some(
            choose|i: int|
                0 <= i < variants.len() && variants[i].discr_value == d && forall|j: int|
                    0 <= j < i ==> variants[j].discr_value != d,
        )
    } else {
        None
    }
}

/// The active variant of a Rust enum: the first whose discriminant is `tag`,
/// else the first without a discriminant (the niche-optimised fallback).
#[verifier::opaque]
pub open spec fn active_variant(variants: Seq<EnumVariant>, tag: Option<u8>) -> Option<int> {
    match tag {
        Some(t) => match first_with_discr(variants, Some(t)) {
            Some(i) => Some(i),
            None => first_with_discr(variants, None),
        },
        None => first_with_discr(variants, None),
    }
}

fn find_variant(variants: &Vec<EnumVariant>, d: Option<u8>) -> (r: Option<usize>)
    ensures
        r matches Some(i) ==> i < variants@.len(),
        match first_with_discr(variants@, d) {
            Some(i) => r matches Some(j) && j as int == i,
            None => r is None,
        },
{
    let n = variants.len();
    let mut i: usize = 0;
    while i < n
        invariant
            n == variants@.len(),
            i <= n,
            forall|j: int| 0 <= j < i ==> variants@[j].discr_value != d,
        decreases n - i,
    {
        if variants[i].discr_value == d {
            let ghost w = choose|w: int|
                0 <= w < variants@.len() && variants@[w].discr_value == d && forall|j: int|
                    0 <= j < w ==> variants@[j].discr_value != d;
            assert(w == i as int) by {
                if w < i {
                } else if w > i {
                }
            }
            return Some(i);
        }
        i = i + 1;
    }
    None
}

/// Selects the active variant for the discriminant byte `tag` (none when the
/// enum has no discriminant member).
pub fn select_variant(variants: &Vec<EnumVariant>, tag: Option<u8>) -> (r: Option<usize>)
    ensures
        r matches Some(i) ==> i < variants@.len(),
        match active_variant(variants@, tag) {
            Some(i) => r matches Some(j) && j as int == i,
            None => r is None,
        },
{
    proof {
        reveal(active_variant);
    }
    if let Some(t) = tag {
        if let Some(i) = find_variant(variants, Some(t)) {
            return Some(i);
        }
    }
    find_variant(variants, None)
}

/// The smart pointer a pointer type stands for, from its name.
pub open spec fn wrapper_of(name: Seq<char>) -> Option<WrapperKind> {
    if is_prefix("alloc::boxed::Box<"@, name) {
        Some(WrapperKind::Box)
    } else if is_prefix("*const alloc::rc::RcInner<"@, name) {
        Some(WrapperKind::Rc)
    } else if is_prefix("*const alloc::sync::ArcInner<"@, name) {
        Some(WrapperKind::Arc)
    } else {
        None
    }
}

/// Recognises `Box`, `Rc` and `Arc` pointers by the name of their pointer type.
pub fn pointer_wrapper_kind(name: &str) -> (r: Option<WrapperKind>)
    ensures
        r == wrapper_of(name@),
{
    if starts_with(name, "alloc::boxed::Box<") {
        Some(WrapperKind::Box)
    } else if starts_with(name, "*const alloc::rc::RcInner<") {
        Some(WrapperKind::Rc)
    } else if starts_with(name, "*const alloc::sync::ArcInner<") {
        Some(WrapperKind::Arc)
    } else {
        None
    }
}

/// `outer::inner`, or `inner` alone when `outer` is a generic type (it holds a `<`).
pub open spec fn qualified(outer: Seq<char>, inner: Seq<char>) -> Seq<char> {
    if outer.contains('<') {
        inner
    } else {
        outer + "::"@ + inner
    }
}

/// `outer::inner`, or `inner` alone when `outer` holds a `<`.
pub fn qualify(outer: &str, inner: &str) -> (r: String)
    ensures
        r@ == qualified(outer@, inner@),
{
    if contains_char(outer, '<') {
        inner.to_owned()
    } else {
        let mut s = outer.to_owned();
        s.append("::");
        s.append(inner);
        s
    }
}

/// The value shown for the active variant of enum `enum_name` whose first field,
/// of type `inner_type_name`, holds `inner_value`: a struct without fields shows
/// as the qualified struct name, a struct with fields as its type name, and any
/// other value with the qualified type name around it.
pub fn name_variant(enum_name: &str, inner_type_name: String, inner_value: DebugValue) -> (r: DebugValue)
    ensures
        value_view(r) == named_variant(enum_name@, inner_type_name@, value_view(inner_value)),
{
    proof {
        reveal(named_variant);
    }
    match inner_value {
        DebugValue::Struct { name: struct_name, fields } => {
            proof {
                lemma_fields_view(fields@, fields@.len() as int);
            }
            let struct_name = qualify(enum_name, struct_name.as_str());
            if fields.len() == 0 {
                DebugValue::Variant { name: struct_name, field: None }
            } else {
                DebugValue::Variant { name: inner_type_name, field: None }
            }
        },
        other => {
            let name = qualify(enum_name, inner_type_name.as_str());
            DebugValue::Variant { name, field: Some(Box::new(other)) }
        },
    }
}

/// Every field is a tuple position (its name begins with `__`); true when there are none.
pub open spec fn all_tuple_fields(fields: Seq<StructField>) -> bool {
    forall|i: int| 0 <= i < fields.len() ==> is_prefix("__"@, #[trigger] fields[i].name@)
}

/// Whether a structure is a tuple: all its fields are named `__0`, `__1`, ...
pub fn is_tuple_fields(fields: &Vec<StructField>) -> (r: bool)
    ensures
        r == all_tuple_fields(fields@),
{
    let n = fields.len();
    let mut i: usize = 0;
    while i < n
        invariant
            n == fields@.len(),
            i <= n,
            forall|j: int| 0 <= j < i ==> is_prefix("__"@, #[trigger] fields@[j].name@),
        decreases n - i,
    {
        if !starts_with(fields[i].name.as_str(), "__") {
            return false;
        }
        i = i + 1;
    }
    true
}

} // verus!

verus! {

/// The smallest `d >= s` that divides `a` (`a` itself at the latest).
pub open spec fn next_divisor(a: u64, s: u64) -> u64
    decreases a - s,
{
    if s == 0 || s >= a || a % s == 0 {
        s
    } else {
        next_divisor(a, (s + 1) as u64)
    }
}

/// `x` rounded up to a multiple of the power of two `a`.
pub open spec fn round_up(x: u64, a: u64) -> u64 {
    ((x + a - 1) as u64) & !((a - 1) as u64)
}

/// Where the value sits after the key in a hash map entry, and how far apart
/// consecutive entries are, for keys of `key_size` and values of `value_size`
/// bytes under `alignment`. When the entry is bigger than the alignment both
/// round up to it; otherwise both grow to the next divisor of the alignment,
/// so that several small entries share one aligned block.
pub open spec fn entry_layout(key_size: u64, value_size: u64, alignment: u64) -> Option<(u64, u64)> {
    let total = key_size + value_size;
    if total > u64::MAX || alignment == 0 || key_size == 0 {
        None
    } else if total > alignment {
        if total + alignment - 1 > u64::MAX {
            None
        } else {
            Some((round_up(key_size, alignment), round_up(total as u64, alignment)))
        }
    } else {
        Some((next_divisor(alignment, key_size), next_divisor(alignment, total as u64)))
    }
}

/// Grows `size` to the next divisor of `alignment`.
fn grow_to_divisor(alignment: u64, size: u64) -> (r: u64)
    requires
        0 < size <= alignment,
    ensures
        r == next_divisor(alignment, size),
{
    let mut s = size;
    while alignment % s != 0
        invariant
            0 < s <= alignment,
            next_divisor(alignment, s) == next_divisor(alignment, size),
        decreases alignment - s,
    {
        assert(s < alignment) by {
            if s == alignment {
                assert(alignment % alignment == 0) by (nonlinear_arith)
                    requires
                        alignment > 0,
                ;
            }
        }
        s = s + 1;
    }
    s
}

/// The offset of the value within a hash map entry and the distance between entries.
pub fn hashmap_entry_layout(key_size: u64, value_size: u64, alignment: u64) -> (r: Option<(u64, u64)>)
    ensures
        r == entry_layout(key_size, value_size, alignment),
{
    let total_size = match key_size.checked_add(value_size) {
        Some(t) => t,
        None => return None,
    };
    if alignment == 0 || key_size == 0 {
        return None;
    }
    if total_size > alignment {
        if total_size > u64::MAX - (alignment - 1) {
            return None;
        }
        let next_key_offset = (key_size + (alignment - 1)) & !(alignment - 1);
        let total_offset = (total_size + (alignment - 1)) & !(alignment - 1);
        Some((next_key_offset, total_offset))
    } else {
        let next_key_offset = if alignment % key_size == 0 {
            key_size
        } else {
            grow_to_divisor(alignment, key_size)
        };
        let total_offset = if alignment % total_size == 0 {
            total_size
        } else {
            grow_to_divisor(alignment, total_size)
        };
        Some((next_key_offset, total_offset))
    }
}

/// The addresses of the key and of the value in bucket `i` of a hash table
/// whose control bytes start at `ctrl`: buckets lie just below `ctrl`, the
/// `i`th one `(i + 1) * total_offset` bytes down.
pub open spec fn bucket_addresses(ctrl: u64, i: u64, total_offset: u64, value_offset: u64) -> Option<(u64, u64)> {
    let down = (i + 1) * total_offset;
    if down > ctrl || ctrl - down + value_offset > u64::MAX {
        None
    } else {
        Some(((ctrl - down) as u64, (ctrl - down + value_offset) as u64))
    }
}

/// The key and value addresses of bucket `i`.
pub fn hashmap_bucket_addresses(ctrl: u64, i: u64, total_offset: u64, value_offset: u64) -> (r: Option<(u64, u64)>)
    ensures
        r == bucket_addresses(ctrl, i, total_offset, value_offset),
{
    assert((i as u128 + 1) * (total_offset as u128) <= 0xFFFF_FFFF_FFFF_FFFF_FFFF_FFFF_FFFF_FFFFu128) by (nonlinear_arith)
        requires
            i <= u64::MAX,
            total_offset <= u64::MAX,
    ;
    let down: u128 = (i as u128 + 1) * (total_offset as u128);
    if down > ctrl as u128 {
        return None;
    }
    let base = ctrl - (down as u64);
    match base.checked_add(value_offset) {
        Some(v) => Some((base, v)),
        None => None,
    }
}

/// The address of element `i` of a ring buffer at `heap` holding `cap` slots of
/// `size` bytes, whose first element is in slot `head`: past the end it wraps
/// around to the start of the buffer.
pub open spec fn ring_slot_address(heap: u64, head: u64, cap: u64, size: u64, i: u64) -> Option<u64> {
    let base = heap + head * size;
    let max = heap + cap * size;
    let cur = base + i * size;
    if base > u64::MAX || max > u64::MAX || cur > u64::MAX {
        None
    } else if cur < max {
        Some(cur as u64)
    } else {
        Some((heap + (cur - max)) as u64)
    }
}

/// The address of element `i` of a `VecDeque`.
pub fn vecdeque_slot_address(heap: u64, head: u64, cap: u64, size: u64, i: u64) -> (r: Option<u64>)
    ensures
        r == ring_slot_address(heap, head, cap, size, i),
{
    let head_bytes = match head.checked_mul(size) {
        Some(v) => v,
        None => {
            assert(head * size > u64::MAX);
            return None;
        },
    };
    let base = match heap.checked_add(head_bytes) {
        Some(v) => v,
        None => return None,
    };
    let cap_bytes = match cap.checked_mul(size) {
        Some(v) => v,
        None => {
            assert(cap * size > u64::MAX);
            assert(heap + cap * size > u64::MAX);
            return None;
        },
    };
    let max = match heap.checked_add(cap_bytes) {
        Some(v) => v,
        None => return None,
    };
    let off = match i.checked_mul(size) {
        Some(v) => v,
        None => {
            assert(i * size > u64::MAX);
            assert(base + i * size > u64::MAX);
            return None;
        },
    };
    let cur = match base.checked_add(off) {
        Some(v) => v,
        None => return None,
    };
    if cur < max {
        Some(cur)
    } else {
        Some(heap + (cur - max))
    }
}

} // verus!
