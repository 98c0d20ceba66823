//! Reading a value of a given DWARF type out of the debuggee's memory.
//!
//! Memory is read through the two functions handed in: `peek` reads the
//! machine word at an address, `read_bytes` a run of bytes. Everything else,
//! the choice of what to read next and how to assemble the result, is here.
use crate::debug_text::{fields_debug, fields_texts, generics_debug, generics_texts, list_text, node_debug, node_text};
use crate::display::decimal_text;
use crate::dwarf::{byte_size_of, size_fuel, DwarfType, EnumVariant, GenericField, StructField, TypeCacheNode};
use crate::fxmap::fx_get;
use crate::layout::{
    after, bucket_items, element_items, field_items, field_of, field_read_view, first_field, first_generic,
    first_spaced, hash_map_layout_of, hash_set_layout_of, hashmap_of, layout_view, lemma_after_push,
    lemma_buffer_view, lemma_bytes_read, lemma_variant_of, lemma_entries_view, lemma_fields_view, lemma_values_view,
    lemma_word_read, path_buf_layout_of, plain_structure_of, raw_table_layout_of, raw_vec_layout_of,
    read_view, ring_items, space_count, error_text, missing_type_text, string_layout_of, structure_of, takes_space, value_of, value_view,
    variant_of, vec_deque_layout_of, vec_layout_of, Items, ValueView,
};
use crate::sys::SystemError;
use crate::text::{contains_char, starts_with, str_eq};
use crate::value::{
    decode_base, decode_enum, hashmap_bucket_addresses, hashmap_entry_layout, is_tuple_fields,
    name_variant, pointer_wrapper_kind, select_variant, to_buffer, vecdeque_slot_address,
    DebugStructField, DebugValue,
};
use rustc_hash::FxHashMap;
use vstd::prelude::*;
use vstd::string::*;

verus! {

/// How many levels of nesting (pointers, fields, elements) a read follows:
/// the largest `u32`. It only gives the recursion a measure; a value nested
/// anywhere near as deep exhausts the stack first, as unbounded recursion would.
pub const MAX_VALUE_DEPTH: u32 = 4294967295;

/// The text of `bytes` as UTF-8, with invalid sequences replaced.
pub uninterp spec fn utf8_lossy(bytes: Seq<u8>) -> Seq<char>;

/// `String::from_utf8_lossy`: the characters that `bytes` encode, where
/// invalid sequences become U+FFFD.
#[verifier::external_body]
pub(crate) fn string_from_utf8_lossy(bytes: &[u8]) -> (r: String)
    ensures
        r@ == utf8_lossy(bytes@),
        vstd::utf8::valid_utf8(bytes@) ==> r@ == vstd::utf8::decode_utf8(bytes@),
{
    String::from_utf8_lossy(bytes).into_owned()
}

/// The message for a field `target` missing among `fields` (listed in
/// their `Debug` form).
pub open spec fn missing_field_text(target: Seq<char>, fields: Seq<StructField>) -> Seq<char> {
    "Failed to get field: "@ + target + ". Available fields: "@ + list_text(fields_texts(fields))
}

/// The message for a generic parameter `target` missing among `generics`
/// (listed in their `Debug` form).
pub open spec fn missing_generic_text(target: Seq<char>, generics: Seq<GenericField>) -> Seq<char> {
    "Failed to get field: "@ + target + ". Available fields: "@ + list_text(generics_texts(generics))
}

/// The message for a type whose size cannot be worked out (the type entry
/// in its `Debug` form).
pub open spec fn missing_size_text(ty: TypeCacheNode) -> Seq<char> {
    "Failed to get size of type: "@ + node_text(ty)
}

/// The message for a field that a known layout expects but the type lacks.
fn missing_field_message(target: &str, fields: &Vec<StructField>) -> (r: String)
    ensures
        r@ == missing_field_text(target@, fields@),
{
    let mut text = String::from_str("Failed to get field: ");
    text.append(target);
    text.append(". Available fields: ");
    let list = fields_debug(fields);
    text.append(list.as_str());
    text
}

/// The message for a generic parameter that a known layout expects but the
/// type lacks.
fn missing_generic_message(target: &str, generics: &Vec<GenericField>) -> (r: String)
    ensures
        r@ == missing_generic_text(target@, generics@),
{
    let mut text = String::from_str("Failed to get field: ");
    text.append(target);
    text.append(". Available fields: ");
    let list = generics_debug(generics);
    text.append(list.as_str());
    text
}

/// The message for a type offset with no type in the index.
fn missing_type_message(offset: usize) -> (r: String)
    ensures
        r@ == missing_type_text(offset),
{
    let mut text = String::from_str("Failed to get type at offset: ");
    let number = decimal_text(offset as u64);
    text.append(number.as_str());
    text
}

/// The message for a type whose size cannot be worked out.
fn missing_size_message(ty: &TypeCacheNode) -> (r: String)
    ensures
        r@ == missing_size_text(*ty),
{
    let mut text = String::from_str("Failed to get size of type: ");
    let node = node_debug(ty);
    text.append(node.as_str());
    text
}

/// The first field named `name`.
pub fn find_struct_field<'a>(fields: &'a Vec<StructField>, name: &str) -> (r: Option<&'a StructField>)
    ensures
        match first_field(fields@, name@) {
            Some(i) => r matches Some(f) && *f == fields@[i],
            None => r is None,
        },
{
    let n = fields.len();
    let mut i: usize = 0;
    while i < n
        invariant
            n == fields@.len(),
            i <= n,
            forall|j: int| 0 <= j < i ==> fields@[j].name@ != name@,
        decreases n - i,
    {
        if str_eq(fields[i].name.as_str(), name) {
            proof {
                reveal(first_field);
                let w = choose|w: int|
                    0 <= w < fields@.len() && fields@[w].name@ == name@ && forall|j: int|
                        0 <= j < w ==> fields@[j].name@ != name@;
                assert(fields@[i as int].name@ == name@);
                assert(w == i as int) by {
                    if w < i {
                    } else if w > i {
                    }
                }
            }
            return Some(&fields[i]);
        }
        i = i + 1;
    }
    proof {
        reveal(first_field);
    }
    None
}

/// The first generic parameter named `name`.
pub fn find_generic<'a>(fields: &'a Vec<GenericField>, name: &str) -> (r: Option<&'a GenericField>)
    ensures
        match first_generic(fields@, name@) {
            Some(i) => r matches Some(f) && *f == fields@[i],
            None => r is None,
        },
{
    let n = fields.len();
    let mut i: usize = 0;
    while i < n
        invariant
            n == fields@.len(),
            i <= n,
            forall|j: int| 0 <= j < i ==> fields@[j].name@ != name@,
        decreases n - i,
    {
        if str_eq(fields[i].name.as_str(), name) {
            proof {
                reveal(first_generic);
                let w = choose|w: int|
                    0 <= w < fields@.len() && fields@[w].name@ == name@ && forall|j: int|
                        0 <= j < w ==> fields@[j].name@ != name@;
                assert(fields@[i as int].name@ == name@);
                assert(w == i as int) by {
                    if w < i {
                    } else if w > i {
                    }
                }
            }
            return Some(&fields[i]);
        }
        i = i + 1;
    }
    proof {
        reveal(first_generic);
    }
    None
}

/// Whether some field is named `name`.
fn has_field(fields: &Vec<StructField>, name: &str) -> (r: bool)
    ensures
        r == first_field(fields@, name@) is Some,
{
    find_struct_field(fields, name).is_some()
}

/// The type at `offset`, or the message to show in its place.
fn lookup_type<'a>(type_index: &'a FxHashMap<usize, TypeCacheNode>, offset: usize) -> (r: Result<&'a TypeCacheNode, DebugValue>)
    ensures
        match r {
            Ok(t) => type_index@.contains_key(offset) && *t == type_index@[offset],
            Err(e) => !type_index@.contains_key(offset) && e is Error && error_text(e) == missing_type_text(offset),
        },
{
    match fx_get(type_index, &offset) {
        Some(t) => Ok(t),
        None => Err(DebugValue::Error(missing_type_message(offset))),
    }
}

/// The byte size of `ty`, or the message to show in its place.
fn lookup_size(ty: &TypeCacheNode, type_index: &FxHashMap<usize, TypeCacheNode>) -> (r: Result<u64, DebugValue>)
    ensures
        match r {
            Ok(s) => byte_size_of(ty.dwarf_type, type_index@, size_fuel()) == Some(s),
            Err(e) => byte_size_of(ty.dwarf_type, type_index@, size_fuel()) is None && e is Error && error_text(e)
                == missing_size_text(*ty),
        },
{
    match ty.dwarf_type.get_byte_size(type_index) {
        Some(s) => Ok(s),
        None => Err(DebugValue::Error(missing_size_message(ty))),
    }
}

/// Reads memory words: any address can be read, and an address always reads
/// the same (the process stays stopped while its values are read).
pub open spec fn reads_words<P: Fn(u64) -> Result<i64, SystemError>>(peek: &P) -> bool {
    &&& forall|a: u64| peek.requires((a,))
    &&& forall|a: u64, x: Result<i64, SystemError>, y: Result<i64, SystemError>|
        #![trigger peek.ensures((a,), x), peek.ensures((a,), y)]
        peek.ensures((a,), x) && peek.ensures((a,), y) ==> x == y
}

/// The bytes of a read of a run of bytes.
pub open spec fn bytes_view(r: Result<Vec<u8>, SystemError>) -> Result<Seq<u8>, SystemError> {
    match r {
        Ok(v) => Ok(v@),
        Err(e) => Err(e),
    }
}

/// Reads runs of bytes: any run can be read, and a run always reads the same.
pub open spec fn reads_bytes<B: Fn(usize, usize) -> Result<Vec<u8>, SystemError>>(read_bytes: &B) -> bool {
    &&& forall|p: usize, l: usize| read_bytes.requires((p, l))
    &&& forall|p: usize, l: usize, x: Result<Vec<u8>, SystemError>, y: Result<Vec<u8>, SystemError>|
        #![trigger read_bytes.ensures((p, l), x), read_bytes.ensures((p, l), y)]
        read_bytes.ensures((p, l), x) && read_bytes.ensures((p, l), y) ==> bytes_view(x) == bytes_view(y)
}

impl DwarfType {
    /// The value of this type stored at `address` in the debuggee, read through
    /// `peek` and `read_bytes`: `Ok(None)` where the memory does not hold a
    /// value of the type, a `DebugValue::Error` where the type information is
    /// incomplete or the value is nested too deeply, `Err` where a read failed.
    pub fn to_debug_value<P, B>(
        &self,
        type_index: &FxHashMap<usize, TypeCacheNode>,
        address: u64,
        peek: &P,
        read_bytes: &B,
    ) -> (r: Result<Option<DebugValue>, SystemError>) where
        P: Fn(u64) -> Result<i64, SystemError>,
        B: Fn(usize, usize) -> Result<Vec<u8>, SystemError>,

        requires
            reads_words(peek),
            reads_bytes(read_bytes),
        ensures
            read_view(r) == value_of(*self, type_index@, address, peek, read_bytes, MAX_VALUE_DEPTH as nat),
    {
        self.value_at(type_index, address, peek, read_bytes, MAX_VALUE_DEPTH)
    }

    /// The value of the field `target` of a structure at `address`; the outer
    /// `Err` carries the message to show in place of the structure.
    fn field_value<P, B>(
        fields: &Vec<StructField>,
        target: &str,
        type_index: &FxHashMap<usize, TypeCacheNode>,
        address: u64,
        peek: &P,
        read_bytes: &B,
        depth: u32,
    ) -> (r: Result<Result<Option<DebugValue>, DebugValue>, SystemError>) where
        P: Fn(u64) -> Result<i64, SystemError>,
        B: Fn(usize, usize) -> Result<Vec<u8>, SystemError>,

        requires
            reads_words(peek),
            reads_bytes(read_bytes),
        ensures
            field_read_view(r) == field_of(fields@, target@, type_index@, address, peek, read_bytes, depth as nat),
            r matches Ok(Err(e)) ==> e is Error,
        decreases depth, 0u32,
    {
        proof {
            reveal_with_fuel(field_of, 1);
            reveal_with_fuel(value_of, 1);
        }
        let field = match find_struct_field(fields, target) {
            Some(f) => f,
            None => return Ok(Err(DebugValue::Error(missing_field_message(target, fields)))),
        };
        let ty = match lookup_type(type_index, field.type_offset) {
            Ok(t) => t,
            Err(e) => return Ok(Err(e)),
        };
        let at = match address.checked_add(field.location) {
            Some(a) => a,
            None => return Ok(Err(DebugValue::Error("Field address out of range".to_owned()))),
        };
        if depth == 0 {
            return Ok(Err(DebugValue::Error("Value nested too deeply".to_owned())));
        }
        match ty.dwarf_type.value_at(type_index, at, peek, read_bytes, depth - 1) {
            Ok(v) => Ok(Ok(v)),
            Err(e) => Err(e),
        }
    }

    /// The value of this type at `address`, reading nested values (behind
    /// pointers, in fields and elements) at most `depth` levels down.
    fn value_at<P, B>(
        &self,
        type_index: &FxHashMap<usize, TypeCacheNode>,
        address: u64,
        peek: &P,
        read_bytes: &B,
        depth: u32,
    ) -> (r: Result<Option<DebugValue>, SystemError>) where
        P: Fn(u64) -> Result<i64, SystemError>,
        B: Fn(usize, usize) -> Result<Vec<u8>, SystemError>,

        requires
            reads_words(peek),
            reads_bytes(read_bytes),
        ensures
            read_view(r) == value_of(*self, type_index@, address, peek, read_bytes, depth as nat),
        decreases depth, 3u32,
    {
        proof {
            reveal_with_fuel(value_of, 1);
            reveal_with_fuel(variant_of, 1);
            reveal_with_fuel(structure_of, 1);
        }
        match self {
            DwarfType::Base { name, encoding, byte_size } => {
                let res = peek(address);
                proof {
                    lemma_word_read(peek, address, res);
                }
                match res {
                    Ok(raw) => Ok(decode_base(name.as_str(), *encoding, *byte_size, raw)),
                    Err(e) => Err(e),
                }
            },
            DwarfType::Pointer { name, target_type_offset } => {
                Self::pointer_value(name, *target_type_offset, type_index, address, peek, read_bytes, depth)
            },
            DwarfType::Const { .. } => Ok(
                Some(DebugValue::Error("Reading const-qualified types is not supported".to_owned())),
            ),
            DwarfType::Array { target_type_offset, count } => {
                Self::array_value(*target_type_offset, *count, type_index, address, peek, read_bytes, depth)
            },
            DwarfType::Enum { name, byte_size, fields } => {
                let res = peek(address);
                proof {
                    lemma_word_read(peek, address, res);
                }
                match res {
                    Ok(data) => Ok(decode_enum(name.as_str(), *byte_size, fields, data)),
                    Err(e) => Err(e),
                }
            },
            DwarfType::Variant { name, discr_member_offset, variants, .. } => {
                let tag_byte: Option<u8> = match discr_member_offset {
                    Some(off) => {
                        let at = match address.checked_add(*off) {
                            Some(a) => a,
                            None => return Ok(Some(DebugValue::Error("Field address out of range".to_owned()))),
                        };
                        let res = peek(at);
                        proof {
                            lemma_word_read(peek, at, res);
                        }
                        let tag = match res {
                            Ok(t) => t,
                            Err(e) => return Err(e),
                        };
                        Some(#[verifier::truncate] (tag as u8))
                    },
                    None => None,
                };
                Self::variant_value(name.as_str(), variants, tag_byte, type_index, address, peek, read_bytes, depth)
            },
            DwarfType::Structure { name, generics, fields, alignment, .. } => {
                Self::structure_value(name, generics, fields, *alignment, type_index, address, peek, read_bytes, depth)
            },
        }
    }

    /// A pointer at `address`: the value it points to where its type names a
    /// reference (a `;` in the name) or a `Box`, `Rc` or `Arc`, else the
    /// address it holds.
    fn pointer_value<P, B>(
        name: &Option<String>,
        target_type_offset: usize,
        type_index: &FxHashMap<usize, TypeCacheNode>,
        address: u64,
        peek: &P,
        read_bytes: &B,
        depth: u32,
    ) -> (r: Result<Option<DebugValue>, SystemError>) where
        P: Fn(u64) -> Result<i64, SystemError>,
        B: Fn(usize, usize) -> Result<Vec<u8>, SystemError>,

        requires
            reads_words(peek),
            reads_bytes(read_bytes),
        ensures
            read_view(r) == value_of(
                DwarfType::Pointer { name: *name, target_type_offset },
                type_index@,
                address,
                peek,
                read_bytes,
                depth as nat,
            ),
        decreases depth, 2u32,
    {
        proof {
            reveal_with_fuel(value_of, 1);
        }
        let res = peek(address);
        proof {
            lemma_word_read(peek, address, res);
        }
        let raw = match res {
            Ok(w) => w,
            Err(e) => return Err(e),
        };
        if let Some(name) = name {
            let ty = match lookup_type(type_index, target_type_offset) {
                Ok(t) => t,
                Err(e) => return Ok(Some(e)),
            };
            if depth == 0 {
                return Ok(Some(DebugValue::Error("Value nested too deeply".to_owned())));
            }
            let val = match ty.dwarf_type.value_at(
                type_index,
                #[verifier::truncate] (raw as u64),
                peek,
                read_bytes,
                depth - 1,
            ) {
                Ok(Some(v)) => v,
                Ok(None) => return Ok(None),
                Err(e) => return Err(e),
            };
            if contains_char(name.as_str(), ';') {
                return Ok(Some(val));
            }
            if let Some(kind) = pointer_wrapper_kind(name.as_str()) {
                return Ok(Some(DebugValue::PointerWrapper { kind, value: Box::new(val) }));
            }
        }
        Ok(Some(DebugValue::Pointer(raw as usize)))
    }

    /// An array of `count` elements of the type at `target_type_offset`.
    fn array_value<P, B>(
        target_type_offset: usize,
        count: u64,
        type_index: &FxHashMap<usize, TypeCacheNode>,
        address: u64,
        peek: &P,
        read_bytes: &B,
        depth: u32,
    ) -> (r: Result<Option<DebugValue>, SystemError>) where
        P: Fn(u64) -> Result<i64, SystemError>,
        B: Fn(usize, usize) -> Result<Vec<u8>, SystemError>,

        requires
            reads_words(peek),
            reads_bytes(read_bytes),
        ensures
            read_view(r) == value_of(
                DwarfType::Array { target_type_offset, count },
                type_index@,
                address,
                peek,
                read_bytes,
                depth as nat,
            ),
        decreases depth, 2u32,
    {
        proof {
            reveal_with_fuel(value_of, 1);
            reveal_with_fuel(element_items, 1);
        }
        let ty = match lookup_type(type_index, target_type_offset) {
            Ok(t) => t,
            Err(e) => return Ok(Some(e)),
        };
        let size = match lookup_size(ty, type_index) {
            Ok(s) => s,
            Err(e) => return Ok(Some(e)),
        };
        if depth == 0 {
            return Ok(Some(DebugValue::Error("Value nested too deeply".to_owned())));
        }
        let ghost ti = type_index@;
        let ghost whole = value_of(DwarfType::Array { target_type_offset, count }, ti, address, peek, read_bytes, depth as nat);
        assert(whole == match element_items(ty.dwarf_type, ti, address, size, count, 0, peek, read_bytes, depth as nat) {
            Items::Done(s) => Ok(Some(ValueView::Array(s))),
            Items::Stop(r) => r,
        });
        let mut array: Vec<DebugValue> = Vec::new();
        let mut i: u64 = 0;
        while i < count
            invariant
                reads_words(peek),
                reads_bytes(read_bytes),
                depth > 0,
                i <= count,
                array@.len() == i,
                ti == type_index@,
                whole == value_of(DwarfType::Array { target_type_offset, count }, ti, address, peek, read_bytes, depth as nat),
                whole == match element_items(ty.dwarf_type, ti, address, size, count, 0, peek, read_bytes, depth as nat) {
                    Items::Done(s) => Ok(Some(ValueView::Array(s))),
                    Items::Stop(r) => r,
                },
                element_items(ty.dwarf_type, ti, address, size, count, 0, peek, read_bytes, depth as nat) == after(
                    Seq::new(i as nat, |j: int| value_view(array@[j])),
                    element_items(ty.dwarf_type, ti, address, size, count, i, peek, read_bytes, depth as nat),
                ),
            decreases count - i,
        {
            proof {
                reveal_with_fuel(element_items, 1);
                reveal_with_fuel(value_of, 1);
            }
            let at = match i.checked_mul(size) {
                Some(off) => match address.checked_add(off) {
                    Some(a) => a,
                    None => return Ok(Some(DebugValue::Error("Element address out of range".to_owned()))),
                },
                None => return Ok(Some(DebugValue::Error("Element address out of range".to_owned()))),
            };
            let var = match ty.dwarf_type.value_at(type_index, at, peek, read_bytes, depth - 1) {
                Ok(Some(v)) => v,
                Ok(None) => return Ok(None),
                Err(e) => return Err(e),
            };
            let ghost prev = array@;
            let ghost v = value_view(var);
            proof {
                lemma_after_push(
                    Seq::new(i as nat, |j: int| value_view(prev[j])),
                    v,
                    element_items(ty.dwarf_type, ti, address, size, count, (i + 1) as u64, peek, read_bytes, depth as nat),
                );
            }
            array.push(var);
            proof {
                assert(Seq::new(i as nat, |j: int| value_view(prev[j])).push(v) =~= Seq::new(
                    (i + 1) as nat,
                    |j: int| value_view(array@[j]),
                ));
            }
            i = i + 1;
        }
        proof {
                                lemma_values_view(array@, array@.len() as int);
            assert(Seq::new(i as nat, |j: int| value_view(array@[j])) + Seq::<ValueView>::empty() =~= Seq::new(
                i as nat,
                |j: int| value_view(array@[j]),
            ));
        }
        Ok(Some(DebugValue::Array(array)))
    }

    /// A Rust enum named `name` whose discriminant byte is `tag`: the value
    /// of the first field of its active variant.
    fn variant_value<P, B>(
        name: &str,
        variants: &Vec<EnumVariant>,
        tag_byte: Option<u8>,
        type_index: &FxHashMap<usize, TypeCacheNode>,
        address: u64,
        peek: &P,
        read_bytes: &B,
        depth: u32,
    ) -> (r: Result<Option<DebugValue>, SystemError>) where
        P: Fn(u64) -> Result<i64, SystemError>,
        B: Fn(usize, usize) -> Result<Vec<u8>, SystemError>,

        requires
            reads_words(peek),
            reads_bytes(read_bytes),
        ensures
            read_view(r) == variant_of(name@, variants@, tag_byte, type_index@, address, peek, read_bytes, depth as nat),
        decreases depth, 2u32,
    {
        proof {
            lemma_variant_of(name@, variants@, tag_byte, type_index@, address, peek, read_bytes, depth as nat);
        }
        let active = match select_variant(variants, tag_byte) {
            Some(i) => &variants[i],
            None => return Ok(Some(DebugValue::Error("Could not find active enum".to_owned()))),
        };
        if active.fields.len() == 0 {
            return Ok(Some(DebugValue::Error("Could not find active field".to_owned())));
        }
        let field_def = &active.fields[0];
        let ty = match lookup_type(type_index, field_def.type_offset) {
            Ok(t) => t,
            Err(e) => return Ok(Some(e)),
        };
        let inner_name = ty.dwarf_type.get_name();
        let at = match address.checked_add(field_def.location) {
            Some(a) => a,
            None => return Ok(Some(DebugValue::Error("Field address out of range".to_owned()))),
        };
        if depth == 0 {
            return Ok(Some(DebugValue::Error("Value nested too deeply".to_owned())));
        }
        let inner_value = match ty.dwarf_type.value_at(type_index, at, peek, read_bytes, depth - 1) {
            Ok(Some(v)) => v,
            Ok(None) => return Ok(None),
            Err(e) => return Err(e),
        };
        Ok(Some(name_variant(name, inner_name, inner_value)))
    }
}

impl DwarfType {
    /// The value of a structure at `address`: the layouts of `String`,
    /// `PathBuf`, `Vec`, `VecDeque`, `HashSet`, `HashMap` and of the raw
    /// vector and table parts are recognised by name; any other structure is
    /// read as it stands.
    fn structure_value<P, B>(
        name: &String,
        generics: &Vec<GenericField>,
        fields: &Vec<StructField>,
        alignment: u64,
        type_index: &FxHashMap<usize, TypeCacheNode>,
        address: u64,
        peek: &P,
        read_bytes: &B,
        depth: u32,
    ) -> (r: Result<Option<DebugValue>, SystemError>) where
        P: Fn(u64) -> Result<i64, SystemError>,
        B: Fn(usize, usize) -> Result<Vec<u8>, SystemError>,

        requires
            reads_words(peek),
            reads_bytes(read_bytes),
        ensures
            read_view(r) == structure_of(name@, generics@, fields@, alignment, type_index@, address, peek, read_bytes, depth as nat),
        decreases depth, 2u32,
    {
        proof {
            reveal_with_fuel(structure_of, 1);
            reveal_with_fuel(string_layout_of, 1);
            reveal_with_fuel(path_buf_layout_of, 1);
            reveal_with_fuel(vec_layout_of, 1);
            reveal_with_fuel(vec_deque_layout_of, 1);
            reveal_with_fuel(hash_set_layout_of, 1);
            reveal_with_fuel(hash_map_layout_of, 1);
            reveal_with_fuel(raw_vec_layout_of, 1);
            reveal_with_fuel(raw_table_layout_of, 1);
            reveal_with_fuel(plain_structure_of, 1);
        }
        let name = name.as_str();
        if let Some(r) = Self::string_layout(name, fields, type_index, address, peek, read_bytes, depth) {
            return r;
        }
        if let Some(r) = Self::path_buf_layout(name, fields, type_index, address, peek, read_bytes, depth) {
            return r;
        }
        if let Some(r) = Self::vec_layout(name, generics, fields, type_index, address, peek, read_bytes, depth) {
            return r;
        }
        if let Some(r) = Self::vec_deque_layout(name, generics, fields, type_index, address, peek, read_bytes, depth) {
            return r;
        }
        if let Some(r) = Self::hash_set_layout(name, fields, type_index, address, peek, read_bytes, depth) {
            return r;
        }
        if let Some(r) = Self::hash_map_layout(name, generics, fields, alignment, type_index, address, peek, read_bytes, depth) {
            return r;
        }
        if let Some(r) = Self::raw_vec_layout(name, fields, type_index, address, peek, read_bytes, depth) {
            return r;
        }
        if let Some(r) = Self::raw_table_layout(name, fields, type_index, address, peek, read_bytes, depth) {
            return r;
        }
        Self::plain_structure_value(name, fields, type_index, address, peek, read_bytes, depth)
    }

    /// A `String`: the text of the bytes in its `vec` field; `None` where the
    /// structure is not one.
    #[verifier::rlimit(40)]
    fn string_layout<P, B>(
        name: &str,
        fields: &Vec<StructField>,
        type_index: &FxHashMap<usize, TypeCacheNode>,
        address: u64,
        peek: &P,
        read_bytes: &B,
        depth: u32,
    ) -> (r: Option<Result<Option<DebugValue>, SystemError>>) where
        P: Fn(u64) -> Result<i64, SystemError>,
        B: Fn(usize, usize) -> Result<Vec<u8>, SystemError>,

        requires
            reads_words(peek),
            reads_bytes(read_bytes),
        ensures
            layout_view(r) == string_layout_of(name@, fields@, type_index@, address, peek, read_bytes, depth as nat),
        decreases depth, 1u32,
    {
        proof {
            reveal_with_fuel(string_layout_of, 1);
            reveal_with_fuel(field_of, 1);
        }
        if !str_eq(name, "String") {
            return None;
        }
        let buffer = match Self::field_value(fields, "vec", type_index, address, peek, read_bytes, depth) {
            Ok(Ok(v)) => v,
            Ok(Err(e)) => return Some(Ok(Some(e))),
            Err(e) => return Some(Err(e)),
        };
        if let Some(DebugValue::Vec(buf)) = buffer {
            let raw_values = to_buffer(buf.as_slice());
            let string = string_from_utf8_lossy(raw_values.as_slice());
            proof {
                lemma_values_view(buf@, buf@.len() as int);
                lemma_buffer_view(buf@);
            }
            return Some(Ok(Some(DebugValue::String(string))));
        }
        None
    }

    /// A `PathBuf`: the text of the bytes in its `inner` field; `None` where
    /// the structure is not one.
    #[verifier::rlimit(40)]
    fn path_buf_layout<P, B>(
        name: &str,
        fields: &Vec<StructField>,
        type_index: &FxHashMap<usize, TypeCacheNode>,
        address: u64,
        peek: &P,
        read_bytes: &B,
        depth: u32,
    ) -> (r: Option<Result<Option<DebugValue>, SystemError>>) where
        P: Fn(u64) -> Result<i64, SystemError>,
        B: Fn(usize, usize) -> Result<Vec<u8>, SystemError>,

        requires
            reads_words(peek),
            reads_bytes(read_bytes),
        ensures
            layout_view(r) == path_buf_layout_of(name@, fields@, type_index@, address, peek, read_bytes, depth as nat),
        decreases depth, 1u32,
    {
        proof {
            reveal_with_fuel(path_buf_layout_of, 1);
            reveal_with_fuel(field_of, 1);
        }
        if !str_eq(name, "PathBuf") {
            return None;
        }
        let inner = match Self::field_value(fields, "inner", type_index, address, peek, read_bytes, depth) {
            Ok(Ok(v)) => v,
            Ok(Err(e)) => return Some(Ok(Some(e))),
            Err(e) => return Some(Err(e)),
        };
        if let Some(DebugValue::Vec(buf)) = inner {
            let raw_values = to_buffer(buf.as_slice());
            let string = string_from_utf8_lossy(raw_values.as_slice());
            proof {
                lemma_values_view(buf@, buf@.len() as int);
                lemma_buffer_view(buf@);
            }
            return Some(Ok(Some(DebugValue::FilePathBuf(string))));
        }
        None
    }

    /// A `Vec`: the `len` elements that its `buf` points to; `None` where
    /// the structure is not one.
    #[verifier::rlimit(40)]
    fn vec_layout<P, B>(
        name: &str,
        generics: &Vec<GenericField>,
        fields: &Vec<StructField>,
        type_index: &FxHashMap<usize, TypeCacheNode>,
        address: u64,
        peek: &P,
        read_bytes: &B,
        depth: u32,
    ) -> (r: Option<Result<Option<DebugValue>, SystemError>>) where
        P: Fn(u64) -> Result<i64, SystemError>,
        B: Fn(usize, usize) -> Result<Vec<u8>, SystemError>,

        requires
            reads_words(peek),
            reads_bytes(read_bytes),
        ensures
            layout_view(r) == vec_layout_of(name@, generics@, fields@, type_index@, address, peek, read_bytes, depth as nat),
        decreases depth, 1u32,
    {
        proof {
            reveal_with_fuel(vec_layout_of, 1);
            reveal_with_fuel(field_of, 1);
            reveal_with_fuel(element_items, 1);
            reveal_with_fuel(value_of, 1);
        }
        if !starts_with(name, "Vec<") {
            return None;
        }
        let len = match Self::field_value(fields, "len", type_index, address, peek, read_bytes, depth) {
            Ok(Ok(v)) => v,
            Ok(Err(e)) => return Some(Ok(Some(e))),
            Err(e) => return Some(Err(e)),
        };
        let buf = match Self::field_value(fields, "buf", type_index, address, peek, read_bytes, depth) {
            Ok(Ok(v)) => v,
            Ok(Err(e)) => return Some(Ok(Some(e))),
            Err(e) => return Some(Err(e)),
        };
        let value = match find_generic(generics, "T") {
            Some(g) => g,
            None => return Some(Ok(Some(DebugValue::Error(missing_generic_message("T", generics))))),
        };
        let ty = match lookup_type(type_index, value.type_offset) {
            Ok(t) => t,
            Err(e) => return Some(Ok(Some(e))),
        };
        let size = match lookup_size(ty, type_index) {
            Ok(s) => s,
            Err(e) => return Some(Ok(Some(e))),
        };
        if let (Some(DebugValue::RawVecInner { heap_pointer_value, .. }), Some(DebugValue::Usize(len))) = (buf, len) {
            if depth == 0 {
                return Some(Ok(Some(DebugValue::Error("Value nested too deeply".to_owned()))));
            }
            let heap = heap_pointer_value as u64;
            let ghost ti = type_index@;
            let ghost whole = vec_layout_of(name@, generics@, fields@, ti, address, peek, read_bytes, depth as nat);
            assert(whole == match element_items(ty.dwarf_type, ti, heap, size, len, 0, peek, read_bytes, depth as nat) {
                Items::Done(s) => Some(Ok(Some(ValueView::Vec(s)))),
                Items::Stop(r) => Some(r),
            });
            let mut buffer: Vec<DebugValue> = Vec::new();
            let mut i: u64 = 0;
            while i < len
                invariant
                    reads_words(peek),
                    reads_bytes(read_bytes),
                    depth > 0,
                    i <= len,
                    buffer@.len() == i,
                    ti == type_index@,
                    whole == vec_layout_of(name@, generics@, fields@, ti, address, peek, read_bytes, depth as nat),
                    whole == match element_items(ty.dwarf_type, ti, heap, size, len, 0, peek, read_bytes, depth as nat) {
                        Items::Done(s) => Some(Ok(Some(ValueView::Vec(s)))),
                        Items::Stop(r) => Some(r),
                    },
                    element_items(ty.dwarf_type, ti, heap, size, len, 0, peek, read_bytes, depth as nat) == after(
                        Seq::new(i as nat, |j: int| value_view(buffer@[j])),
                        element_items(ty.dwarf_type, ti, heap, size, len, i, peek, read_bytes, depth as nat),
                    ),
                decreases len - i,
            {
                proof {
                    reveal_with_fuel(element_items, 1);
                    reveal_with_fuel(value_of, 1);
                }
                let at = match i.checked_mul(size) {
                    Some(off) => match heap.checked_add(off) {
                        Some(a) => a,
                        None => return Some(Ok(Some(DebugValue::Error("Element address out of range".to_owned())))),
                    },
                    None => return Some(Ok(Some(DebugValue::Error("Element address out of range".to_owned())))),
                };
                let data = match ty.dwarf_type.value_at(type_index, at, peek, read_bytes, depth - 1) {
                    Ok(Some(v)) => v,
                    Ok(None) => return Some(Ok(None)),
                    Err(e) => return Some(Err(e)),
                };
                let ghost prev = buffer@;
                let ghost v = value_view(data);
                proof {
                    lemma_after_push(
                        Seq::new(i as nat, |j: int| value_view(prev[j])),
                        v,
                        element_items(ty.dwarf_type, ti, heap, size, len, (i + 1) as u64, peek, read_bytes, depth as nat),
                    );
                }
                buffer.push(data);
                proof {
                    assert(Seq::new(i as nat, |j: int| value_view(prev[j])).push(v) =~= Seq::new(
                        (i + 1) as nat,
                        |j: int| value_view(buffer@[j]),
                    ));
                }
                i = i + 1;
            }
            proof {
                reveal_with_fuel(element_items, 1);
                lemma_values_view(buffer@, buffer@.len() as int);
                assert(Seq::new(i as nat, |j: int| value_view(buffer@[j])) + Seq::<ValueView>::empty() =~= Seq::new(
                    i as nat,
                    |j: int| value_view(buffer@[j]),
                ));
            }
            return Some(Ok(Some(DebugValue::Vec(buffer))));
        }
        None
    }

    /// A `VecDeque`: the `len` elements in the ring buffer that its `buf`
    /// points to, from slot `head` on; `None` where the structure is not one.
    #[verifier::rlimit(40)]
    fn vec_deque_layout<P, B>(
        name: &str,
        generics: &Vec<GenericField>,
        fields: &Vec<StructField>,
        type_index: &FxHashMap<usize, TypeCacheNode>,
        address: u64,
        peek: &P,
        read_bytes: &B,
        depth: u32,
    ) -> (r: Option<Result<Option<DebugValue>, SystemError>>) where
        P: Fn(u64) -> Result<i64, SystemError>,
        B: Fn(usize, usize) -> Result<Vec<u8>, SystemError>,

        requires
            reads_words(peek),
            reads_bytes(read_bytes),
        ensures
            layout_view(r) == vec_deque_layout_of(name@, generics@, fields@, type_index@, address, peek, read_bytes, depth as nat),
        decreases depth, 1u32,
    {
        proof {
            reveal_with_fuel(vec_deque_layout_of, 1);
            reveal_with_fuel(field_of, 1);
            reveal_with_fuel(ring_items, 1);
            reveal_with_fuel(value_of, 1);
        }
        if !starts_with(name, "VecDeque<") {
            return None;
        }
        let len = match Self::field_value(fields, "len", type_index, address, peek, read_bytes, depth) {
            Ok(Ok(v)) => v,
            Ok(Err(e)) => return Some(Ok(Some(e))),
            Err(e) => return Some(Err(e)),
        };
        let buf = match Self::field_value(fields, "buf", type_index, address, peek, read_bytes, depth) {
            Ok(Ok(v)) => v,
            Ok(Err(e)) => return Some(Ok(Some(e))),
            Err(e) => return Some(Err(e)),
        };
        let head = match Self::field_value(fields, "head", type_index, address, peek, read_bytes, depth) {
            Ok(Ok(v)) => v,
            Ok(Err(e)) => return Some(Ok(Some(e))),
            Err(e) => return Some(Err(e)),
        };
        let value = match find_generic(generics, "T") {
            Some(g) => g,
            None => return Some(Ok(Some(DebugValue::Error(missing_generic_message("T", generics))))),
        };
        let ty = match lookup_type(type_index, value.type_offset) {
            Ok(t) => t,
            Err(e) => return Some(Ok(Some(e))),
        };
        let size = match lookup_size(ty, type_index) {
            Ok(s) => s,
            Err(e) => return Some(Ok(Some(e))),
        };
        if let (
            Some(DebugValue::RawVecInner { heap_pointer_value, cap }),
            Some(DebugValue::Usize(len)),
            Some(DebugValue::Usize(head)),
        ) = (buf, len, head) {
            if depth == 0 {
                return Some(Ok(Some(DebugValue::Error("Value nested too deeply".to_owned()))));
            }
            let heap = heap_pointer_value as u64;
            let ghost ti = type_index@;
            let ghost whole = vec_deque_layout_of(name@, generics@, fields@, ti, address, peek, read_bytes, depth as nat);
            assert(whole == match ring_items(ty.dwarf_type, ti, heap, head, cap, size, len, 0, peek, read_bytes, depth as nat) {
                Items::Done(s) => Some(Ok(Some(ValueView::Vec(s)))),
                Items::Stop(r) => Some(r),
            });
            let mut buffer: Vec<DebugValue> = Vec::new();
            let mut i: u64 = 0;
            while i < len
                invariant
                    reads_words(peek),
                    reads_bytes(read_bytes),
                    depth > 0,
                    i <= len,
                    buffer@.len() == i,
                    ti == type_index@,
                    whole == vec_deque_layout_of(name@, generics@, fields@, ti, address, peek, read_bytes, depth as nat),
                    whole == match ring_items(ty.dwarf_type, ti, heap, head, cap, size, len, 0, peek, read_bytes, depth as nat) {
                        Items::Done(s) => Some(Ok(Some(ValueView::Vec(s)))),
                        Items::Stop(r) => Some(r),
                    },
                    ring_items(ty.dwarf_type, ti, heap, head, cap, size, len, 0, peek, read_bytes, depth as nat) == after(
                        Seq::new(i as nat, |j: int| value_view(buffer@[j])),
                        ring_items(ty.dwarf_type, ti, heap, head, cap, size, len, i, peek, read_bytes, depth as nat),
                    ),
                decreases len - i,
            {
                proof {
                    reveal_with_fuel(ring_items, 1);
                    reveal_with_fuel(value_of, 1);
                }
                let at = match vecdeque_slot_address(heap, head, cap, size, i) {
                    Some(a) => a,
                    None => return Some(Ok(Some(DebugValue::Error("Element address out of range".to_owned())))),
                };
                let data = match ty.dwarf_type.value_at(type_index, at, peek, read_bytes, depth - 1) {
                    Ok(Some(v)) => v,
                    Ok(None) => return Some(Ok(None)),
                    Err(e) => return Some(Err(e)),
                };
                let ghost prev = buffer@;
                let ghost v = value_view(data);
                proof {
                    lemma_after_push(
                        Seq::new(i as nat, |j: int| value_view(prev[j])),
                        v,
                        ring_items(ty.dwarf_type, ti, heap, head, cap, size, len, (i + 1) as u64, peek, read_bytes, depth as nat),
                    );
                }
                buffer.push(data);
                proof {
                    assert(Seq::new(i as nat, |j: int| value_view(prev[j])).push(v) =~= Seq::new(
                        (i + 1) as nat,
                        |j: int| value_view(buffer@[j]),
                    ));
                }
                i = i + 1;
            }
            proof {
                reveal_with_fuel(ring_items, 1);
                lemma_values_view(buffer@, buffer@.len() as int);
                assert(Seq::new(i as nat, |j: int| value_view(buffer@[j])) + Seq::<ValueView>::empty() =~= Seq::new(
                    i as nat,
                    |j: int| value_view(buffer@[j]),
                ));
            }
            return Some(Ok(Some(DebugValue::Vec(buffer))));
        }
        None
    }

    /// A `HashSet`: the keys of the map in its `map` field; `None` where the
    /// structure is not one.
    #[verifier::rlimit(40)]
    fn hash_set_layout<P, B>(
        name: &str,
        fields: &Vec<StructField>,
        type_index: &FxHashMap<usize, TypeCacheNode>,
        address: u64,
        peek: &P,
        read_bytes: &B,
        depth: u32,
    ) -> (r: Option<Result<Option<DebugValue>, SystemError>>) where
        P: Fn(u64) -> Result<i64, SystemError>,
        B: Fn(usize, usize) -> Result<Vec<u8>, SystemError>,

        requires
            reads_words(peek),
            reads_bytes(read_bytes),
        ensures
            layout_view(r) == hash_set_layout_of(name@, fields@, type_index@, address, peek, read_bytes, depth as nat),
        decreases depth, 1u32,
    {
        proof {
            reveal_with_fuel(hash_set_layout_of, 1);
            reveal_with_fuel(field_of, 1);
        }
        if !(starts_with(name, "HashSet<") && has_field(fields, "map")) {
            return None;
        }
        let map = match Self::field_value(fields, "map", type_index, address, peek, read_bytes, depth) {
            Ok(Ok(v)) => v,
            Ok(Err(e)) => return Some(Ok(Some(e))),
            Err(e) => return Some(Err(e)),
        };
        if let Some(DebugValue::HashMap { entries }) = map {
            let ghost all = entries@;
            let mut elements: Vec<DebugValue> = Vec::new();
            let mut entries = entries;
            while entries.len() > 0
                invariant
                    elements@.len() + entries@.len() == all.len(),
                    entries@ == all.subrange(elements@.len() as int, all.len() as int),
                    forall|j: int| 0 <= j < elements@.len() ==> elements@[j] == all[j].0,
                decreases entries.len(),
            {
                let (key, _) = entries.remove(0);
                elements.push(key);
            }
            proof {
                lemma_values_view(elements@, elements@.len() as int);
                lemma_entries_view(all, all.len() as int);
                assert(Seq::new(elements@.len(), |j: int| value_view(elements@[j])) =~= Seq::new(
                    all.len(),
                    |j: int| (value_view(all[j].0), value_view(all[j].1)),
                ).map_values(|e: (ValueView, ValueView)| e.0));
            }
            return Some(Ok(Some(DebugValue::HashSet { elements })));
        }
        None
    }

    /// A `HashMap`: the entries of the table in its `table` field; `None`
    /// where the structure is not one.
    #[verifier::rlimit(40)]
    fn hash_map_layout<P, B>(
        name: &str,
        generics: &Vec<GenericField>,
        fields: &Vec<StructField>,
        alignment: u64,
        type_index: &FxHashMap<usize, TypeCacheNode>,
        address: u64,
        peek: &P,
        read_bytes: &B,
        depth: u32,
    ) -> (r: Option<Result<Option<DebugValue>, SystemError>>) where
        P: Fn(u64) -> Result<i64, SystemError>,
        B: Fn(usize, usize) -> Result<Vec<u8>, SystemError>,

        requires
            reads_words(peek),
            reads_bytes(read_bytes),
        ensures
            layout_view(r) == hash_map_layout_of(name@, generics@, fields@, alignment, type_index@, address, peek, read_bytes, depth as nat),
        decreases depth, 1u32,
    {
        proof {
            reveal_with_fuel(hash_map_layout_of, 1);
            reveal_with_fuel(field_of, 1);
            reveal_with_fuel(hashmap_of, 1);
        }
        if !(starts_with(name, "HashMap<") && has_field(fields, "table")) {
            return None;
        }
        let table = match Self::field_value(fields, "table", type_index, address, peek, read_bytes, depth) {
            Ok(Ok(v)) => v,
            Ok(Err(e)) => return Some(Ok(Some(e))),
            Err(e) => return Some(Err(e)),
        };
        if let Some(DebugValue::RawTableInner { bucket_mask, ctrl, .. }) = table {
            return Some(Self::hashmap_entries(generics, alignment, bucket_mask, ctrl, type_index, peek, read_bytes, depth));
        }
        None
    }

    /// The raw part of a vector: its heap pointer and capacity; `None` where
    /// the structure is not one.
    #[verifier::rlimit(50)]
    #[verifier::rlimit(40)]
    fn raw_vec_layout<P, B>(
        name: &str,
        fields: &Vec<StructField>,
        type_index: &FxHashMap<usize, TypeCacheNode>,
        address: u64,
        peek: &P,
        read_bytes: &B,
        depth: u32,
    ) -> (r: Option<Result<Option<DebugValue>, SystemError>>) where
        P: Fn(u64) -> Result<i64, SystemError>,
        B: Fn(usize, usize) -> Result<Vec<u8>, SystemError>,

        requires
            reads_words(peek),
            reads_bytes(read_bytes),
        ensures
            layout_view(r) == raw_vec_layout_of(name@, fields@, type_index@, address, peek, read_bytes, depth as nat),
        decreases depth, 1u32,
    {
        proof {
            reveal_with_fuel(raw_vec_layout_of, 1);
            reveal_with_fuel(field_of, 1);
        }
        if !str_eq(name, "RawVecInner<alloc::alloc::Global>") {
            return None;
        }
        let heap_pointer = match Self::field_value(fields, "ptr", type_index, address, peek, read_bytes, depth) {
            Ok(Ok(v)) => v,
            Ok(Err(e)) => return Some(Ok(Some(e))),
            Err(e) => return Some(Err(e)),
        };
        let capacity = match Self::field_value(fields, "cap", type_index, address, peek, read_bytes, depth) {
            Ok(Ok(v)) => v,
            Ok(Err(e)) => return Some(Ok(Some(e))),
            Err(e) => return Some(Err(e)),
        };
        if let (Some(DebugValue::Pointer(ptr)), Some(DebugValue::Usize(cap))) = (heap_pointer, capacity) {
            return Some(Ok(Some(DebugValue::RawVecInner { heap_pointer_value: ptr, cap })));
        }
        None
    }

    /// The raw part of a hash table: its bucket mask, control bytes, growth
    /// allowance and item count; `None` where the structure is not one.
    #[verifier::rlimit(50)]
    #[verifier::rlimit(40)]
    fn raw_table_layout<P, B>(
        name: &str,
        fields: &Vec<StructField>,
        type_index: &FxHashMap<usize, TypeCacheNode>,
        address: u64,
        peek: &P,
        read_bytes: &B,
        depth: u32,
    ) -> (r: Option<Result<Option<DebugValue>, SystemError>>) where
        P: Fn(u64) -> Result<i64, SystemError>,
        B: Fn(usize, usize) -> Result<Vec<u8>, SystemError>,

        requires
            reads_words(peek),
            reads_bytes(read_bytes),
        ensures
            layout_view(r) == raw_table_layout_of(name@, fields@, type_index@, address, peek, read_bytes, depth as nat),
        decreases depth, 1u32,
    {
        proof {
            reveal_with_fuel(raw_table_layout_of, 1);
            reveal_with_fuel(field_of, 1);
        }
        if !str_eq(name, "RawTableInner") {
            return None;
        }
        let bucket_mask = match Self::field_value(fields, "bucket_mask", type_index, address, peek, read_bytes, depth) {
            Ok(Ok(v)) => v,
            Ok(Err(e)) => return Some(Ok(Some(e))),
            Err(e) => return Some(Err(e)),
        };
        let ctrl = match Self::field_value(fields, "ctrl", type_index, address, peek, read_bytes, depth) {
            Ok(Ok(v)) => v,
            Ok(Err(e)) => return Some(Ok(Some(e))),
            Err(e) => return Some(Err(e)),
        };
        let growth_left = match Self::field_value(fields, "growth_left", type_index, address, peek, read_bytes, depth) {
            Ok(Ok(v)) => v,
            Ok(Err(e)) => return Some(Ok(Some(e))),
            Err(e) => return Some(Err(e)),
        };
        let items = match Self::field_value(fields, "items", type_index, address, peek, read_bytes, depth) {
            Ok(Ok(v)) => v,
            Ok(Err(e)) => return Some(Ok(Some(e))),
            Err(e) => return Some(Err(e)),
        };
        if let (
            Some(DebugValue::Usize(bucket_mask)),
            Some(DebugValue::Pointer(ctrl)),
            Some(DebugValue::Usize(growth_left)),
            Some(DebugValue::Usize(items)),
        ) = (bucket_mask, ctrl, growth_left, items) {
            return Some(Ok(Some(DebugValue::RawTableInner { bucket_mask, ctrl, growth_left, items })));
        }
        None
    }
}

impl DwarfType {
    /// The entries of a `hashbrown` table with `bucket_mask + 1` buckets whose
    /// control bytes start at `ctrl`: each bucket whose control byte has its
    /// top bit clear holds a key and a value.
    #[verifier::rlimit(40)]
    fn hashmap_entries<P, B>(
        generics: &Vec<GenericField>,
        alignment: u64,
        bucket_mask: u64,
        ctrl: usize,
        type_index: &FxHashMap<usize, TypeCacheNode>,
        peek: &P,
        read_bytes: &B,
        depth: u32,
    ) -> (r: Result<Option<DebugValue>, SystemError>) where
        P: Fn(u64) -> Result<i64, SystemError>,
        B: Fn(usize, usize) -> Result<Vec<u8>, SystemError>,

        requires
            reads_words(peek),
            reads_bytes(read_bytes),
        ensures
            read_view(r) == hashmap_of(generics@, alignment, bucket_mask, ctrl, type_index@, peek, read_bytes, depth as nat),
        decreases depth, 0u32,
    {
        proof {
            reveal_with_fuel(hashmap_of, 1);
            reveal_with_fuel(bucket_items, 1);
            reveal_with_fuel(value_of, 1);
        }
        let key_field = match find_generic(generics, "K") {
            Some(g) => g,
            None => return Ok(Some(DebugValue::Error(missing_generic_message("K", generics)))),
        };
        let key_type = match lookup_type(type_index, key_field.type_offset) {
            Ok(t) => t,
            Err(e) => return Ok(Some(e)),
        };
        let value_field = match find_generic(generics, "V") {
            Some(g) => g,
            None => return Ok(Some(DebugValue::Error(missing_generic_message("V", generics)))),
        };
        let value_type = match lookup_type(type_index, value_field.type_offset) {
            Ok(t) => t,
            Err(e) => return Ok(Some(e)),
        };
        let key_size = match lookup_size(key_type, type_index) {
            Ok(s) => s,
            Err(e) => return Ok(Some(e)),
        };
        let value_size = match lookup_size(value_type, type_index) {
            Ok(s) => s,
            Err(e) => return Ok(Some(e)),
        };
        let (next_key_offset, total_offset) = match hashmap_entry_layout(key_size, value_size, alignment) {
            Some(l) => l,
            None => return Ok(Some(DebugValue::Error("Could not lay out hash map entries".to_owned()))),
        };
        let total_buckets = match bucket_mask.checked_add(1) {
            Some(t) => t,
            None => return Ok(Some(DebugValue::Error("Could not lay out hash map entries".to_owned()))),
        };
        if depth == 0 {
            return Ok(Some(DebugValue::Error("Value nested too deeply".to_owned())));
        }
        let ghost ti = type_index@;
        let ghost key = key_type.dwarf_type;
        let ghost value = value_type.dwarf_type;
        let ghost whole = hashmap_of(generics@, alignment, bucket_mask, ctrl, ti, peek, read_bytes, depth as nat);
        assert(whole == match bucket_items(key, value, ti, ctrl as u64, total_offset, next_key_offset, total_buckets, 0, peek, read_bytes, depth as nat) {
            Items::Done(s) => Ok(Some(ValueView::HashMap { entries: s })),
            Items::Stop(r) => r,
        });
        let mut entries: Vec<(DebugValue, DebugValue)> = Vec::new();
        let mut i: u64 = 0;
        while i < total_buckets
            invariant
                reads_words(peek),
                reads_bytes(read_bytes),
                depth > 0,
                i <= total_buckets,
                ti == type_index@,
                key == key_type.dwarf_type,
                value == value_type.dwarf_type,
                whole == hashmap_of(generics@, alignment, bucket_mask, ctrl, ti, peek, read_bytes, depth as nat),
                whole == match bucket_items(key, value, ti, ctrl as u64, total_offset, next_key_offset, total_buckets, 0, peek, read_bytes, depth as nat) {
                    Items::Done(s) => Ok(Some(ValueView::HashMap { entries: s })),
                    Items::Stop(r) => r,
                },
                bucket_items(key, value, ti, ctrl as u64, total_offset, next_key_offset, total_buckets, 0, peek, read_bytes, depth as nat) == after(
                    Seq::new(entries@.len(), |j: int| (value_view(entries@[j].0), value_view(entries@[j].1))),
                    bucket_items(key, value, ti, ctrl as u64, total_offset, next_key_offset, total_buckets, i, peek, read_bytes, depth as nat),
                ),
            decreases total_buckets - i,
        {
            proof {
                reveal_with_fuel(bucket_items, 1);
                reveal_with_fuel(value_of, 1);
            }
            let ctrl_byte_address = match (ctrl as u64).checked_add(i) {
                Some(a) => a,
                None => return Ok(Some(DebugValue::Error("Bucket address out of range".to_owned()))),
            };
            let res = peek(ctrl_byte_address);
            proof {
                lemma_word_read(peek, ctrl_byte_address, res);
            }
            let ctrl_byte = match res {
                Ok(b) => b,
                Err(e) => return Err(e),
            };
            if ctrl_byte & 0x80 == 0 {
                let (key_address, value_address) = match hashmap_bucket_addresses(
                    ctrl as u64,
                    i,
                    total_offset,
                    next_key_offset,
                ) {
                    Some(a) => a,
                    None => return Ok(Some(DebugValue::Error("Bucket address out of range".to_owned()))),
                };
                let current_key = match key_type.dwarf_type.value_at(type_index, key_address, peek, read_bytes, depth - 1) {
                    Ok(Some(v)) => v,
                    Ok(None) => return Ok(None),
                    Err(e) => return Err(e),
                };
                let current_value = match value_type.dwarf_type.value_at(type_index, value_address, peek, read_bytes, depth - 1) {
                    Ok(Some(v)) => v,
                    Ok(None) => return Ok(None),
                    Err(e) => return Err(e),
                };
                let ghost prev = entries@;
                let ghost kv = (value_view(current_key), value_view(current_value));
                proof {
                    lemma_after_push(
                        Seq::new(prev.len(), |j: int| (value_view(prev[j].0), value_view(prev[j].1))),
                        kv,
                        bucket_items(key, value, ti, ctrl as u64, total_offset, next_key_offset, total_buckets, (i + 1) as u64, peek, read_bytes, depth as nat),
                    );
                }
                entries.push((current_key, current_value));
                proof {
                    assert(Seq::new(prev.len(), |j: int| (value_view(prev[j].0), value_view(prev[j].1))).push(kv) =~= Seq::new(
                        entries@.len(),
                        |j: int| (value_view(entries@[j].0), value_view(entries@[j].1)),
                    ));
                }
            }
            i = i + 1;
        }
        proof {
            reveal_with_fuel(bucket_items, 1);
            lemma_entries_view(entries@, entries@.len() as int);
            let done = Seq::new(entries@.len(), |j: int| (value_view(entries@[j].0), value_view(entries@[j].1)));
            assert(done + Seq::<(ValueView, ValueView)>::empty() =~= done);
        }
        Ok(Some(DebugValue::HashMap { entries }))
    }

    /// A structure without a recognised layout: one with a single field that
    /// takes space shows as that field; `&str` and `&Path` as the text of the
    /// bytes they point to; one whose fields are all positional as a tuple;
    /// any other as its named fields.
    fn plain_structure_value<P, B>(
        name: &str,
        fields: &Vec<StructField>,
        type_index: &FxHashMap<usize, TypeCacheNode>,
        address: u64,
        peek: &P,
        read_bytes: &B,
        depth: u32,
    ) -> (r: Result<Option<DebugValue>, SystemError>) where
        P: Fn(u64) -> Result<i64, SystemError>,
        B: Fn(usize, usize) -> Result<Vec<u8>, SystemError>,

        requires
            reads_words(peek),
            reads_bytes(read_bytes),
        ensures
            read_view(r) == plain_structure_of(name@, fields@, type_index@, address, peek, read_bytes, depth as nat),
        decreases depth, 1u32,
    {
        proof {
            reveal_with_fuel(plain_structure_of, 1);
            reveal_with_fuel(field_items, 1);
            reveal_with_fuel(value_of, 1);
        }
        if depth == 0 {
            return Ok(Some(DebugValue::Error("Value nested too deeply".to_owned())));
        }
        let ghost ti = type_index@;
        // Fields that take space (phantom data does not).
        let n = fields.len();
        let mut physical: usize = 0;
        let mut single: usize = 0;
        let mut k: usize = 0;
        while k < n
            invariant
                n == fields@.len(),
                k <= n,
                ti == type_index@,
                physical <= k,
                physical == space_count(ti, fields@, k as int),
                physical > 0 ==> single < k && takes_space(ti, fields@[single as int]),
                physical > 0 ==> forall|j: int| 0 <= j < single ==> !takes_space(ti, #[trigger] fields@[j]),
                physical == 0 ==> forall|j: int| 0 <= j < k ==> !takes_space(ti, #[trigger] fields@[j]),
            decreases n - k,
        {
            let spaced = match fx_get(type_index, &fields[k].type_offset) {
                Some(ty) => match ty.dwarf_type.get_byte_size(type_index) {
                    Some(size) => size > 0,
                    None => false,
                },
                None => true,
            };
            assert(spaced == takes_space(ti, fields@[k as int]));
            if spaced {
                if physical == 0 {
                    single = k;
                }
                physical = physical + 1;
            }
            k = k + 1;
        }
        assert(physical == space_count(ti, fields@, fields@.len() as int));
        if physical == 1 {
            proof {
                assert(0 <= single < fields@.len() && takes_space(ti, fields@[single as int]) && forall|j: int|
                    0 <= j < single ==> !takes_space(ti, #[trigger] fields@[j]));
                let c = first_spaced(ti, fields@);
                assert(c == single as int) by {
                    if c < single {
                        assert(!takes_space(ti, fields@[c]));
                    } else if c > single {
                        assert(!takes_space(ti, fields@[single as int]));
                    }
                }
            }
            let single_field = &fields[single];
            if let Some(ty) = fx_get(type_index, &single_field.type_offset) {
                let at = match address.checked_add(single_field.location) {
                    Some(a) => a,
                    None => return Ok(Some(DebugValue::Error("Field address out of range".to_owned()))),
                };
                return ty.dwarf_type.value_at(type_index, at, peek, read_bytes, depth - 1);
            }
            assert(fields@[first_spaced(ti, fields@)] == fields@[single as int]);
        }
        assert(!(space_count(ti, fields@, fields@.len() as int) == 1 && ti.contains_key(fields@[first_spaced(ti, fields@)].type_offset)));
        let ghost whole = plain_structure_of(name@, fields@, ti, address, peek, read_bytes, depth as nat);
        let ghost field_values = field_items(fields@, ti, address, 0, peek, read_bytes, depth as nat);
        assert(field_values matches Items::Stop(r) ==> whole == r);
        let mut values: Vec<DebugStructField> = Vec::new();
        let mut j: usize = 0;
        while j < n
            invariant
                n == fields@.len(),
                j <= n,
                reads_words(peek),
                reads_bytes(read_bytes),
                depth > 0,
                values@.len() == j,
                ti == type_index@,
                field_values == field_items(fields@, ti, address, 0, peek, read_bytes, depth as nat),
                whole == plain_structure_of(name@, fields@, ti, address, peek, read_bytes, depth as nat),
                field_values matches Items::Stop(r) ==> whole == r,
                field_values == after(
                    Seq::new(j as nat, |x: int| (values@[x].name@, value_view(values@[x].value))),
                    field_items(fields@, ti, address, j as int, peek, read_bytes, depth as nat),
                ),
            decreases n - j,
        {
            proof {
                reveal_with_fuel(field_items, 1);
                reveal_with_fuel(value_of, 1);
            }
            let field = &fields[j];
            let ty = match lookup_type(type_index, field.type_offset) {
                Ok(t) => t,
                Err(e) => return Ok(Some(e)),
            };
            let at = match address.checked_add(field.location) {
                Some(a) => a,
                None => return Ok(Some(DebugValue::Error("Field address out of range".to_owned()))),
            };
            let value = match ty.dwarf_type.value_at(type_index, at, peek, read_bytes, depth - 1) {
                Ok(Some(v)) => v,
                Ok(None) => return Ok(None),
                Err(e) => return Err(e),
            };
            let ghost prev = values@;
            let ghost nv = (field.name@, value_view(value));
            proof {
                lemma_after_push(
                    Seq::new(j as nat, |x: int| (prev[x].name@, value_view(prev[x].value))),
                    nv,
                    field_items(fields@, ti, address, j + 1, peek, read_bytes, depth as nat),
                );
            }
            values.push(DebugStructField { name: field.name.clone(), value });
            proof {
                assert(Seq::new(j as nat, |x: int| (prev[x].name@, value_view(prev[x].value))).push(nv) =~= Seq::new(
                    (j + 1) as nat,
                    |x: int| (values@[x].name@, value_view(values@[x].value)),
                ));
            }
            j = j + 1;
        }
        let ghost shown = Seq::new(n as nat, |x: int| (values@[x].name@, value_view(values@[x].value)));
        proof {
            reveal_with_fuel(field_items, 1);
            lemma_fields_view(values@, n as int);
            assert(shown + Seq::<(Seq<char>, ValueView)>::empty() =~= shown);
            assert(field_values == Items::Done(shown));
        }
        let is_str = str_eq(name, "&str");
        if (is_str || str_eq(name, "&std::path::Path")) && values.len() == 2 {
            let found = match (&values[0].value, &values[1].value) {
                (DebugValue::Pointer(ptr), DebugValue::Usize(len)) => Some((*ptr, *len)),
                _ => None,
            };
            if let Some((ptr, len)) = found {
                let res = read_bytes(ptr, len as usize);
                proof {
                    lemma_bytes_read(read_bytes, ptr, len as usize, res);
                }
                let bytes = match res {
                    Ok(b) => b,
                    Err(e) => return Err(e),
                };
                let string = string_from_utf8_lossy(bytes.as_slice());
                if is_str {
                    return Ok(Some(DebugValue::StringSlice(string)));
                } else {
                    return Ok(Some(DebugValue::FilePath(string)));
                }
            }
        }
        if is_tuple_fields(fields) {
            let ghost all = values@;
            let mut tup_values: Vec<DebugValue> = Vec::new();
            while values.len() > 0
                invariant
                    tup_values@.len() + values@.len() == all.len(),
                    values@ == all.subrange(tup_values@.len() as int, all.len() as int),
                    forall|x: int| 0 <= x < tup_values@.len() ==> tup_values@[x] == all[x].value,
                decreases values.len(),
            {
                let f = values.remove(0);
                tup_values.push(f.value);
            }
            proof {
                lemma_values_view(tup_values@, tup_values@.len() as int);
                assert(Seq::new(tup_values@.len(), |x: int| value_view(tup_values@[x])) =~= shown.map_values(
                    |f: (Seq<char>, ValueView)| f.1,
                ));
            }
            return Ok(Some(DebugValue::Tuple(tup_values)));
        }
        Ok(Some(DebugValue::Struct { name: name.to_owned(), fields: values }))
    }
}

} // verus!
