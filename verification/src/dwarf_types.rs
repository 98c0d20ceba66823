//! The types of a compilation unit, read from its entries.
use crate::die::{
    attr_constant, attr_ref, attr_str, attr_udata, last_attr, AttrKind, AttrValue, DieAttr, DieRecord,
    DW_AT_ALIGNMENT, DW_AT_BYTE_SIZE, DW_AT_CONST_VALUE, DW_AT_COUNT, DW_AT_DATA_MEMBER_LOCATION,
    DW_AT_DISCR, DW_AT_DISCR_VALUE, DW_AT_ENCODING, DW_AT_NAME, DW_AT_TYPE, DW_TAG_ARRAY_TYPE,
    DW_TAG_BASE_TYPE, DW_TAG_CONST_TYPE, DW_TAG_ENUMERATION_TYPE, DW_TAG_ENUMERATOR, DW_TAG_MEMBER,
    DW_TAG_POINTER_TYPE, DW_TAG_STRUCTURE_TYPE, DW_TAG_SUBRANGE_TYPE, DW_TAG_TEMPLATE_TYPE_PARAMETER,
    DW_TAG_VARIANT, DW_TAG_VARIANT_PART,
};
use crate::die::{find_attr, get_constant, get_ref, get_str, get_udata};
use crate::dwarf::{DwarfType, EnumVariant, Enumerator, GenericField, StructField};
use vstd::prelude::*;

verus! {

/// A member as (name, type offset, byte offset).
pub type FieldShape = (Seq<char>, usize, u64);

/// A variant as (discriminant, members).
pub type VariantShape = (Option<u8>, Seq<FieldShape>);

/// What a `DwarfType` holds, with strings and vectors seen as sequences.
pub enum TypeShape {
    Base { name: Seq<char>, encoding: u8, byte_size: u64 },
    Pointer { name: Option<Seq<char>>, target: usize },
    Const { target: usize },
    Array { target: usize, count: u64 },
    Structure {
        name: Seq<char>,
        byte_size: u64,
        alignment: u64,
        generics: Seq<(Seq<char>, usize)>,
        fields: Seq<FieldShape>,
    },
    Enum { name: Seq<char>, byte_size: u64, fields: Seq<(Seq<char>, u64)> },
    Variant {
        name: Seq<char>,
        byte_size: u64,
        alignment: u64,
        discr_member_offset: Option<u64>,
        variants: Seq<VariantShape>,
    },
}

/// A structure member as plain values.
pub open spec fn field_shape(f: StructField) -> FieldShape {
    (f.name@, f.type_offset, f.location)
}

/// Each member of a list as plain values.
pub open spec fn fields_shape(v: Seq<StructField>) -> Seq<FieldShape> {
    v.map_values(|f: StructField| field_shape(f))
}

/// Each generic parameter as its name and type offset.
pub open spec fn generics_shape(v: Seq<GenericField>) -> Seq<(Seq<char>, usize)> {
    v.map_values(|g: GenericField| (g.name@, g.type_offset))
}

/// Each enumerator as its name and value.
pub open spec fn enumerators_shape(v: Seq<Enumerator>) -> Seq<(Seq<char>, u64)> {
    v.map_values(|e: Enumerator| (e.name@, e.value))
}

/// An enum variant as plain values.
pub open spec fn variant_shape(v: EnumVariant) -> VariantShape {
    (v.discr_value, fields_shape(v.fields@))
}

/// Each variant of a list as plain values.
pub open spec fn variants_shape(v: Seq<EnumVariant>) -> Seq<VariantShape> {
    v.map_values(|x: EnumVariant| variant_shape(x))
}

/// The shape of a type.
pub open spec fn shape(t: DwarfType) -> TypeShape {
    match t {
        DwarfType::Base { name, encoding, byte_size } => TypeShape::Base {
            name: name@,
            encoding,
            byte_size,
        },
        DwarfType::Pointer { name, target_type_offset } => TypeShape::Pointer {
            name: match name {
                Some(n) => Some(n@),
                None => None,
            },
            target: target_type_offset,
        },
        DwarfType::Const { target_type_offset } => TypeShape::Const { target: target_type_offset },
        DwarfType::Array { target_type_offset, count } => TypeShape::Array {
            target: target_type_offset,
            count,
        },
        DwarfType::Structure { name, byte_size, alignment, generics, fields } => TypeShape::Structure {
            name: name@,
            byte_size,
            alignment,
            generics: generics_shape(generics@),
            fields: fields_shape(fields@),
        },
        DwarfType::Enum { name, byte_size, fields } => TypeShape::Enum {
            name: name@,
            byte_size,
            fields: enumerators_shape(fields@),
        },
        DwarfType::Variant { name, byte_size, alignment, discr_member_offset, variants } => TypeShape::Variant {
            name: name@,
            byte_size,
            alignment,
            discr_member_offset,
            variants: variants_shape(variants@),
        },
    }
}

/// The end of the subtree of entry `i`: the first later entry that is not
/// deeper than it, or the end of the unit.
pub open spec fn subtree_end(dies: Seq<DieRecord>, i: int) -> int {
    end_from(dies, i + 1, dies[i].depth)
}

/// The first position from `k` on whose entry is no deeper than `depth` (or the end).
pub open spec fn end_from(dies: Seq<DieRecord>, k: int, depth: i64) -> int
    decreases dies.len() - k,
{
    if k >= dies.len() {
        dies.len() as int
    } else if dies[k].depth <= depth {
        k
    } else {
        end_from(dies, k + 1, depth)
    }
}

/// The subtree end of entry `i`.
pub fn subtree_end_of(dies: &Vec<DieRecord>, i: usize) -> (r: usize)
    requires
        i < dies@.len(),
    ensures
        r == subtree_end(dies@, i as int),
        i < r <= dies@.len(),
{
    let depth = dies[i].depth;
    let n = dies.len();
    let mut k = i + 1;
    while k < n && dies[k].depth > depth
        invariant
            i < k <= dies@.len(),
            n == dies@.len(),
            depth == dies@[i as int].depth,
            end_from(dies@, i + 1, depth) == end_from(dies@, k as int, depth),
        decreases dies@.len() - k,
    {
        k = k + 1;
    }
    k
}

/// The value of the first attribute named `name` (gimli's `attr_value`).
pub open spec fn first_attr(attrs: Seq<DieAttr>, name: u16) -> Option<AttrValue>
    decreases attrs.len(),
{
    if attrs.len() == 0 {
        None
    } else if attrs[0].name == name {
        Some(attrs[0].value)
    } else {
        first_attr(attrs.drop_first(), name)
    }
}

/// The first entry of the unit at `.debug_info` offset `offset`.
pub open spec fn die_at(dies: Seq<DieRecord>, offset: usize, k: int) -> Option<int>
    decreases dies.len() - k,
{
    if k >= dies.len() || k < 0 {
        None
    } else if dies[k].offset == offset {
        Some(k)
    } else {
        die_at(dies, offset, k + 1)
    }
}

/// The encoding of a base type.
pub open spec fn attr_encoding(a: Seq<DieAttr>) -> Option<u8> {
    match last_attr(a, DW_AT_ENCODING, AttrKind::Encoding) {
        Some(AttrValue::Encoding(e)) => Some(e),
        _ => None,
    }
}

/// An enumerator entry as (name, value).
pub open spec fn enumerator_of(d: DieRecord) -> Option<(Seq<char>, u64)> {
    if d.tag == DW_TAG_ENUMERATOR {
        match (attr_str(d.attrs@, DW_AT_NAME), attr_udata(d.attrs@, DW_AT_CONST_VALUE)) {
            (Some(n), Some(v)) => Some((n, v)),
            _ => None,
        }
    } else {
        None
    }
}

/// The enumerators among the entries `from..k`.
pub open spec fn enumerators(dies: Seq<DieRecord>, from: int, k: int) -> Seq<(Seq<char>, u64)>
    decreases k - from,
{
    if k <= from {
        Seq::empty()
    } else {
        let prev = enumerators(dies, from, k - 1);
        match enumerator_of(dies[k - 1]) {
            Some(e) => prev.push(e),
            None => prev,
        }
    }
}

/// The first subrange entry at or after `k`.
pub open spec fn first_subrange(dies: Seq<DieRecord>, k: int) -> Option<int>
    decreases dies.len() - k,
{
    if k >= dies.len() || k < 0 {
        None
    } else if dies[k].tag == DW_TAG_SUBRANGE_TYPE {
        Some(k)
    } else {
        first_subrange(dies, k + 1)
    }
}

/// The element count of the array entry `i`: the `Data1` count of the first
/// subrange entry after it.
pub open spec fn array_count(dies: Seq<DieRecord>, i: int) -> Option<u64> {
    match first_subrange(dies, i + 1) {
        Some(k) => match last_attr(dies[k].attrs@, DW_AT_COUNT, AttrKind::Any) {
            Some(AttrValue::Data1(v)) => Some(v as u64),
            _ => None,
        },
        None => None,
    }
}

/// A member entry as a field, when it has a name, a type and a `Udata` offset.
pub open spec fn member_of(d: DieRecord) -> Option<FieldShape> {
    match (
        attr_str(d.attrs@, DW_AT_NAME),
        attr_ref(d.attrs@, DW_AT_TYPE),
        attr_udata(d.attrs@, DW_AT_DATA_MEMBER_LOCATION),
    ) {
        (Some(n), Some(t), Some(l)) => Some((n, t, l)),
        _ => None,
    }
}

/// A template type parameter entry as (name, type).
pub open spec fn generic_of(d: DieRecord) -> Option<(Seq<char>, usize)> {
    match (attr_str(d.attrs@, DW_AT_NAME), attr_ref(d.attrs@, DW_AT_TYPE)) {
        (Some(n), Some(t)) => Some((n, t)),
        _ => None,
    }
}

/// Whether a generic parameter is named `name`.
pub open spec fn has_generic(gs: Seq<(Seq<char>, usize)>, name: Seq<char>) -> bool {
    exists|j: int| 0 <= j < gs.len() && gs[j].0 == name
}

/// The discriminant of a variant entry, cut to a byte; none where it is
/// missing or in a form other than a data form.
pub open spec fn discr_value_of(d: DieRecord) -> Option<u8> {
    match last_attr(d.attrs@, DW_AT_DISCR_VALUE, AttrKind::Any) {
        Some(AttrValue::Data1(v)) => Some(v),
        Some(AttrValue::Data2(v)) => Some(v as u8),
        Some(AttrValue::Data4(v)) => Some(v as u8),
        Some(AttrValue::Data8(v)) => Some(v as u8),
        Some(AttrValue::Sdata(v)) => Some(v as u8),
        _ => None,
    }
}

/// The offset of the discriminant member of a variant part: the
/// `data_member_location` of the entry its `discr` attribute refers to.
pub open spec fn discr_location(dies: Seq<DieRecord>, part: DieRecord) -> Option<u64> {
    match first_attr(part.attrs@, DW_AT_DISCR) {
        Some(AttrValue::UnitRef(o)) => match die_at(dies, o, 0) {
            Some(j) => match first_attr(dies[j].attrs@, DW_AT_DATA_MEMBER_LOCATION) {
                Some(AttrValue::Udata(l)) => Some(l),
                _ => None,
            },
            None => None,
        },
        _ => None,
    }
}

/// Going through the entries `from..k` of a variant part: the variant being
/// read, and the variants read so far.
pub open spec fn part_scan(dies: Seq<DieRecord>, from: int, k: int) -> (Option<VariantShape>, Seq<VariantShape>)
    decreases k - from,
{
    if k <= from {
        (None, Seq::empty())
    } else {
        let (pending, done) = part_scan(dies, from, k - 1);
        let d = dies[k - 1];
        if d.tag == DW_TAG_VARIANT {
            let done2 = match pending {
                Some(v) => done.push(v),
                None => done,
            };
            (
                match discr_value_of(d) {
                    Some(x) => Some((Some(x), Seq::<FieldShape>::empty())),
                    None => None,
                },
                done2,
            )
        } else if d.tag == DW_TAG_MEMBER {
            match (member_of(d), pending) {
                (Some(f), Some(v)) => (Some((v.0, v.1.push(f))), done),
                _ => (pending, done),
            }
        } else {
            (pending, done)
        }
    }
}

/// The variants with a discriminant of the variant part entry `p`.
pub open spec fn part_variants(dies: Seq<DieRecord>, p: int) -> Seq<VariantShape> {
    let (pending, done) = part_scan(dies, p + 1, subtree_end(dies, p));
    match pending {
        Some(v) => done.push(v),
        None => done,
    }
}

/// What going through the children of a structure entry gathers.
pub struct StructScan {
    pub fallback: Seq<FieldShape>,
    pub generics: Seq<(Seq<char>, usize)>,
    pub is_enum: bool,
    pub discr: Option<u64>,
    pub variants: Seq<VariantShape>,
}

/// What scanning no members gives.
pub open spec fn empty_scan() -> StructScan {
    StructScan {
        fallback: Seq::empty(),
        generics: Seq::empty(),
        is_enum: false,
        discr: None,
        variants: Seq::empty(),
    }
}

/// Going through the entries `from..k` below a structure: every member (those
/// of variants too) as a fallback field, each generic parameter once by name,
/// and the variants of each variant part.
pub open spec fn struct_scan(dies: Seq<DieRecord>, from: int, k: int) -> StructScan
    decreases k - from,
{
    if k <= from {
        empty_scan()
    } else {
        let s = struct_scan(dies, from, k - 1);
        let d = dies[k - 1];
        if d.tag == DW_TAG_MEMBER {
            match member_of(d) {
                Some(f) => StructScan { fallback: s.fallback.push(f), ..s },
                None => s,
            }
        } else if d.tag == DW_TAG_TEMPLATE_TYPE_PARAMETER {
            match generic_of(d) {
                Some(g) => if has_generic(s.generics, g.0) {
                    s
                } else {
                    StructScan { generics: s.generics.push(g), ..s }
                },
                None => s,
            }
        } else if d.tag == DW_TAG_VARIANT_PART {
            StructScan {
                is_enum: true,
                discr: match discr_location(dies, d) {
                    Some(o) => Some(o),
                    None => s.discr,
                },
                variants: s.variants + part_variants(dies, k - 1),
                ..s
            }
        } else {
            s
        }
    }
}

/// A fallback field that some variant has too (same type and offset).
pub open spec fn in_some_variant(f: FieldShape, vs: Seq<VariantShape>) -> bool {
    exists|a: int, b: int|
        0 <= a < vs.len() && 0 <= b < vs[a].1.len() && vs[a].1[b].1 == f.1 && vs[a].1[b].2 == f.2
}

/// The name starts with `__`.
pub open spec fn reserved_name(n: Seq<char>) -> bool {
    n.len() >= 2 && n[0] == '_' && n[1] == '_'
}

/// The fallback fields among the first `k` that no variant has and whose
/// name does not start with `__`.
pub open spec fn kept_fallback(fb: Seq<FieldShape>, vs: Seq<VariantShape>, k: int) -> Seq<FieldShape>
    decreases k,
{
    if k <= 0 {
        Seq::empty()
    } else {
        let prev = kept_fallback(fb, vs, k - 1);
        if !in_some_variant(fb[k - 1], vs) && !reserved_name(fb[k - 1].0) {
            prev.push(fb[k - 1])
        } else {
            prev
        }
    }
}

/// The type of the structure entry `i` with its name, size and alignment: a
/// plain structure, or, with a variant part, a Rust enum whose members outside
/// the variants form one more variant without discriminant.
pub open spec fn struct_type(dies: Seq<DieRecord>, i: int, name: Seq<char>, byte_size: u64, alignment: u64) -> TypeShape {
    let s = if dies[i].has_children {
        struct_scan(dies, i + 1, subtree_end(dies, i))
    } else {
        empty_scan()
    };
    if !s.is_enum {
        TypeShape::Structure { name, byte_size, alignment, generics: s.generics, fields: s.fallback }
    } else {
        TypeShape::Variant {
            name,
            byte_size,
            alignment,
            discr_member_offset: s.discr,
            variants: if s.fallback.len() > 0 {
                s.variants.push((None, kept_fallback(s.fallback, s.variants, s.fallback.len() as int)))
            } else {
                s.variants
            },
        }
    }
}

/// The type that entry `i` of a unit describes, if it describes one the
/// debugger reads and has the attributes it needs.
pub open spec fn die_type(dies: Seq<DieRecord>, i: int) -> Option<TypeShape> {
    let d = dies[i];
    let a = d.attrs@;
    if d.tag == DW_TAG_BASE_TYPE {
        match (attr_str(a, DW_AT_NAME), attr_encoding(a), attr_constant(a, DW_AT_BYTE_SIZE)) {
            (Some(n), Some(e), Some(b)) => Some(TypeShape::Base { name: n, encoding: e, byte_size: b }),
            _ => None,
        }
    } else if d.tag == DW_TAG_POINTER_TYPE {
        match attr_ref(a, DW_AT_TYPE) {
            Some(t) => Some(TypeShape::Pointer { name: attr_str(a, DW_AT_NAME), target: t }),
            None => None,
        }
    } else if d.tag == DW_TAG_CONST_TYPE {
        match attr_ref(a, DW_AT_TYPE) {
            Some(t) => Some(TypeShape::Const { target: t }),
            None => None,
        }
    } else if d.tag == DW_TAG_ENUMERATION_TYPE {
        match (attr_str(a, DW_AT_NAME), attr_udata(a, DW_AT_BYTE_SIZE)) {
            (Some(n), Some(b)) => Some(
                TypeShape::Enum {
                    name: n,
                    byte_size: b,
                    fields: if d.has_children {
                        enumerators(dies, i + 1, subtree_end(dies, i))
                    } else {
                        Seq::empty()
                    },
                },
            ),
            _ => None,
        }
    } else if d.tag == DW_TAG_ARRAY_TYPE {
        if d.has_children {
            match (attr_ref(a, DW_AT_TYPE), array_count(dies, i)) {
                (Some(t), Some(c)) => Some(TypeShape::Array { target: t, count: c }),
                _ => None,
            }
        } else {
            None
        }
    } else if d.tag == DW_TAG_STRUCTURE_TYPE {
        match (attr_str(a, DW_AT_NAME), attr_udata(a, DW_AT_BYTE_SIZE), attr_udata(a, DW_AT_ALIGNMENT)) {
            (Some(n), Some(b), Some(al)) => Some(struct_type(dies, i, n, b, al)),
            _ => None,
        }
    } else {
        None
    }
}

} // verus!

verus! {

proof fn lemma_fields_push(v: Seq<StructField>, x: StructField)
    ensures
        fields_shape(v.push(x)) == fields_shape(v).push(field_shape(x)),
{
    assert(fields_shape(v.push(x)) =~= fields_shape(v).push(field_shape(x)));
}

proof fn lemma_generics_push(v: Seq<GenericField>, x: GenericField)
    ensures
        generics_shape(v.push(x)) == generics_shape(v).push((x.name@, x.type_offset)),
{
    assert(generics_shape(v.push(x)) =~= generics_shape(v).push((x.name@, x.type_offset)));
}

proof fn lemma_enumerators_push(v: Seq<Enumerator>, x: Enumerator)
    ensures
        enumerators_shape(v.push(x)) == enumerators_shape(v).push((x.name@, x.value)),
{
    assert(enumerators_shape(v.push(x)) =~= enumerators_shape(v).push((x.name@, x.value)));
}

proof fn lemma_variants_push(v: Seq<EnumVariant>, x: EnumVariant)
    ensures
        variants_shape(v.push(x)) == variants_shape(v).push(variant_shape(x)),
{
    assert(variants_shape(v.push(x)) =~= variants_shape(v).push(variant_shape(x)));
}

proof fn lemma_variants_append(v: Seq<EnumVariant>, w: Seq<EnumVariant>)
    ensures
        variants_shape(v + w) == variants_shape(v) + variants_shape(w),
{
    assert(variants_shape(v + w) =~= variants_shape(v) + variants_shape(w));
}

/// The value of the first attribute named `name`.
fn first_attr_value(attrs: &Vec<DieAttr>, name: u16) -> (r: Option<&AttrValue>)
    ensures
        match first_attr(attrs@, name) {
            Some(v) => r matches Some(x) && *x == v,
            None => r is None,
        },
{
    let n = attrs.len();
    let mut i: usize = 0;
    assert(attrs@.skip(0) =~= attrs@);
    while i < n
        invariant
            n == attrs@.len(),
            i <= n,
            first_attr(attrs@, name) == first_attr(attrs@.skip(i as int), name),
        decreases n - i,
    {
        assert(attrs@.skip(i as int).drop_first() =~= attrs@.skip(i + 1));
        if attrs[i].name == name {
            return Some(&attrs[i].value);
        }
        i = i + 1;
    }
    None
}

/// The index of the first entry at `.debug_info` offset `offset`.
pub(crate) fn die_index(dies: &Vec<DieRecord>, offset: usize) -> (r: Option<usize>)
    ensures
        match die_at(dies@, offset, 0) {
            Some(j) => r matches Some(x) && x as int == j,
            None => r is None,
        },
        r matches Some(j) ==> j < dies@.len(),
{
    let n = dies.len();
    let mut k: usize = 0;
    while k < n
        invariant
            n == dies@.len(),
            k <= n,
            die_at(dies@, offset, 0) == die_at(dies@, offset, k as int),
        decreases n - k,
    {
        if dies[k].offset == offset {
            return Some(k);
        }
        k = k + 1;
    }
    None
}

fn read_enumerator(d: &DieRecord) -> (r: Option<Enumerator>)
    ensures
        match enumerator_of(*d) {
            Some(e) => r matches Some(x) && (x.name@, x.value) == e,
            None => r is None,
        },
{
    if d.tag != DW_TAG_ENUMERATOR {
        return None;
    }
    match (get_str(&d.attrs, DW_AT_NAME), get_udata(&d.attrs, DW_AT_CONST_VALUE)) {
        (Some(name), Some(value)) => Some(Enumerator { name, value }),
        _ => None,
    }
}

/// The enumerators among the entries `from..to`.
fn read_enumerators(dies: &Vec<DieRecord>, from: usize, to: usize) -> (r: Vec<Enumerator>)
    requires
        from <= to <= dies@.len(),
    ensures
        enumerators_shape(r@) == enumerators(dies@, from as int, to as int),
{
    let mut out: Vec<Enumerator> = Vec::new();
    let mut k = from;
    assert(enumerators_shape(out@) =~= Seq::empty());
    while k < to
        invariant
            from <= k <= to <= dies@.len(),
            enumerators_shape(out@) == enumerators(dies@, from as int, k as int),
        decreases to - k,
    {
        if let Some(e) = read_enumerator(&dies[k]) {
            proof {
                lemma_enumerators_push(out@, e);
            }
            out.push(e);
        }
        k = k + 1;
    }
    out
}

/// The element count of the array entry `i`.
fn read_array_count(dies: &Vec<DieRecord>, i: usize) -> (r: Option<u64>)
    requires
        i < dies@.len(),
    ensures
        r == array_count(dies@, i as int),
{
    let n = dies.len();
    let mut k = i + 1;
    while k < n
        invariant
            i < k <= n,
            n == dies@.len(),
            first_subrange(dies@, i + 1) == first_subrange(dies@, k as int),
        decreases n - k,
    {
        if dies[k].tag == DW_TAG_SUBRANGE_TYPE {
            return match find_attr(&dies[k].attrs, DW_AT_COUNT, AttrKind::Any) {
                Some(AttrValue::Data1(v)) => Some(*v as u64),
                _ => None,
            };
        }
        k = k + 1;
    }
    None
}

fn read_member(d: &DieRecord) -> (r: Option<StructField>)
    ensures
        match member_of(*d) {
            Some(f) => r matches Some(x) && field_shape(x) == f,
            None => r is None,
        },
{
    match (
        get_str(&d.attrs, DW_AT_NAME),
        get_ref(&d.attrs, DW_AT_TYPE),
        get_udata(&d.attrs, DW_AT_DATA_MEMBER_LOCATION),
    ) {
        (Some(name), Some(type_offset), Some(location)) => Some(StructField { name, type_offset, location }),
        _ => None,
    }
}

fn read_generic(d: &DieRecord) -> (r: Option<GenericField>)
    ensures
        match generic_of(*d) {
            Some(g) => r matches Some(x) && (x.name@, x.type_offset) == g,
            None => r is None,
        },
{
    match (get_str(&d.attrs, DW_AT_NAME), get_ref(&d.attrs, DW_AT_TYPE)) {
        (Some(name), Some(type_offset)) => Some(GenericField { name, type_offset }),
        _ => None,
    }
}

fn read_discr_value(d: &DieRecord) -> (r: Option<u8>)
    ensures
        r == discr_value_of(*d),
{
    match find_attr(&d.attrs, DW_AT_DISCR_VALUE, AttrKind::Any) {
        Some(AttrValue::Data1(v)) => Some(*v),
        Some(AttrValue::Data2(v)) => Some(#[verifier::truncate] (*v as u8)),
        Some(AttrValue::Data4(v)) => Some(#[verifier::truncate] (*v as u8)),
        Some(AttrValue::Data8(v)) => Some(#[verifier::truncate] (*v as u8)),
        Some(AttrValue::Sdata(v)) => Some(#[verifier::truncate] (*v as u8)),
        _ => None,
    }
}

fn read_discr_location(dies: &Vec<DieRecord>, part: &DieRecord) -> (r: Option<u64>)
    ensures
        r == discr_location(dies@, *part),
{
    match first_attr_value(&part.attrs, DW_AT_DISCR) {
        Some(AttrValue::UnitRef(o)) => match die_index(dies, *o) {
            Some(j) => match first_attr_value(&dies[j].attrs, DW_AT_DATA_MEMBER_LOCATION) {
                Some(AttrValue::Udata(l)) => Some(*l),
                _ => None,
            },
            None => None,
        },
        _ => None,
    }
}

/// The variants with a discriminant of the variant part entry `p`.
fn read_part_variants(dies: &Vec<DieRecord>, p: usize) -> (r: Vec<EnumVariant>)
    requires
        p < dies@.len(),
    ensures
        variants_shape(r@) == part_variants(dies@, p as int),
{
    let end = subtree_end_of(dies, p);
    let mut pending: Option<EnumVariant> = None;
    let mut done: Vec<EnumVariant> = Vec::new();
    let mut k = p + 1;
    assert(variants_shape(done@) =~= Seq::empty());
    while k < end
        invariant
            p < k <= end <= dies@.len(),
            end == subtree_end(dies@, p as int),
            part_scan(dies@, p + 1, k as int) == (
                match pending {
                    Some(v) => Some(variant_shape(v)),
                    None => None,
                },
                variants_shape(done@),
            ),
        decreases end - k,
    {
        let d = &dies[k];
        if d.tag == DW_TAG_VARIANT {
            if let Some(v) = pending {
                proof {
                    lemma_variants_push(done@, v);
                }
                done.push(v);
            }
            pending = match read_discr_value(d) {
                Some(x) => {
                    let fields: Vec<StructField> = Vec::new();
                    assert(fields_shape(fields@) =~= Seq::empty());
                    Some(EnumVariant { discr_value: Some(x), fields })
                },
                None => None,
            };
        } else if d.tag == DW_TAG_MEMBER {
            match read_member(d) {
                Some(f) => {
                    match pending {
                        Some(v) => {
                            let mut v = v;
                            proof {
                                lemma_fields_push(v.fields@, f);
                            }
                            v.fields.push(f);
                            pending = Some(v);
                        },
                        None => {},
                    }
                },
                None => {},
            }
        }
        k = k + 1;
    }
    if let Some(v) = pending {
        proof {
            lemma_variants_push(done@, v);
        }
        done.push(v);
    }
    done
}

} // verus!

verus! {

fn has_generic_exec(generics: &Vec<GenericField>, name: &String) -> (r: bool)
    ensures
        r == has_generic(generics_shape(generics@), name@),
{
    let n = generics.len();
    let mut j: usize = 0;
    while j < n
        invariant
            n == generics@.len(),
            j <= n,
            forall|q: int| 0 <= q < j ==> generics@[q].name@ != name@,
        decreases n - j,
    {
        if crate::text::str_eq(generics[j].name.as_str(), name.as_str()) {
            assert(generics_shape(generics@)[j as int].0 == name@);
            return true;
        }
        j = j + 1;
    }
    assert forall|q: int| 0 <= q < generics_shape(generics@).len() implies generics_shape(
        generics@,
    )[q].0 != name@ by {
        assert(generics_shape(generics@)[q].0 == generics@[q].name@);
    }
    false
}

fn in_some_variant_exec(f: &StructField, vs: &Vec<EnumVariant>) -> (r: bool)
    ensures
        r == in_some_variant(field_shape(*f), variants_shape(vs@)),
{
    let ghost shapes = variants_shape(vs@);
    let n = vs.len();
    let mut a: usize = 0;
    while a < n
        invariant
            n == vs@.len(),
            a <= n,
            shapes == variants_shape(vs@),
            forall|x: int, y: int|
                0 <= x < a && 0 <= y < shapes[x].1.len() ==> !(shapes[x].1[y].1 == f.type_offset
                    && shapes[x].1[y].2 == f.location),
        decreases n - a,
    {
        let fields = &vs[a].fields;
        let m = fields.len();
        let mut b: usize = 0;
        assert(shapes[a as int].1 == fields_shape(fields@));
        while b < m
            invariant
                n == vs@.len(),
                a < n,
                m == fields@.len(),
                b <= m,
                shapes == variants_shape(vs@),
                *fields == vs@[a as int].fields,
                shapes[a as int].1 == fields_shape(fields@),
                forall|x: int, y: int|
                    0 <= x < a && 0 <= y < shapes[x].1.len() ==> !(shapes[x].1[y].1
                        == f.type_offset && shapes[x].1[y].2 == f.location),
                forall|y: int|
                    0 <= y < b ==> !(shapes[a as int].1[y].1 == f.type_offset
                        && shapes[a as int].1[y].2 == f.location),
            decreases m - b,
        {
            if fields[b].type_offset == f.type_offset && fields[b].location == f.location {
                assert(shapes[a as int].1[b as int].1 == f.type_offset);
                return true;
            }
            b = b + 1;
        }
        a = a + 1;
    }
    false
}

fn reserved_name_exec(name: &String) -> (r: bool)
    ensures
        r == reserved_name(name@),
{
    let s = name.as_str();
    let n = s.unicode_len();
    n >= 2 && s.get_char(0) == '_' && s.get_char(1) == '_'
}

fn keep_fallback(fb: &Vec<StructField>, vs: &Vec<EnumVariant>) -> (r: Vec<StructField>)
    ensures
        fields_shape(r@) == kept_fallback(fields_shape(fb@), variants_shape(vs@), fb@.len() as int),
{
    let mut out: Vec<StructField> = Vec::new();
    let n = fb.len();
    let mut k: usize = 0;
    assert(fields_shape(out@) =~= Seq::empty());
    while k < n
        invariant
            n == fb@.len(),
            k <= n,
            fields_shape(out@) == kept_fallback(fields_shape(fb@), variants_shape(vs@), k as int),
        decreases n - k,
    {
        let f = &fb[k];
        assert(fields_shape(fb@)[k as int] == field_shape(*f));
        if !in_some_variant_exec(f, vs) && !reserved_name_exec(&f.name) {
            let copy = StructField { name: f.name.clone(), type_offset: f.type_offset, location: f.location };
            proof {
                lemma_fields_push(out@, copy);
            }
            out.push(copy);
        }
        k = k + 1;
    }
    out
}

/// The type of the structure entry `i` with its name, size and alignment.
fn read_struct(dies: &Vec<DieRecord>, i: usize, name: String, byte_size: u64, alignment: u64) -> (r: DwarfType)
    requires
        i < dies@.len(),
    ensures
        shape(r) == struct_type(dies@, i as int, name@, byte_size, alignment),
{
    let mut fallback: Vec<StructField> = Vec::new();
    let mut generics: Vec<GenericField> = Vec::new();
    let mut is_enum = false;
    let mut discr: Option<u64> = None;
    let mut variants: Vec<EnumVariant> = Vec::new();
    assert(fields_shape(fallback@) =~= Seq::empty());
    assert(generics_shape(generics@) =~= Seq::empty());
    assert(variants_shape(variants@) =~= Seq::empty());
    if dies[i].has_children {
        let end = subtree_end_of(dies, i);
        let mut k = i + 1;
        while k < end
            invariant
                i < k <= end <= dies@.len(),
                struct_scan(dies@, i + 1, k as int) == (StructScan {
                    fallback: fields_shape(fallback@),
                    generics: generics_shape(generics@),
                    is_enum,
                    discr,
                    variants: variants_shape(variants@),
                }),
            decreases end - k,
        {
            let d = &dies[k];
            if d.tag == DW_TAG_MEMBER {
                if let Some(f) = read_member(d) {
                    proof {
                        lemma_fields_push(fallback@, f);
                    }
                    fallback.push(f);
                }
            } else if d.tag == DW_TAG_TEMPLATE_TYPE_PARAMETER {
                if let Some(g) = read_generic(d) {
                    if !has_generic_exec(&generics, &g.name) {
                        proof {
                            lemma_generics_push(generics@, g);
                        }
                        generics.push(g);
                    }
                }
            } else if d.tag == DW_TAG_VARIANT_PART {
                is_enum = true;
                if let Some(o) = read_discr_location(dies, d) {
                    discr = Some(o);
                }
                let mut more = read_part_variants(dies, k);
                proof {
                    lemma_variants_append(variants@, more@);
                }
                variants.append(&mut more);
            }
            k = k + 1;
        }
    }
    if !is_enum {
        DwarfType::Structure { name, byte_size, alignment, generics, fields: fallback }
    } else {
        if fallback.len() > 0 {
            let kept = keep_fallback(&fallback, &variants);
            let v = EnumVariant { discr_value: None, fields: kept };
            proof {
                lemma_variants_push(variants@, v);
            }
            variants.push(v);
        }
        DwarfType::Variant {
            name,
            byte_size,
            alignment,
            discr_member_offset: discr,
            variants,
        }
    }
}

/// The type that entry `i` of a unit describes.
pub fn read_die_type(dies: &Vec<DieRecord>, i: usize) -> (r: Option<DwarfType>)
    requires
        i < dies@.len(),
    ensures
        match die_type(dies@, i as int) {
            Some(t) => r matches Some(x) && shape(x) == t,
            None => r is None,
        },
{
    let d = &dies[i];
    let a = &d.attrs;
    if d.tag == DW_TAG_BASE_TYPE {
        let encoding = match find_attr(a, DW_AT_ENCODING, AttrKind::Encoding) {
            Some(AttrValue::Encoding(e)) => Some(*e),
            _ => None,
        };
        match (get_str(a, DW_AT_NAME), encoding, get_constant(a, DW_AT_BYTE_SIZE)) {
            (Some(name), Some(encoding), Some(byte_size)) => Some(DwarfType::Base { name, encoding, byte_size }),
            _ => None,
        }
    } else if d.tag == DW_TAG_POINTER_TYPE {
        match get_ref(a, DW_AT_TYPE) {
            Some(t) => Some(DwarfType::Pointer { name: get_str(a, DW_AT_NAME), target_type_offset: t }),
            None => None,
        }
    } else if d.tag == DW_TAG_CONST_TYPE {
        match get_ref(a, DW_AT_TYPE) {
            Some(t) => Some(DwarfType::Const { target_type_offset: t }),
            None => None,
        }
    } else if d.tag == DW_TAG_ENUMERATION_TYPE {
        match (get_str(a, DW_AT_NAME), get_udata(a, DW_AT_BYTE_SIZE)) {
            (Some(name), Some(byte_size)) => {
                let fields = if d.has_children {
                    let end = subtree_end_of(dies, i);
                    read_enumerators(dies, i + 1, end)
                } else {
                    let v: Vec<Enumerator> = Vec::new();
                    assert(enumerators_shape(v@) =~= Seq::empty());
                    v
                };
                Some(DwarfType::Enum { name, byte_size, fields })
            },
            _ => None,
        }
    } else if d.tag == DW_TAG_ARRAY_TYPE {
        if d.has_children {
            match (get_ref(a, DW_AT_TYPE), read_array_count(dies, i)) {
                (Some(t), Some(count)) => Some(DwarfType::Array { target_type_offset: t, count }),
                _ => None,
            }
        } else {
            None
        }
    } else if d.tag == DW_TAG_STRUCTURE_TYPE {
        match (get_str(a, DW_AT_NAME), get_udata(a, DW_AT_BYTE_SIZE), get_udata(a, DW_AT_ALIGNMENT)) {
            (Some(name), Some(byte_size), Some(alignment)) => Some(read_struct(dies, i, name, byte_size, alignment)),
            _ => None,
        }
    } else {
        None
    }
}

} // verus!
