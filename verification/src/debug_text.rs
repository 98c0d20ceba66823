//! The `Debug` text of the type information the debugger shows in its
//! messages: fields, generic parameters and whole type entries, written as
//! `derive(Debug)` writes them.
use crate::display::{decimal, decimal_text};
use crate::dwarf::{DwarfType, EnumVariant, Enumerator, GenericField, StructField, TypeCacheNode};
use vstd::prelude::*;
use vstd::string::*;

verus! {

/// The `Debug` text of a string: quoted, with its characters escaped.
pub uninterp spec fn quoted_text(s: Seq<char>) -> Seq<char>;

/// std's `Debug` for `str` (`{:?}`): the string quoted and escaped. The
/// contract names the text.
#[verifier::external_body]
fn quoted(s: &str) -> (r: String)
    ensures
        r@ == quoted_text(s@),
{
    format!("{:?}", s)
}

/// Texts separated by `, `.
pub open spec fn joined(items: Seq<Seq<char>>) -> Seq<char>
    decreases items.len(),
{
    if items.len() == 0 {
        Seq::empty()
    } else if items.len() == 1 {
        items[0]
    } else {
        joined(items.drop_last()) + ", "@ + items.last()
    }
}

/// A list in brackets.
pub open spec fn list_text(items: Seq<Seq<char>>) -> Seq<char> {
    "["@ + joined(items) + "]"@
}

/// `Some(n)` or `None`.
pub open spec fn option_number_text(v: Option<nat>) -> Seq<char> {
    match v {
        Some(n) => "Some("@ + decimal(n) + ")"@,
        None => "None"@,
    }
}

/// The `Debug` text of a structure field.
pub open spec fn field_text(f: StructField) -> Seq<char> {
    "StructField { name: "@ + quoted_text(f.name@) + ", type_offset: "@ + decimal(f.type_offset as nat) + ", location: "@
        + decimal(f.location as nat) + " }"@
}

/// The `Debug` text of a generic parameter.
pub open spec fn generic_text(g: GenericField) -> Seq<char> {
    "GenericField { name: "@ + quoted_text(g.name@) + ", type_offset: "@ + decimal(g.type_offset as nat) + " }"@
}

/// The `Debug` text of an enumerator.
pub open spec fn enumerator_text(e: Enumerator) -> Seq<char> {
    "Enumerator { name: "@ + quoted_text(e.name@) + ", value: "@ + decimal(e.value as nat) + " }"@
}

/// The `Debug` texts of some fields.
pub open spec fn fields_texts(fs: Seq<StructField>) -> Seq<Seq<char>> {
    fs.map_values(|f: StructField| field_text(f))
}

/// The `Debug` texts of some generic parameters.
pub open spec fn generics_texts(gs: Seq<GenericField>) -> Seq<Seq<char>> {
    gs.map_values(|g: GenericField| generic_text(g))
}

/// The `Debug` texts of some enumerators.
pub open spec fn enumerators_texts(es: Seq<Enumerator>) -> Seq<Seq<char>> {
    es.map_values(|e: Enumerator| enumerator_text(e))
}

/// The `Debug` text of a variant of a Rust enum.
pub open spec fn variant_text(v: EnumVariant) -> Seq<char> {
    "EnumVariant { discr_value: "@ + option_number_text(
        match v.discr_value {
            Some(d) => Some(d as nat),
            None => None,
        },
    ) + ", fields: "@ + list_text(fields_texts(v.fields@)) + " }"@
}

/// The `Debug` texts of some variants.
pub open spec fn variants_texts(vs: Seq<EnumVariant>) -> Seq<Seq<char>> {
    vs.map_values(|v: EnumVariant| variant_text(v))
}

/// The `Debug` text of a DWARF type.
pub open spec fn type_text(t: DwarfType) -> Seq<char> {
    match t {
        DwarfType::Base { name, encoding, byte_size } => "Base { name: "@ + quoted_text(name@) + ", encoding: "@ + decimal(
            encoding as nat,
        ) + ", byte_size: "@ + decimal(byte_size as nat) + " }"@,
        DwarfType::Pointer { name, target_type_offset } => "Pointer { name: "@ + match name {
            Some(n) => "Some("@ + quoted_text(n@) + ")"@,
            None => "None"@,
        } + ", target_type_offset: "@ + decimal(target_type_offset as nat) + " }"@,
        DwarfType::Const { target_type_offset } => "Const { target_type_offset: "@ + decimal(target_type_offset as nat) + " }"@,
        DwarfType::Array { target_type_offset, count } => "Array { target_type_offset: "@ + decimal(target_type_offset as nat)
            + ", count: "@ + decimal(count as nat) + " }"@,
        DwarfType::Structure { name, byte_size, alignment, generics, fields } => "Structure { name: "@ + quoted_text(name@)
            + ", byte_size: "@ + decimal(byte_size as nat) + ", alignment: "@ + decimal(alignment as nat) + ", generics: "@
            + list_text(generics_texts(generics@)) + ", fields: "@ + list_text(fields_texts(fields@)) + " }"@,
        DwarfType::Enum { name, byte_size, fields } => "Enum { name: "@ + quoted_text(name@) + ", byte_size: "@ + decimal(
            byte_size as nat,
        ) + ", fields: "@ + list_text(enumerators_texts(fields@)) + " }"@,
        DwarfType::Variant { name, byte_size, alignment, discr_member_offset, variants } => "Variant { name: "@ + quoted_text(
            name@,
        ) + ", byte_size: "@ + decimal(byte_size as nat) + ", alignment: "@ + decimal(alignment as nat)
            + ", discr_member_offset: "@ + option_number_text(
            match discr_member_offset {
                Some(d) => Some(d as nat),
                None => None,
            },
        ) + ", variants: "@ + list_text(variants_texts(variants@)) + " }"@,
    }
}

/// The `Debug` text of a type entry.
pub open spec fn node_text(t: TypeCacheNode) -> Seq<char> {
    "TypeCacheNode { dwarf_type: "@ + type_text(t.dwarf_type) + ", offset: "@ + decimal(t.offset as nat) + " }"@
}

/// Appends the decimal text of `n`.
fn append_number(s: &mut String, n: u64)
    ensures
        final(s)@ == old(s)@ + decimal(n as nat),
{
    let t = decimal_text(n);
    s.append(t.as_str());
}

/// Appends the quoted text of `t`.
fn append_quoted(s: &mut String, t: &str)
    ensures
        final(s)@ == old(s)@ + quoted_text(t@),
{
    let q = quoted(t);
    s.append(q.as_str());
}

/// The `Debug` text of a structure field.
fn field_debug(f: &StructField) -> (r: String)
    ensures
        r@ == field_text(*f),
{
    let mut s = String::from_str("StructField { name: ");
    append_quoted(&mut s, f.name.as_str());
    s.append(", type_offset: ");
    append_number(&mut s, f.type_offset as u64);
    s.append(", location: ");
    append_number(&mut s, f.location);
    s.append(" }");
    s
}

/// The `Debug` text of a generic parameter.
fn generic_debug(g: &GenericField) -> (r: String)
    ensures
        r@ == generic_text(*g),
{
    let mut s = String::from_str("GenericField { name: ");
    append_quoted(&mut s, g.name.as_str());
    s.append(", type_offset: ");
    append_number(&mut s, g.type_offset as u64);
    s.append(" }");
    s
}

/// The `Debug` text of an enumerator.
fn enumerator_debug(e: &Enumerator) -> (r: String)
    ensures
        r@ == enumerator_text(*e),
{
    let mut s = String::from_str("Enumerator { name: ");
    append_quoted(&mut s, e.name.as_str());
    s.append(", value: ");
    append_number(&mut s, e.value);
    s.append(" }");
    s
}

/// Closes a list of `k` texts `items` (already appended, separated by `, `)
/// and appends one more.
proof fn lemma_joined_push(items: Seq<Seq<char>>, x: Seq<char>)
    ensures
        joined(items.push(x)) == if items.len() == 0 {
            x
        } else {
            joined(items) + ", "@ + x
        },
{
    assert(items.push(x).drop_last() =~= items);
}

/// The `Debug` text of a list of fields.
pub fn fields_debug(fs: &Vec<StructField>) -> (r: String)
    ensures
        r@ == list_text(fields_texts(fs@)),
{
    let mut s = String::from_str("[");
    let n = fs.len();
    let mut i: usize = 0;
    while i < n
        invariant
            n == fs@.len(),
            i <= n,
            s@ == "["@ + joined(fields_texts(fs@.take(i as int))),
        decreases n - i,
    {
        if i > 0 {
            s.append(", ");
        }
        let t = field_debug(&fs[i]);
        s.append(t.as_str());
        proof {
            assert(fields_texts(fs@.take(i + 1)) =~= fields_texts(fs@.take(i as int)).push(field_text(fs@[i as int])));
            lemma_joined_push(fields_texts(fs@.take(i as int)), field_text(fs@[i as int]));
        }
        i = i + 1;
    }
    assert(fs@.take(n as int) =~= fs@);
    s.append("]");
    s
}

/// The `Debug` text of a list of generic parameters.
pub fn generics_debug(gs: &Vec<GenericField>) -> (r: String)
    ensures
        r@ == list_text(generics_texts(gs@)),
{
    let mut s = String::from_str("[");
    let n = gs.len();
    let mut i: usize = 0;
    while i < n
        invariant
            n == gs@.len(),
            i <= n,
            s@ == "["@ + joined(generics_texts(gs@.take(i as int))),
        decreases n - i,
    {
        if i > 0 {
            s.append(", ");
        }
        let t = generic_debug(&gs[i]);
        s.append(t.as_str());
        proof {
            assert(generics_texts(gs@.take(i + 1)) =~= generics_texts(gs@.take(i as int)).push(generic_text(gs@[i as int])));
            lemma_joined_push(generics_texts(gs@.take(i as int)), generic_text(gs@[i as int]));
        }
        i = i + 1;
    }
    assert(gs@.take(n as int) =~= gs@);
    s.append("]");
    s
}

/// The `Debug` text of a list of enumerators.
fn enumerators_debug(es: &Vec<Enumerator>) -> (r: String)
    ensures
        r@ == list_text(enumerators_texts(es@)),
{
    let mut s = String::from_str("[");
    let n = es.len();
    let mut i: usize = 0;
    while i < n
        invariant
            n == es@.len(),
            i <= n,
            s@ == "["@ + joined(enumerators_texts(es@.take(i as int))),
        decreases n - i,
    {
        if i > 0 {
            s.append(", ");
        }
        let t = enumerator_debug(&es[i]);
        s.append(t.as_str());
        proof {
            assert(enumerators_texts(es@.take(i + 1)) =~= enumerators_texts(es@.take(i as int)).push(
                enumerator_text(es@[i as int]),
            ));
            lemma_joined_push(enumerators_texts(es@.take(i as int)), enumerator_text(es@[i as int]));
        }
        i = i + 1;
    }
    assert(es@.take(n as int) =~= es@);
    s.append("]");
    s
}

/// Appends `Some(n)` or `None`.
fn append_option_number(s: &mut String, v: Option<u64>)
    ensures
        final(s)@ == old(s)@ + option_number_text(
            match v {
                Some(n) => Some(n as nat),
                None => None,
            },
        ),
{
    match v {
        Some(n) => {
            s.append("Some(");
            append_number(s, n);
            s.append(")");
        },
        None => s.append("None"),
    }
}

/// The `Debug` text of a variant of a Rust enum.
fn variant_debug(v: &EnumVariant) -> (r: String)
    ensures
        r@ == variant_text(*v),
{
    let mut s = String::from_str("EnumVariant { discr_value: ");
    let d: Option<u64> = match v.discr_value {
        Some(x) => Some(x as u64),
        None => None,
    };
    append_option_number(&mut s, d);
    s.append(", fields: ");
    let t = fields_debug(&v.fields);
    s.append(t.as_str());
    s.append(" }");
    s
}

/// The `Debug` text of a list of variants.
fn variants_debug(vs: &Vec<EnumVariant>) -> (r: String)
    ensures
        r@ == list_text(variants_texts(vs@)),
{
    let mut s = String::from_str("[");
    let n = vs.len();
    let mut i: usize = 0;
    while i < n
        invariant
            n == vs@.len(),
            i <= n,
            s@ == "["@ + joined(variants_texts(vs@.take(i as int))),
        decreases n - i,
    {
        if i > 0 {
            s.append(", ");
        }
        let t = variant_debug(&vs[i]);
        s.append(t.as_str());
        proof {
            assert(variants_texts(vs@.take(i + 1)) =~= variants_texts(vs@.take(i as int)).push(variant_text(vs@[i as int])));
            lemma_joined_push(variants_texts(vs@.take(i as int)), variant_text(vs@[i as int]));
        }
        i = i + 1;
    }
    assert(vs@.take(n as int) =~= vs@);
    s.append("]");
    s
}

/// The `Debug` text of a DWARF type.
fn type_debug(t: &DwarfType) -> (r: String)
    ensures
        r@ == type_text(*t),
{
    match t {
        DwarfType::Base { name, encoding, byte_size } => {
            let mut s = String::from_str("Base { name: ");
            append_quoted(&mut s, name.as_str());
            s.append(", encoding: ");
            append_number(&mut s, *encoding as u64);
            s.append(", byte_size: ");
            append_number(&mut s, *byte_size);
            s.append(" }");
            s
        },
        DwarfType::Pointer { name, target_type_offset } => {
            let mut s = String::from_str("Pointer { name: ");
            match name {
                Some(n) => {
                    s.append("Some(");
                    append_quoted(&mut s, n.as_str());
                    s.append(")");
                },
                None => s.append("None"),
            }
            s.append(", target_type_offset: ");
            append_number(&mut s, *target_type_offset as u64);
            s.append(" }");
            s
        },
        DwarfType::Const { target_type_offset } => {
            let mut s = String::from_str("Const { target_type_offset: ");
            append_number(&mut s, *target_type_offset as u64);
            s.append(" }");
            s
        },
        DwarfType::Array { target_type_offset, count } => {
            let mut s = String::from_str("Array { target_type_offset: ");
            append_number(&mut s, *target_type_offset as u64);
            s.append(", count: ");
            append_number(&mut s, *count);
            s.append(" }");
            s
        },
        DwarfType::Structure { name, byte_size, alignment, generics, fields } => {
            let mut s = String::from_str("Structure { name: ");
            append_quoted(&mut s, name.as_str());
            s.append(", byte_size: ");
            append_number(&mut s, *byte_size);
            s.append(", alignment: ");
            append_number(&mut s, *alignment);
            s.append(", generics: ");
            let g = generics_debug(generics);
            s.append(g.as_str());
            s.append(", fields: ");
            let f = fields_debug(fields);
            s.append(f.as_str());
            s.append(" }");
            s
        },
        DwarfType::Enum { name, byte_size, fields } => {
            let mut s = String::from_str("Enum { name: ");
            append_quoted(&mut s, name.as_str());
            s.append(", byte_size: ");
            append_number(&mut s, *byte_size);
            s.append(", fields: ");
            let f = enumerators_debug(fields);
            s.append(f.as_str());
            s.append(" }");
            s
        },
        DwarfType::Variant { name, byte_size, alignment, discr_member_offset, variants } => {
            let mut s = String::from_str("Variant { name: ");
            append_quoted(&mut s, name.as_str());
            s.append(", byte_size: ");
            append_number(&mut s, *byte_size);
            s.append(", alignment: ");
            append_number(&mut s, *alignment);
            s.append(", discr_member_offset: ");
            append_option_number(&mut s, *discr_member_offset);
            s.append(", variants: ");
            let v = variants_debug(variants);
            s.append(v.as_str());
            s.append(" }");
            s
        },
    }
}

/// The `Debug` text of a type entry.
pub fn node_debug(t: &TypeCacheNode) -> (r: String)
    ensures
        r@ == node_text(*t),
{
    let mut s = String::from_str("TypeCacheNode { dwarf_type: ");
    let d = type_debug(&t.dwarf_type);
    s.append(d.as_str());
    s.append(", offset: ");
    append_number(&mut s, t.offset as u64);
    s.append(" }");
    s
}

} // verus!
