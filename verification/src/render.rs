//! How values and numbers are shown to the user: decimal and hexadecimal
//! numerals, terminal colours, and the text of a `DebugValue`.
use crate::value::{DebugStructField, DebugValue};
use owo_colors::{AnsiColors, DynColors, OwoColorize};
use vstd::prelude::*;
use vstd::string::*;

verus! {

/// The terminal colours the debugger uses.
#[derive(Debug, Clone, Copy, PartialEq, Eq)]
pub enum Paint {
    Red,
    Green,
    Yellow,
    Blue,
    Magenta,
    Cyan,
    White,
    BrightRed,
    BrightYellow,
    BrightBlue,
    /// The grey of comments: RGB 118, 118, 118.
    Gray,
    /// The light grey of inlined frames: RGB 180, 180, 180.
    Silver,
}

/// The SGR code that selects a foreground colour.
pub open spec fn paint_code(p: Paint) -> Seq<char> {
    match p {
        Paint::Red => seq!['3', '1'],
        Paint::Green => seq!['3', '2'],
        Paint::Yellow => seq!['3', '3'],
        Paint::Blue => seq!['3', '4'],
        Paint::Magenta => seq!['3', '5'],
        Paint::Cyan => seq!['3', '6'],
        Paint::White => seq!['3', '7'],
        Paint::BrightRed => seq!['9', '1'],
        Paint::BrightYellow => seq!['9', '3'],
        Paint::BrightBlue => seq!['9', '4'],
        Paint::Gray => seq!['3', '8', ';', '2', ';', '1', '1', '8', ';', '1', '1', '8', ';', '1', '1', '8'],
        Paint::Silver => seq!['3', '8', ';', '2', ';', '1', '8', '0', ';', '1', '8', '0', ';', '1', '8', '0'],
    }
}

/// `s` in colour `p`: the colour's escape sequence, `s`, then the escape
/// sequence that restores the default foreground.
pub open spec fn painted(s: Seq<char>, p: Paint) -> Seq<char> {
    seq!['\u{1b}', '['] + paint_code(p) + seq!['m'] + s + seq!['\u{1b}', '[', '3', '9', 'm']
}

/// owo-colors' `OwoColorize::color` with the colour `p`, displayed: the
/// colour's `ESC [ <code> m` (an `AnsiColors` code, or `38;2;r;g;b` for an
/// `Rgb` colour), the text, and `ESC [ 39 m` (the crate's `FgDynColorDisplay`).
#[verifier::external_body]
pub(crate) fn paint(s: &str, p: Paint) -> (r: String)
    ensures
        r@ == painted(s@, p),
{
    let c = match p {
        Paint::Red => DynColors::Ansi(AnsiColors::Red),
        Paint::Green => DynColors::Ansi(AnsiColors::Green),
        Paint::Yellow => DynColors::Ansi(AnsiColors::Yellow),
        Paint::Blue => DynColors::Ansi(AnsiColors::Blue),
        Paint::Magenta => DynColors::Ansi(AnsiColors::Magenta),
        Paint::Cyan => DynColors::Ansi(AnsiColors::Cyan),
        Paint::White => DynColors::Ansi(AnsiColors::White),
        Paint::BrightRed => DynColors::Ansi(AnsiColors::BrightRed),
        Paint::BrightYellow => DynColors::Ansi(AnsiColors::BrightYellow),
        Paint::BrightBlue => DynColors::Ansi(AnsiColors::BrightBlue),
        Paint::Gray => DynColors::Rgb(118, 118, 118),
        Paint::Silver => DynColors::Rgb(180, 180, 180),
    };
    format!("{}", s.color(c))
}

/// `char::to_string`: a string holding just `c`.
#[verifier::external_body]
pub(crate) fn char_text(c: char) -> (r: String)
    ensures
        r@ == seq![c],
{
    c.to_string()
}

/// The character of a digit value below 16, lower-case.
pub open spec fn digit_char(d: nat) -> char {
    if d < 10 {
        (d + 0x30) as char
    } else {
        (d - 10 + 0x61) as char
    }
}

/// The numeral of `n` in base `radix`, without leading zeros.
pub open spec fn numeral(n: nat, radix: nat) -> Seq<char>
    decreases n,
{
    if radix < 2 || n < radix {
        seq![digit_char(n)]
    } else {
        proof {
            vstd::arithmetic::div_mod::lemma_div_decreases(n as int, radix as int);
        }
        numeral(n / radix, radix).push(digit_char(n % radix))
    }
}

/// A signed number in decimal.
pub open spec fn signed_decimal(n: int) -> Seq<char> {
    if n < 0 {
        seq!['-'] + numeral((-n) as nat, 10)
    } else {
        numeral(n as nat, 10)
    }
}

/// A number as `{:#x}` shows it.
pub open spec fn alt_hex(n: nat) -> Seq<char> {
    seq!['0', 'x'] + numeral(n, 16)
}

fn digit_text(d: u64) -> (r: String)
    requires
        d < 16,
    ensures
        r@ == seq![digit_char(d as nat)],
{
    let c: char = if d < 10 {
        ((d as u8) + 0x30) as char
    } else {
        ((d as u8) - 10 + 0x61) as char
    };
    char_text(c)
}

/// The numeral of `n` in base `radix` (2 to 16).
pub fn numeral_text(n: u64, radix: u64) -> (r: String)
    requires
        2 <= radix <= 16,
    ensures
        r@ == numeral(n as nat, radix as nat),
    decreases n,
{
    if n < radix {
        digit_text(n)
    } else {
        proof {
            vstd::arithmetic::div_mod::lemma_div_decreases(n as int, radix as int);
        }
        let mut s = numeral_text(n / radix, radix);
        let d = digit_text(n % radix);
        s.append(d.as_str());
        s
    }
}

/// A signed number in decimal.
pub fn signed_text(n: i64) -> (r: String)
    ensures
        r@ == signed_decimal(n as int),
{
    if n < 0 {
        let magnitude: u64 = 0u64.wrapping_sub(n as u64);
        assert(magnitude == -n) by (bit_vector)
            requires
                n < 0,
                magnitude == 0u64.wrapping_sub(n as u64),
        ;
        let mut s = String::from_str("-");
        proof {
            reveal_strlit("-");
        }
        let digits = numeral_text(magnitude, 10);
        s.append(digits.as_str());
        s
    } else {
        numeral_text(n as u64, 10)
    }
}

/// A number as `{:#x}` shows it.
pub fn alt_hex_text(n: u64) -> (r: String)
    ensures
        r@ == alt_hex(n as nat),
{
    let mut s = String::from_str("0x");
    proof {
        reveal_strlit("0x");
    }
    let digits = numeral_text(n, 16);
    s.append(digits.as_str());
    s
}

} // verus!

verus! {

/// The text `f64_text` gives for the bits of a 64-bit floating-point number.
pub open spec fn f64_shown<F: Fn(u64) -> String>(f64_text: &F, bits: u64) -> Seq<char> {
    (choose|s: String| f64_text.ensures((bits,), s))@
}

/// The text `f32_text` gives for the bits of a 32-bit floating-point number.
pub open spec fn f32_shown<G: Fn(u32) -> String>(f32_text: &G, bits: u32) -> Seq<char> {
    (choose|s: String| f32_text.ensures((bits,), s))@
}

/// The text of a value, floating-point numbers as `f64_text` and `f32_text`
/// give them.
pub open spec fn shown<F: Fn(u64) -> String, G: Fn(u32) -> String>(v: DebugValue, f64_text: &F, f32_text: &G) -> Seq<char>
    decreases v,
{
    match v {
        DebugValue::Integer(n) => painted(signed_decimal(n as int), Paint::Blue),
        DebugValue::Isize(n) => painted(signed_decimal(n as int), Paint::Blue),
        DebugValue::Unsigned(n) => painted(numeral(n as nat, 10), Paint::Blue),
        DebugValue::Usize(n) => painted(numeral(n as nat, 10), Paint::Blue),
        DebugValue::Float(b) => painted(f64_shown(f64_text, b), Paint::Blue),
        DebugValue::Float32(b) => painted(f32_shown(f32_text, b), Paint::Blue),
        DebugValue::Char(c) => "'"@ + painted(seq![c], Paint::Cyan) + "'"@,
        DebugValue::String(s) => "\""@ + painted(s@, Paint::Green) + "\""@,
        DebugValue::StringSlice(s) => "\""@ + painted(s@, Paint::Green) + "\""@,
        DebugValue::FilePath(p) => painted("Path"@, Paint::BrightYellow) + "(\""@ + painted(p@, Paint::Green) + "\")"@,
        DebugValue::FilePathBuf(p) => painted("PathBuf"@, Paint::BrightYellow) + "(\""@ + painted(p@, Paint::Green)
            + "\")"@,
        DebugValue::Boolean(b) => painted(if b { "true"@ } else { "false"@ }, Paint::Yellow),
        DebugValue::Pointer(p) => painted(alt_hex(p as nat), Paint::BrightBlue),
        DebugValue::Array(xs) | DebugValue::Vec(xs) => if xs@.len() == 0 {
            "[]"@
        } else {
            "["@ + joined(xs@, xs@.len() as int, f64_text, f32_text) + "]"@
        },
        DebugValue::Tuple(xs) => if xs@.len() == 0 {
            Seq::empty()
        } else {
            "("@ + joined(xs@, xs@.len() as int, f64_text, f32_text) + painted(")"@, Paint::White)
        },
        DebugValue::HashSet { elements } => painted("HashSet"@, Paint::BrightYellow) + " ("@ + joined(
            elements@,
            elements@.len() as int,
            f64_text,
            f32_text,
        ) + ")"@,
        DebugValue::HashMap { entries } => painted("HashMap"@, Paint::BrightYellow) + " {"@
            + entries_text(entries@, entries@.len() as int, f64_text, f32_text) + "\n}"@,
        DebugValue::PointerWrapper { kind, value } => painted(
            match kind {
                crate::value::WrapperKind::Box => "Box"@,
                crate::value::WrapperKind::Rc => "Rc"@,
                crate::value::WrapperKind::Arc => "Arc"@,
            },
            Paint::Cyan,
        ) + "("@ + painted(shown(*value, f64_text, f32_text), Paint::Magenta) + ")"@,
        DebugValue::Enum { name, inner_name } => painted(name@, Paint::Cyan) + "::"@ + painted(
            inner_name@,
            Paint::BrightYellow,
        ),
        DebugValue::RawVecInner { heap_pointer_value, cap } => "RawVecInner {\nptr: "@ + painted(
            alt_hex(heap_pointer_value as nat),
            Paint::BrightBlue,
        ) + "\ncapacity: "@ + painted(numeral(cap as nat, 10), Paint::Blue) + "}"@,
        DebugValue::RawParts { heap_pointer_value, len, cap } => "RawParts {\nptr: "@ + painted(
            alt_hex(heap_pointer_value as nat),
            Paint::BrightBlue,
        ) + "\nlen: "@ + numeral(len as nat, 10) + "\ncap: "@ + numeral(cap as nat, 10) + "}"@,
        DebugValue::RawTableInner { bucket_mask, ctrl, growth_left, items } => "RawTableInner {\n bucket_mask: "@
            + painted(numeral(bucket_mask as nat, 10), Paint::Blue) + "\nctrl: "@ + painted(
            alt_hex(ctrl as nat),
            Paint::BrightBlue,
        ) + "\ngrowth_left: "@ + painted(numeral(growth_left as nat, 10), Paint::Blue) + "\nitems: "@
            + painted(numeral(items as nat, 10), Paint::Blue) + "}"@,
        DebugValue::Variant { name, field } => match field {
            Some(f) => if *f is Tuple {
                painted(name@, Paint::Cyan) + shown(*f, f64_text, f32_text)
            } else {
                painted(name@, Paint::BrightYellow) + "("@ + shown(*f, f64_text, f32_text) + ")"@
            },
            None => name@,
        },
        DebugValue::Struct { name, fields } => if fields@.len() == 0 {
            name@
        } else {
            painted(name@, Paint::BrightBlue) + " "@ + "{"@ + fields_text(
                fields@,
                fields@.len() as int,
                f64_text,
                f32_text,
            ) + "\n}"@
        },
        DebugValue::Error(msg) => painted(msg@, Paint::Red),
    }
}

/// The first `k` values, separated by commas.
pub open spec fn joined<F: Fn(u64) -> String, G: Fn(u32) -> String>(xs: Seq<DebugValue>, k: int, f64_text: &F, f32_text: &G) -> Seq<char>
    decreases xs, k,
{
    if k <= 0 || k > xs.len() {
        Seq::empty()
    } else if k == 1 {
        shown(xs[0], f64_text, f32_text)
    } else {
        joined(xs, k - 1, f64_text, f32_text) + ","@ + shown(xs[k - 1], f64_text, f32_text)
    }
}

/// The first `k` map entries, one per line.
pub open spec fn entries_text<F: Fn(u64) -> String, G: Fn(u32) -> String>(es: Seq<(DebugValue, DebugValue)>, k: int, f64_text: &F, f32_text: &G) -> Seq<char>
    decreases es, k,
{
    if k <= 0 || k > es.len() {
        Seq::empty()
    } else {
        entries_text(es, k - 1, f64_text, f32_text) + "\n"@ + "    "@ + shown(es[k - 1].0, f64_text, f32_text)
            + ":   "@ + shown(es[k - 1].1, f64_text, f32_text) + ","@
    }
}

/// The first `k` structure fields, one per line.
pub open spec fn fields_text<F: Fn(u64) -> String, G: Fn(u32) -> String>(fs: Seq<DebugStructField>, k: int, f64_text: &F, f32_text: &G) -> Seq<char>
    decreases fs, k,
{
    if k <= 0 || k > fs.len() {
        Seq::empty()
    } else {
        fields_text(fs, k - 1, f64_text, f32_text) + "\n"@ + "    "@ + painted(fs[k - 1].name@, Paint::BrightRed)
            + ":   "@ + shown(fs[k - 1].value, f64_text, f32_text)
    }
}

} // verus!

verus! {

/// The floating-point readers can read every value, and give one text per value.
pub open spec fn reads_floats<F: Fn(u64) -> String, G: Fn(u32) -> String>(f64_text: &F, f32_text: &G) -> bool {
    &&& forall|b: u64| f64_text.requires((b,))
    &&& forall|b: u32| f32_text.requires((b,))
    &&& forall|b: u64, s1: String, s2: String|
        #![trigger f64_text.ensures((b,), s1), f64_text.ensures((b,), s2)]
        f64_text.ensures((b,), s1) && f64_text.ensures((b,), s2) ==> s1@ == s2@
    &&& forall|b: u32, s1: String, s2: String|
        #![trigger f32_text.ensures((b,), s1), f32_text.ensures((b,), s2)]
        f32_text.ensures((b,), s1) && f32_text.ensures((b,), s2) ==> s1@ == s2@
}

fn lit(s: &str) -> (r: String)
    ensures
        r@ == s@,
{
    String::from_str(s)
}

impl DebugValue {
    /// The text the user sees for the value, with colours; `f64_text` and
    /// `f32_text` give the text of floating-point numbers by their bits.
    pub fn render<F: Fn(u64) -> String, G: Fn(u32) -> String>(&self, f64_text: &F, f32_text: &G) -> (r: String)
        requires
            reads_floats(f64_text, f32_text),
        ensures
            r@ == shown(*self, f64_text, f32_text),
        decreases *self,
    {
        match self {
            DebugValue::Integer(n) => paint(signed_text(*n).as_str(), Paint::Blue),
            DebugValue::Isize(n) => paint(signed_text(*n).as_str(), Paint::Blue),
            DebugValue::Unsigned(n) => paint(numeral_text(*n, 10).as_str(), Paint::Blue),
            DebugValue::Usize(n) => paint(numeral_text(*n, 10).as_str(), Paint::Blue),
            DebugValue::Float(b) => {
                let t = f64_text(*b);
                proof {
                    let c = choose|s: String| f64_text.ensures((*b,), s);
                    assert(f64_text.ensures((*b,), c));
                    assert(c@ == t@);
                }
                paint(t.as_str(), Paint::Blue)
            },
            DebugValue::Float32(b) => {
                let t = f32_text(*b);
                proof {
                    let c = choose|s: String| f32_text.ensures((*b,), s);
                    assert(f32_text.ensures((*b,), c));
                    assert(c@ == t@);
                }
                paint(t.as_str(), Paint::Blue)
            },
            DebugValue::Char(c) => {
                let mut out = lit("'");
                out.append(paint(char_text(*c).as_str(), Paint::Cyan).as_str());
                out.append("'");
                out
            },
            DebugValue::String(t) | DebugValue::StringSlice(t) => {
                let mut out = lit("\"");
                out.append(paint(t.as_str(), Paint::Green).as_str());
                out.append("\"");
                out
            },
            DebugValue::FilePath(p) => {
                let mut out = paint("Path", Paint::BrightYellow);
                out.append("(\"");
                out.append(paint(p.as_str(), Paint::Green).as_str());
                out.append("\")");
                out
            },
            DebugValue::FilePathBuf(p) => {
                let mut out = paint("PathBuf", Paint::BrightYellow);
                out.append("(\"");
                out.append(paint(p.as_str(), Paint::Green).as_str());
                out.append("\")");
                out
            },
            DebugValue::Boolean(b) => paint(
                if *b {
                    "true"
                } else {
                    "false"
                },
                Paint::Yellow,
            ),
            DebugValue::Pointer(p) => paint(alt_hex_text(*p as u64).as_str(), Paint::BrightBlue),
            DebugValue::Array(xs) | DebugValue::Vec(xs) | DebugValue::Tuple(xs) | DebugValue::HashSet {
                elements: xs,
            } => {
                let mut body = String::new();
                let n = xs.len();
                let mut i: usize = 0;
                while i < n
                    invariant
                        n == xs@.len(),
                        i <= n,
                        reads_floats(f64_text, f32_text),
                        body@ == joined(xs@, i as int, f64_text, f32_text),
                        *self is Array || *self is Vec || *self is Tuple || *self is HashSet,
                        *self is Array ==> *self == DebugValue::Array(*xs),
                        *self is Vec ==> *self == DebugValue::Vec(*xs),
                        *self is Tuple ==> *self == DebugValue::Tuple(*xs),
                        *self is HashSet ==> *self == (DebugValue::HashSet { elements: *xs }),
                    decreases n - i,
                {
                    assert(decreases_to!(*self => xs@[i as int])) by {
                        if *self is Array {
                            assert(decreases_to!(*self => (*self)->Array_0));
                        } else if *self is Vec {
                            assert(decreases_to!(*self => (*self)->Vec_0));
                        } else if *self is Tuple {
                            assert(decreases_to!(*self => (*self)->Tuple_0));
                        } else {
                            assert(decreases_to!(*self => (*self)->elements));
                        }
                        assert(decreases_to!(*xs => xs@));
                        assert(decreases_to!(xs@ => xs@[i as int]));
                    }
                    let item = xs[i].render(f64_text, f32_text);
                    if i > 0 {
                        body.append(",");
                    }
                    body.append(item.as_str());
                    i = i + 1;
                }
                match self {
                    DebugValue::Tuple(_) => if n == 0 {
                        String::new()
                    } else {
                        let mut out = lit("(");
                        out.append(body.as_str());
                        out.append(paint(")", Paint::White).as_str());
                        out
                    },
                    DebugValue::HashSet { .. } => {
                        let mut out = paint("HashSet", Paint::BrightYellow);
                        out.append(" (");
                        out.append(body.as_str());
                        out.append(")");
                        out
                    },
                    _ => if n == 0 {
                        lit("[]")
                    } else {
                        let mut out = lit("[");
                        out.append(body.as_str());
                        out.append("]");
                        out
                    },
                }
            },
            DebugValue::HashMap { entries } => {
                let mut out = paint("HashMap", Paint::BrightYellow);
                out.append(" {");
                let ghost start = out@;
                let n = entries.len();
                let mut i: usize = 0;
                while i < n
                    invariant
                        n == entries@.len(),
                        i <= n,
                        reads_floats(f64_text, f32_text),
                        *self == (DebugValue::HashMap { entries: *entries }),
                        out@ == start + entries_text(entries@, i as int, f64_text, f32_text),
                    decreases n - i,
                {
                    assert(decreases_to!(*self => entries@[i as int].0) && decreases_to!(
                        *self => entries@[i as int].1
                    )) by {
                        assert(decreases_to!(*self => (*self)->entries));
                        assert(decreases_to!(*entries => entries@));
                        assert(decreases_to!(entries@ => entries@[i as int]));
                        assert(decreases_to!(entries@[i as int] => entries@[i as int].0));
                        assert(decreases_to!(entries@[i as int] => entries@[i as int].1));
                    }
                    let key = entries[i].0.render(f64_text, f32_text);
                    let value = entries[i].1.render(f64_text, f32_text);
                    out.append("\n");
                    out.append("    ");
                    out.append(key.as_str());
                    out.append(":   ");
                    out.append(value.as_str());
                    out.append(",");
                    i = i + 1;
                }
                out.append("\n}");
                out
            },
            DebugValue::PointerWrapper { kind, value } => {
                let mut out = paint(kind.name(), Paint::Cyan);
                out.append("(");
                out.append(paint(value.render(f64_text, f32_text).as_str(), Paint::Magenta).as_str());
                out.append(")");
                out
            },
            DebugValue::Enum { name, inner_name } => {
                let mut out = paint(name.as_str(), Paint::Cyan);
                out.append("::");
                out.append(paint(inner_name.as_str(), Paint::BrightYellow).as_str());
                out
            },
            DebugValue::RawVecInner { heap_pointer_value, cap } => {
                let mut out = lit("RawVecInner {\nptr: ");
                out.append(paint(alt_hex_text(*heap_pointer_value as u64).as_str(), Paint::BrightBlue).as_str());
                out.append("\ncapacity: ");
                out.append(paint(numeral_text(*cap, 10).as_str(), Paint::Blue).as_str());
                out.append("}");
                out
            },
            DebugValue::RawParts { heap_pointer_value, len, cap } => {
                let mut out = lit("RawParts {\nptr: ");
                out.append(paint(alt_hex_text(*heap_pointer_value as u64).as_str(), Paint::BrightBlue).as_str());
                out.append("\nlen: ");
                out.append(numeral_text(*len, 10).as_str());
                out.append("\ncap: ");
                out.append(numeral_text(*cap, 10).as_str());
                out.append("}");
                out
            },
            DebugValue::RawTableInner { bucket_mask, ctrl, growth_left, items } => {
                let mut out = lit("RawTableInner {\n bucket_mask: ");
                out.append(paint(numeral_text(*bucket_mask, 10).as_str(), Paint::Blue).as_str());
                out.append("\nctrl: ");
                out.append(paint(alt_hex_text(*ctrl as u64).as_str(), Paint::BrightBlue).as_str());
                out.append("\ngrowth_left: ");
                out.append(paint(numeral_text(*growth_left, 10).as_str(), Paint::Blue).as_str());
                out.append("\nitems: ");
                out.append(paint(numeral_text(*items, 10).as_str(), Paint::Blue).as_str());
                out.append("}");
                out
            },
            DebugValue::Variant { name, field } => match field {
                Some(f) => {
                    let inner = f.render(f64_text, f32_text);
                    if f.is_tuple() {
                        let mut out = paint(name.as_str(), Paint::Cyan);
                        out.append(inner.as_str());
                        out
                    } else {
                        let mut out = paint(name.as_str(), Paint::BrightYellow);
                        out.append("(");
                        out.append(inner.as_str());
                        out.append(")");
                        out
                    }
                },
                None => name.clone(),
            },
            DebugValue::Struct { name, fields } => {
                if fields.len() == 0 {
                    return name.clone();
                }
                let mut out = paint(name.as_str(), Paint::BrightBlue);
                out.append(" ");
                out.append("{");
                let ghost start = out@;
                let n = fields.len();
                let mut i: usize = 0;
                while i < n
                    invariant
                        n == fields@.len(),
                        i <= n,
                        reads_floats(f64_text, f32_text),
                        *self == (DebugValue::Struct { name: *name, fields: *fields }),
                        out@ == start + fields_text(fields@, i as int, f64_text, f32_text),
                    decreases n - i,
                {
                    assert(decreases_to!(*self => fields@[i as int].value)) by {
                        assert(decreases_to!(*self => (*self)->fields));
                        assert(decreases_to!(*fields => fields@));
                        assert(decreases_to!(fields@ => fields@[i as int]));
                        assert(decreases_to!(fields@[i as int] => fields@[i as int].value));
                    }
                    let value = fields[i].value.render(f64_text, f32_text);
                    out.append("\n");
                    out.append("    ");
                    out.append(paint(fields[i].name.as_str(), Paint::BrightRed).as_str());
                    out.append(":   ");
                    out.append(value.as_str());
                    i = i + 1;
                }
                out.append("\n}");
                out
            },
            DebugValue::Error(msg) => paint(msg.as_str(), Paint::Red),
        }
    }
}

} // verus!

verus! {

/// Whether every character of `s` is a decimal digit.
pub open spec fn all_decimal_digits(s: Seq<char>) -> bool {
    forall|i: int| 0 <= i < s.len() ==> '0' <= #[trigger] s[i] && s[i] <= '9'
}

/// The number that the decimal digits `s` write.
pub open spec fn decimal_value(s: Seq<char>) -> int
    decreases s.len(),
{
    if s.len() == 0 {
        0
    } else {
        decimal_value(s.drop_last()) * 10 + (s.last() as int - '0' as int)
    }
}

/// The decimal numeral of `n` is a non-empty run of decimal digits that
/// writes `n`.
proof fn lemma_decimal_numeral(n: nat)
    ensures
        numeral(n, 10).len() > 0,
        all_decimal_digits(numeral(n, 10)),
        decimal_value(numeral(n, 10)) == n,
    decreases n,
{
    let s = numeral(n, 10);
    let d = n % 10;
    assert(digit_char(d) == ((d + 0x30) as char));
    assert(((d + 0x30) as char) as int == d + 0x30);
    assert('0' as int == 0x30);
    if n < 10 {
        assert(d == n);
        assert(s == seq![digit_char(n)]);
        assert(s.drop_last() =~= Seq::<char>::empty());
        assert(decimal_value(s.drop_last()) == 0);
        assert(decimal_value(s) == decimal_value(s.drop_last()) * 10 + (s.last() as int - '0' as int));
    } else {
        lemma_decimal_numeral(n / 10);
        let p = numeral(n / 10, 10);
        assert(s == p.push(digit_char(n % 10)));
        assert(s.drop_last() =~= p);
        assert(s.last() == digit_char(d));
        assert(decimal_value(s) == decimal_value(p) * 10 + (s.last() as int - '0' as int));
        assert(n == (n / 10) * 10 + n % 10) by (nonlinear_arith);
        assert(forall|i: int| 0 <= i < p.len() ==> s[i] == p[i]);
    }
}

/// A signed integer, whether an `isize` or another width, shows in blue as
/// its decimal numeral: a `-` and the digits of its magnitude when it is
/// negative, only digits otherwise; the digits write the magnitude. An
/// `isize` shows as the integer of the same value does.
pub proof fn law_signed_integers_show_their_value<F: Fn(u64) -> String, G: Fn(u32) -> String>(
    n: i64,
    f64_text: &F,
    f32_text: &G,
)
    ensures
        shown(DebugValue::Isize(n), f64_text, f32_text) == shown(DebugValue::Integer(n), f64_text, f32_text),
        exists|t: Seq<char>|
            #![trigger painted(t, Paint::Blue)]
            shown(DebugValue::Isize(n), f64_text, f32_text) == painted(t, Paint::Blue) && if n < 0 {
                &&& t.len() > 1
                &&& t[0] == '-'
                &&& all_decimal_digits(t.drop_first())
                &&& decimal_value(t.drop_first()) == -n
            } else {
                &&& t.len() > 0
                &&& all_decimal_digits(t)
                &&& decimal_value(t) == n
            },
{
    let t = signed_decimal(n as int);
    if n < 0 {
        lemma_decimal_numeral((-n) as nat);
        assert(t.drop_first() =~= numeral((-n) as nat, 10));
    } else {
        lemma_decimal_numeral(n as nat);
    }
    assert(shown(DebugValue::Isize(n), f64_text, f32_text) == painted(t, Paint::Blue));
}

/// An unsigned integer, whether a `usize` or another width, shows in blue as
/// the decimal digits that write it; a `usize` shows as the unsigned integer
/// of the same value does.
pub proof fn law_unsigned_integers_show_their_value<F: Fn(u64) -> String, G: Fn(u32) -> String>(
    n: u64,
    f64_text: &F,
    f32_text: &G,
)
    ensures
        shown(DebugValue::Usize(n), f64_text, f32_text) == shown(DebugValue::Unsigned(n), f64_text, f32_text),
        exists|t: Seq<char>|
            #![trigger painted(t, Paint::Blue)]
            shown(DebugValue::Unsigned(n), f64_text, f32_text) == painted(t, Paint::Blue) && t.len() > 0
                && all_decimal_digits(t) && decimal_value(t) == n,
{
    lemma_decimal_numeral(n as nat);
    assert(shown(DebugValue::Unsigned(n), f64_text, f32_text) == painted(numeral(n as nat, 10), Paint::Blue));
}

} // verus!
