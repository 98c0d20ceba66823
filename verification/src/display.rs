//! The text the debugger prints for source lines, backtrace frames,
//! breakpoints, registers and the current location.
use crate::breakpoint::{BreakpointData, BreakpointTarget};
use crate::command::{is_white_space, next_word, next_word_exec, skip_ws, word_end};
use crate::dwarf::{PlatformRegStruct, RegisterViewer};
use crate::render::{alt_hex, alt_hex_text, numeral, numeral_text, paint, painted, Paint};
use crate::text::{first_index_of, is_prefix, last_segment, starts_with, str_eq, trim_file_path};
use crate::types::{clean_function_name, function_column_padding, SourceCodeDisplay, StackInfo};
use vstd::utf8::encode_utf8;
use vstd::prelude::*;
use vstd::string::*;

verus! {

/// `n` spaces (none when `n` is not positive).
pub open spec fn spaces(n: int) -> Seq<char> {
    if n <= 0 {
        Seq::empty()
    } else {
        Seq::new(n as nat, |i: int| ' ')
    }
}

/// `s` left-aligned in a column `w` characters wide, as `{:<w}` shows it.
pub open spec fn pad_right(s: Seq<char>, w: int) -> Seq<char> {
    s + spaces(w - s.len())
}

/// A number in decimal, as `{}` shows it.
pub open spec fn decimal(n: nat) -> Seq<char> {
    numeral(n, 10)
}

/// Appends `n` spaces to `out`.
pub fn push_spaces(out: &mut String, n: usize)
    ensures
        final(out)@ == old(out)@ + spaces(n as int),
{
    let ghost start = out@;
    let mut i: usize = 0;
    while i < n
        invariant
            i <= n,
            out@ == start + spaces(i as int),
        decreases n - i,
    {
        proof {
            reveal_strlit(" ");
        }
        out.append(" ");
        assert(spaces(i + 1) =~= spaces(i as int).push(' '));
        assert(out@ =~= start + spaces(i + 1));
        i = i + 1;
    }
}

/// `s` left-aligned in a column `w` characters wide.
pub fn padded(s: &str, w: usize) -> (r: String)
    ensures
        r@ == pad_right(s@, w as int),
{
    let mut r = String::from_str(s);
    let n = s.unicode_len();
    if n < w {
        push_spaces(&mut r, w - n);
    } else {
        assert(s@ + spaces(w - n) =~= s@);
    }
    r
}

/// A number in decimal.
pub fn decimal_text(n: u64) -> (r: String)
    ensures
        r@ == decimal(n as nat),
{
    numeral_text(n, 10)
}

/// The colour a word of source code is highlighted in: keywords red,
/// `mut`, `return` and `if` purple, primitive type names bright yellow.
pub open spec fn keyword_paint(t: Seq<char>) -> Option<Paint> {
    if t == "let"@ || t == "fn"@ || t == "pub"@ || t == "impl"@ {
        Some(Paint::Red)
    } else if t == "mut"@ || t == "return"@ || t == "if"@ {
        Some(Paint::Magenta)
    } else if t == "u8"@ || t == "i8"@ || t == "u16"@ || t == "i16"@ || t == "u32"@ || t == "i32"@
        || t == "u64"@ || t == "i64"@ || t == "usize"@ || t == "isize"@ || t == "f32"@ || t
        == "f64"@ || t == "bool"@ {
        Some(Paint::BrightYellow)
    } else {
        None
    }
}

/// One word of source code as shown: highlighted where it is a keyword, and
/// followed by a space.
pub open spec fn word_shown(t: Seq<char>) -> Seq<char> {
    match keyword_paint(t) {
        Some(p) => painted(t, p) + seq![' '],
        None => t + seq![' '],
    }
}

/// The words of `s` from position `i` on, each as shown.
pub open spec fn words_shown(s: Seq<char>, i: int) -> Seq<char>
    decreases s.len() - i,
{
    match next_word(s, i) {
        Some((a, b)) => if i < b <= s.len() {
            word_shown(s.subrange(a, b)) + words_shown(s, b)
        } else {
            Seq::empty()
        },
        None => Seq::empty(),
    }
}

/// A line of source code as shown: a comment (it starts with `//`) in grey
/// as it is, any other line word by word.
pub open spec fn source_line_shown(code: Seq<char>) -> Seq<char> {
    if is_prefix("//"@, code) {
        painted(code, Paint::Gray)
    } else {
        words_shown(code, 0)
    }
}

proof fn lemma_skip_ws(s: Seq<char>, i: int)
    requires
        0 <= i <= s.len(),
    ensures
        i <= skip_ws(s, i) <= s.len(),
        skip_ws(s, i) < s.len() ==> !is_white_space(s[skip_ws(s, i)]),
    decreases s.len() - i,
{
    if i < s.len() && is_white_space(s[i]) {
        lemma_skip_ws(s, i + 1);
    }
}

proof fn lemma_word_end(s: Seq<char>, i: int)
    requires
        0 <= i <= s.len(),
    ensures
        i <= word_end(s, i) <= s.len(),
    decreases s.len() - i,
{
    if i < s.len() && !is_white_space(s[i]) {
        lemma_word_end(s, i + 1);
    }
}

/// The next word starts at or after `i` and ends after it.
proof fn lemma_next_word_advances(s: Seq<char>, i: int)
    requires
        0 <= i <= s.len(),
    ensures
        next_word(s, i) matches Some((a, b)) ==> i <= a < b <= s.len(),
{
    lemma_skip_ws(s, i);
    let a = skip_ws(s, i);
    if a < s.len() {
        lemma_word_end(s, a + 1);
    }
}

/// The keyword colour of a word of source code.
fn keyword_paint_of(t: &str) -> (r: Option<Paint>)
    ensures
        r == keyword_paint(t@),
{
    if str_eq(t, "let") || str_eq(t, "fn") || str_eq(t, "pub") || str_eq(t, "impl") {
        Some(Paint::Red)
    } else if str_eq(t, "mut") || str_eq(t, "return") || str_eq(t, "if") {
        Some(Paint::Magenta)
    } else if str_eq(t, "u8") || str_eq(t, "i8") || str_eq(t, "u16") || str_eq(t, "i16") || str_eq(
        t,
        "u32",
    ) || str_eq(t, "i32") || str_eq(t, "u64") || str_eq(t, "i64") || str_eq(t, "usize")
        || str_eq(t, "isize") || str_eq(t, "f32") || str_eq(t, "f64") || str_eq(t, "bool") {
        Some(Paint::BrightYellow)
    } else {
        None
    }
}

/// A line of source code highlighted for the terminal: a comment in grey,
/// otherwise each whitespace-separated word followed by one space, keywords
/// and primitive type names in colour.
pub fn display_source_code(code: &str) -> (r: String)
    ensures
        r@ == source_line_shown(code@),
{
    if starts_with(code, "//") {
        return paint(code, Paint::Gray);
    }
    let n = code.unicode_len();
    let mut out = String::new();
    let mut i: usize = 0;
    loop
        invariant
            !is_prefix("//"@, code@),
            i <= n,
            n == code@.len(),
            out@ + words_shown(code@, i as int) == words_shown(code@, 0),
        decreases n - i,
    {
        proof {
            lemma_next_word_advances(code@, i as int);
            reveal_strlit(" ");
        }
        match next_word_exec(code, i) {
            Some((w, e)) => {
                match keyword_paint_of(w) {
                    Some(p) => {
                        let c = paint(w, p);
                        out.append(c.as_str());
                    },
                    None => {
                        out.append(w);
                    },
                }
                out.append(" ");
                assert(out@ + words_shown(code@, e as int) =~= words_shown(code@, 0));
                i = e;
            },
            None => {
                assert(out@ =~= words_shown(code@, 0));
                return out;
            },
        }
    }
}

/// A function name cut at its first `<`, where it has one.
pub open spec fn cleaned_name(name: Seq<char>) -> Seq<char> {
    match first_index_of(name, '<') {
        Some(i) => name.subrange(0, i),
        None => name,
    }
}

/// The function column of a backtrace frame: a plain function's name in blue
/// with `()`, padded with spaces so that the column is 36 bytes wide; a name
/// with generic arguments cut at the `<`, in blue, padded to 36 characters.
pub open spec fn function_column(name: Seq<char>) -> Seq<char> {
    let cleaned = cleaned_name(name);
    match first_index_of(name, '<') {
        None => painted(cleaned, Paint::Blue) + "()"@ + spaces(
            36 - ((encode_utf8(cleaned).len() as usize) + 2),
        ),
        Some(_) => painted(pad_right(cleaned, 36), Paint::Blue),
    }
}

/// A backtrace frame as shown. A function: its name column, the address, and
/// the file name and line. An inlined call: its name in light grey in a
/// 36-character column, the address marked `[INLINED]`, then the file name
/// and line of the declaration and of the call, each on a tab-indented line.
pub open spec fn frame_shown(info: StackInfo) -> Seq<char> {
    match info {
        StackInfo::Function { func_name, file, rip, line } => function_column(func_name@) + alt_hex(
            rip as nat,
        ) + " @ "@ + painted(last_segment(file@), Paint::Green) + ":"@ + decimal(line as nat),
        StackInfo::Inlined { func_name, decl_file, call_file, rip, call_line, decl_line } =>
            painted(pad_right(cleaned_name(func_name@), 36), Paint::Silver) + alt_hex(rip as nat)
            + " [INLINED]\n\t"@ + pad_right("Declared"@, 12) + " @ "@ + painted(
            last_segment(decl_file@),
            Paint::Green,
        ) + ":"@ + decimal(decl_line as nat) + " \n\t"@ + pad_right("Called"@, 12) + " @ "@
            + painted(last_segment(call_file@), Paint::Green) + ":"@ + decimal(call_line as nat),
    }
}

impl<'a> StackInfo<'a> {
    /// The frame as a line (two more for an inlined call) of the backtrace.
    pub fn text(&self) -> (r: String)
        ensures
            r@ == frame_shown(*self),
    {
        match *self {
            StackInfo::Function { func_name, file, rip, line } => {
                let (cleaned, plain) = clean_function_name(func_name);
                let mut out = if plain {
                    let mut c = paint(cleaned, Paint::Blue);
                    c.append("()");
                    push_spaces(&mut c, function_column_padding(cleaned.len()));
                    c
                } else {
                    let p = padded(cleaned, 36);
                    paint(p.as_str(), Paint::Blue)
                };
                assert(out@ == function_column(func_name@));
                let a = alt_hex_text(rip);
                out.append(a.as_str());
                out.append(" @ ");
                let f = paint(trim_file_path(file), Paint::Green);
                out.append(f.as_str());
                out.append(":");
                let l = decimal_text(line as u64);
                out.append(l.as_str());
                assert(out@ =~= frame_shown(*self));
                out
            },
            StackInfo::Inlined { func_name, decl_file, call_file, rip, call_line, decl_line } => {
                let (cleaned, _) = clean_function_name(func_name);
                let p = padded(cleaned, 36);
                let mut out = paint(p.as_str(), Paint::Silver);
                let a = alt_hex_text(rip);
                out.append(a.as_str());
                out.append(" [INLINED]\n\t");
                let d = padded("Declared", 12);
                out.append(d.as_str());
                out.append(" @ ");
                let f = paint(trim_file_path(decl_file), Paint::Green);
                out.append(f.as_str());
                out.append(":");
                let l = decimal_text(decl_line as u64);
                out.append(l.as_str());
                out.append(" \n\t");
                let c = padded("Called", 12);
                out.append(c.as_str());
                out.append(" @ ");
                let f = paint(trim_file_path(call_file), Paint::Green);
                out.append(f.as_str());
                out.append(":");
                let l = decimal_text(call_line as u64);
                out.append(l.as_str());
                assert(out@ =~= frame_shown(*self));
                out
            },
        }
    }
}

/// A register line: the name in an 8-wide column, `0x` and the value in hex
/// in an 18-wide column, then the value in decimal.
pub open spec fn register_line(name: Seq<char>, v: u64) -> Seq<char> {
    pad_right(name, 8) + "0x"@ + pad_right(numeral(v as nat, 16), 18) + decimal(v as nat) + "\n"@
}

/// A stack register line: as a register line, with the value in hex again
/// in place of the decimal.
pub open spec fn address_register_line(name: Seq<char>, v: u64) -> Seq<char> {
    pad_right(name, 8) + "0x"@ + pad_right(numeral(v as nat, 16), 18) + "0x"@ + numeral(v as nat, 16)
        + "\n"@
}

/// The names of the parity, zero and interrupt flags that are set in
/// `eflags`, each followed by a space, after a space; nothing when none is.
pub open spec fn flags_shown(eflags: u64) -> Seq<char> {
    let pf = eflags & 0x4 != 0;
    let zf = eflags & 0x40 != 0;
    let intf = eflags & 0x200 != 0;
    if !pf && !zf && !intf {
        Seq::empty()
    } else {
        " "@ + (if pf {
            "PF "@
        } else {
            Seq::empty()
        }) + (if zf {
            "ZF "@
        } else {
            Seq::empty()
        }) + (if intf {
            "IF "@
        } else {
            Seq::empty()
        })
    }
}

/// The flags line: as a register line, with the set flags in brackets.
pub open spec fn eflags_line(v: u64) -> Seq<char> {
    pad_right("eflags"@, 8) + "0x"@ + pad_right(numeral(v as nat, 16), 18) + "["@ + flags_shown(v)
        + "]\n"@
}

/// The general purpose registers, the stack registers in hex, the flags, the
/// segment registers and the segment bases, one per line.
pub open spec fn registers_shown(r: PlatformRegStruct) -> Seq<char> {
    register_line("rax"@, r.rax) + register_line("rbx"@, r.rbx) + register_line("rcx"@, r.rcx)
        + register_line("rdx"@, r.rdx) + register_line("rsi"@, r.rsi) + register_line("rdi"@, r.rdi)
        + address_register_line("rbp"@, r.rbp) + address_register_line("rsp"@, r.rsp) + register_line(
        "r8"@,
        r.r8,
    ) + register_line("r9"@, r.r9) + register_line("r10"@, r.r10) + register_line("r11"@, r.r11)
        + register_line("r12"@, r.r12) + register_line("r13"@, r.r13) + register_line("r14"@, r.r14)
        + register_line("r15"@, r.r15) + address_register_line("rip"@, r.rip) + eflags_line(r.eflags)
        + register_line("cs"@, r.cs) + register_line("ss"@, r.ss) + register_line("ds"@, r.ds)
        + register_line("es"@, r.es) + register_line("fs"@, r.fs) + register_line("gs"@, r.gs)
        + register_line("fs_base"@, r.fs_base) + register_line("gs_base"@, r.gs_base)
}

fn push_register_line(out: &mut String, name: &str, v: u64)
    ensures
        final(out)@ == old(out)@ + register_line(name@, v),
{
    let n = padded(name, 8);
    out.append(n.as_str());
    out.append("0x");
    let h = numeral_text(v, 16);
    let hp = padded(h.as_str(), 18);
    out.append(hp.as_str());
    let d = decimal_text(v);
    out.append(d.as_str());
    out.append("\n");
    assert(out@ =~= old(out)@ + register_line(name@, v));
}

fn push_address_register_line(out: &mut String, name: &str, v: u64)
    ensures
        final(out)@ == old(out)@ + address_register_line(name@, v),
{
    let n = padded(name, 8);
    out.append(n.as_str());
    out.append("0x");
    let h = numeral_text(v, 16);
    let hp = padded(h.as_str(), 18);
    out.append(hp.as_str());
    out.append("0x");
    out.append(h.as_str());
    out.append("\n");
    assert(out@ =~= old(out)@ + address_register_line(name@, v));
}

fn push_eflags_line(out: &mut String, v: u64)
    ensures
        final(out)@ == old(out)@ + eflags_line(v),
{
    let n = padded("eflags", 8);
    out.append(n.as_str());
    out.append("0x");
    let h = numeral_text(v, 16);
    let hp = padded(h.as_str(), 18);
    out.append(hp.as_str());
    out.append("[");
    let pf = v & 0x4 != 0;
    let zf = v & 0x40 != 0;
    let intf = v & 0x200 != 0;
    let ghost before = out@;
    if pf || zf || intf {
        out.append(" ");
        if pf {
            out.append("PF ");
        }
        if zf {
            out.append("ZF ");
        }
        if intf {
            out.append("IF ");
        }
    }
    assert(out@ =~= before + flags_shown(v));
    out.append("]\n");
    assert(out@ =~= old(out)@ + eflags_line(v));
}

impl RegisterViewer {
    /// The registers, one per line, as the `info registers` command shows them.
    pub fn text(&self) -> (r: String)
        ensures
            r@ == registers_shown(self.regs),
    {
        let r = self.regs;
        let mut out = String::new();
        push_register_line(&mut out, "rax", r.rax);
        push_register_line(&mut out, "rbx", r.rbx);
        push_register_line(&mut out, "rcx", r.rcx);
        push_register_line(&mut out, "rdx", r.rdx);
        push_register_line(&mut out, "rsi", r.rsi);
        push_register_line(&mut out, "rdi", r.rdi);
        push_address_register_line(&mut out, "rbp", r.rbp);
        push_address_register_line(&mut out, "rsp", r.rsp);
        push_register_line(&mut out, "r8", r.r8);
        push_register_line(&mut out, "r9", r.r9);
        push_register_line(&mut out, "r10", r.r10);
        push_register_line(&mut out, "r11", r.r11);
        push_register_line(&mut out, "r12", r.r12);
        push_register_line(&mut out, "r13", r.r13);
        push_register_line(&mut out, "r14", r.r14);
        push_register_line(&mut out, "r15", r.r15);
        push_address_register_line(&mut out, "rip", r.rip);
        push_eflags_line(&mut out, r.eflags);
        push_register_line(&mut out, "cs", r.cs);
        push_register_line(&mut out, "ss", r.ss);
        push_register_line(&mut out, "ds", r.ds);
        push_register_line(&mut out, "es", r.es);
        push_register_line(&mut out, "fs", r.fs);
        push_register_line(&mut out, "gs", r.gs);
        push_register_line(&mut out, "fs_base", r.fs_base);
        push_register_line(&mut out, "gs_base", r.gs_base);
        assert(out@ =~= registers_shown(self.regs));
        out
    }
}

/// `y` for an enabled breakpoint, `n` for a disabled one.
pub open spec fn enabled_mark(enabled: bool) -> Seq<char> {
    if enabled {
        "y"@
    } else {
        "n"@
    }
}

/// One location of a breakpoint with several, numbered from 1.
pub open spec fn location_shown(k: int, t: BreakpointTarget, mark: Seq<char>, line: u32) -> Seq<char> {
    "  ."@ + painted(decimal((k + 1) as nat), Paint::Cyan) + "\t\t     "@ + mark + "\t"@ + painted(
        alt_hex(t.relative_address as nat),
        Paint::Blue,
    ) + " at "@ + painted(last_segment(t.file@), Paint::Green) + ":"@ + decimal(line as nat)
}

/// The locations from the `k`-th on, separated by line breaks.
pub open spec fn locations_shown(ts: Seq<BreakpointTarget>, mark: Seq<char>, line: u32, k: int) -> Seq<
    char,
>
    decreases ts.len() - k,
{
    if k < 0 || k >= ts.len() {
        Seq::empty()
    } else {
        location_shown(k, ts[k], mark, line) + (if k < ts.len() - 1 {
            "\n"@
        } else {
            Seq::empty()
        }) + locations_shown(ts, mark, line, k + 1)
    }
}

/// A breakpoint as listed: with one location, its address and place on the
/// same line; with any other number, a `<MULTIPLE>` line and then each
/// location on a line of its own.
pub open spec fn breakpoint_shown(d: BreakpointData) -> Seq<char> {
    let mark = enabled_mark(d.enabled);
    if d.target@.len() == 1 {
        "breakpoint\tkeep "@ + mark + "\t"@ + painted(
            alt_hex(d.target@[0].relative_address as nat),
            Paint::BrightBlue,
        ) + " at "@ + painted(last_segment(d.target@[0].file@), Paint::Green) + ":"@ + decimal(
            d.line as nat,
        )
    } else {
        "breakpoint\tkeep "@ + mark + "\t<MULTIPLE>\n"@ + locations_shown(d.target@, mark, d.line, 0)
    }
}

impl BreakpointData {
    /// The breakpoint as the `info breakpoints` command lists it.
    pub fn text(&self) -> (r: String)
        ensures
            r@ == breakpoint_shown(*self),
    {
        let mark = if self.enabled {
            "y"
        } else {
            "n"
        };
        let mut out = String::from_str("breakpoint\tkeep ");
        out.append(mark);
        if self.target.len() == 1 {
            let t = &self.target[0];
            out.append("\t");
            let a = alt_hex_text(t.relative_address);
            let a = paint(a.as_str(), Paint::BrightBlue);
            out.append(a.as_str());
            out.append(" at ");
            let f = paint(trim_file_path(t.file.as_str()), Paint::Green);
            out.append(f.as_str());
            out.append(":");
            let l = decimal_text(self.line as u64);
            out.append(l.as_str());
            assert(out@ =~= breakpoint_shown(*self));
            return out;
        }
        out.append("\t<MULTIPLE>\n");
        let ghost head = out@;
        let n = self.target.len();
        let mut k: usize = 0;
        while k < n
            invariant
                k <= n,
                n == self.target@.len(),
                mark@ == enabled_mark(self.enabled),
                out@ + locations_shown(self.target@, mark@, self.line, k as int) == head
                    + locations_shown(self.target@, mark@, self.line, 0),
            decreases n - k,
        {
            let t = &self.target[k];
            let ghost before = out@;
            out.append("  .");
            let i = decimal_text((k + 1) as u64);
            let i = paint(i.as_str(), Paint::Cyan);
            out.append(i.as_str());
            out.append("\t\t     ");
            out.append(mark);
            out.append("\t");
            let a = alt_hex_text(t.relative_address);
            let a = paint(a.as_str(), Paint::Blue);
            out.append(a.as_str());
            out.append(" at ");
            let f = paint(trim_file_path(t.file.as_str()), Paint::Green);
            out.append(f.as_str());
            out.append(":");
            let l = decimal_text(self.line as u64);
            out.append(l.as_str());
            assert(out@ =~= before + location_shown(k as int, self.target@[k as int], mark@, self.line));
            if k + 1 < n {
                out.append("\n");
            }
            assert(out@ + locations_shown(self.target@, mark@, self.line, k + 1) =~= before
                + locations_shown(self.target@, mark@, self.line, k as int));
            k = k + 1;
        }
        assert(locations_shown(self.target@, mark@, self.line, n as int) =~= Seq::<char>::empty());
        assert(out@ =~= breakpoint_shown(*self));
        out
    }
}

/// What the source view shows for a location: the line number in cyan and
/// the highlighted line; a file that could not be read with the line number;
/// an interned path that is missing; or that the location is not known.
pub open spec fn source_display_shown(d: SourceCodeDisplay) -> Seq<char> {
    match d {
        SourceCodeDisplay::FullyResolved { source_code, line_number } => painted(
            decimal(line_number as nat),
            Paint::Cyan,
        ) + "\t"@ + source_line_shown(source_code@),
        SourceCodeDisplay::PartiallyResolved { path, line_number } => "Could not locate "@
            + painted(path@, Paint::BrightBlue) + ". Line number: "@ + painted(
            decimal(line_number as nat),
            Paint::Cyan,
        ) + "."@,
        SourceCodeDisplay::CacheCorrupt { id } => "Could not resolve string with id StringId("@
            + decimal(id.0 as nat) + "). Restarting session might fix this issue"@,
        SourceCodeDisplay::Unresolved => "Could not resolve current location"@,
    }
}

impl<'a> SourceCodeDisplay<'a> {
    /// The text of the source view for the current location.
    pub fn text(&self) -> (r: String)
        ensures
            r@ == source_display_shown(*self),
    {
        match self {
            SourceCodeDisplay::FullyResolved { source_code, line_number } => {
                let l = decimal_text(*line_number as u64);
                let mut out = paint(l.as_str(), Paint::Cyan);
                out.append("\t");
                let c = display_source_code(source_code);
                out.append(c.as_str());
                assert(out@ =~= source_display_shown(*self));
                out
            },
            SourceCodeDisplay::PartiallyResolved { path, line_number } => {
                let mut out = String::from_str("Could not locate ");
                let p = paint(path.as_str(), Paint::BrightBlue);
                out.append(p.as_str());
                out.append(". Line number: ");
                let l = decimal_text(*line_number as u64);
                let l = paint(l.as_str(), Paint::Cyan);
                out.append(l.as_str());
                out.append(".");
                assert(out@ =~= source_display_shown(*self));
                out
            },
            SourceCodeDisplay::CacheCorrupt { id } => {
                let mut out = String::from_str("Could not resolve string with id StringId(");
                let d = decimal_text(id.0 as u64);
                out.append(d.as_str());
                out.append("). Restarting session might fix this issue");
                assert(out@ =~= source_display_shown(*self));
                out
            },
            SourceCodeDisplay::Unresolved => String::from_str("Could not resolve current location"),
        }
    }
}

/// The sixteen ANSI terminal colours.
#[derive(Debug, Clone, Copy, PartialEq, Eq)]
pub enum Color {
    Black,
    Red,
    Green,
    Yellow,
    Blue,
    Magenta,
    Cyan,
    White,
    BrightBlack,
    BrightRed,
    BrightGreen,
    BrightYellow,
    BrightBlue,
    BrightMagenta,
    BrightCyan,
    BrightWhite,
}

/// The SGR foreground code of a colour: 30 to 37, and 90 to 97 for the
/// bright ones.
pub open spec fn color_code(c: Color) -> nat {
    match c {
        Color::Black => 30,
        Color::Red => 31,
        Color::Green => 32,
        Color::Yellow => 33,
        Color::Blue => 34,
        Color::Magenta => 35,
        Color::Cyan => 36,
        Color::White => 37,
        Color::BrightBlack => 90,
        Color::BrightRed => 91,
        Color::BrightGreen => 92,
        Color::BrightYellow => 93,
        Color::BrightBlue => 94,
        Color::BrightMagenta => 95,
        Color::BrightCyan => 96,
        Color::BrightWhite => 97,
    }
}

/// The SGR foreground code of a colour.
pub fn color_number(c: Color) -> (r: u64)
    ensures
        r == color_code(c),
{
    match c {
        Color::Black => 30,
        Color::Red => 31,
        Color::Green => 32,
        Color::Yellow => 33,
        Color::Blue => 34,
        Color::Magenta => 35,
        Color::Cyan => 36,
        Color::White => 37,
        Color::BrightBlack => 90,
        Color::BrightRed => 91,
        Color::BrightGreen => 92,
        Color::BrightYellow => 93,
        Color::BrightBlue => 94,
        Color::BrightMagenta => 95,
        Color::BrightCyan => 96,
        Color::BrightWhite => 97,
    }
}

/// `val` in colour `color`, ended by the escape sequence that resets every
/// attribute.
pub fn print_color(val: &str, color: Color) -> (r: String)
    ensures
        r@ == "\u{1b}["@ + decimal(color_code(color)) + "m"@ + val@ + "\u{1b}[0m"@,
{
    let mut out = String::from_str("\u{1b}[");
    let code = decimal_text(color_number(color));
    out.append(code.as_str());
    out.append("m");
    out.append(val);
    out.append("\u{1b}[0m");
    out
}

} // verus!
