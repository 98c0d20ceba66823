//! The commands of the debugger's prompt, read from a line of input.
use vstd::prelude::*;
use vstd::string::*;

verus! {

/// Unicode's `White_Space` characters (what `char::is_whitespace` tests).
pub open spec fn is_white_space(c: char) -> bool {
    let u = c as u32;
    ||| 0x9 <= u <= 0xd
    ||| u == 0x20
    ||| u == 0x85
    ||| u == 0xa0
    ||| u == 0x1680
    ||| 0x2000 <= u <= 0x200a
    ||| u == 0x2028
    ||| u == 0x2029
    ||| u == 0x202f
    ||| u == 0x205f
    ||| u == 0x3000
}

/// Whether `c` is white space.
pub fn is_whitespace(c: char) -> (r: bool)
    ensures
        r == is_white_space(c),
{
    let u = c as u32;
    (0x9 <= u && u <= 0xd) || u == 0x20 || u == 0x85 || u == 0xa0 || u == 0x1680 || (0x2000 <= u
        && u <= 0x200a) || u == 0x2028 || u == 0x2029 || u == 0x202f || u == 0x205f || u == 0x3000
}

/// The first position at or after `i` that is not white space (or the end).
pub open spec fn skip_ws(s: Seq<char>, i: int) -> int
    decreases s.len() - i,
{
    if i >= s.len() || i < 0 {
        s.len() as int
    } else if is_white_space(s[i]) {
        skip_ws(s, i + 1)
    } else {
        i
    }
}

/// The first position at or after `i` that is white space (or the end).
pub open spec fn word_end(s: Seq<char>, i: int) -> int
    decreases s.len() - i,
{
    if i >= s.len() || i < 0 {
        s.len() as int
    } else if is_white_space(s[i]) {
        i
    } else {
        word_end(s, i + 1)
    }
}

/// The next word at or after position `i`: its start and end.
pub open spec fn next_word(s: Seq<char>, i: int) -> Option<(int, int)> {
    let a = skip_ws(s, i);
    if a >= s.len() {
        None
    } else {
        Some((a, word_end(s, a)))
    }
}

/// The next word of `s` at or after character position `i`, and the position
/// after it.
pub fn next_word_exec(s: &str, i: usize) -> (r: Option<(&str, usize)>)
    requires
        i <= s@.len(),
    ensures
        match next_word(s@, i as int) {
            Some((a, b)) => r matches Some((w, e)) && w@ == s@.subrange(a, b) && e == b,
            None => r is None,
        },
        r matches Some((w, e)) ==> i <= e <= s@.len(),
{
    let n = s.unicode_len();
    let mut a = i;
    while a < n && is_whitespace(s.get_char(a))
        invariant
            i <= a <= n,
            n == s@.len(),
            skip_ws(s@, i as int) == skip_ws(s@, a as int),
        decreases n - a,
    {
        a = a + 1;
    }
    if a >= n {
        return None;
    }
    let mut b = a;
    while b < n && !is_whitespace(s.get_char(b))
        invariant
            a <= b <= n,
            n == s@.len(),
            word_end(s@, a as int) == word_end(s@, b as int),
        decreases n - b,
    {
        b = b + 1;
    }
    Some((s.substring_char(a, b), b))
}

/// The value of a digit in bases up to 36.
pub open spec fn digit_value(c: char) -> Option<nat> {
    let u = c as u32;
    if 0x30 <= u <= 0x39 {
        Some((u - 0x30) as nat)
    } else if 0x61 <= u <= 0x7a {
        Some((u - 0x61 + 10) as nat)
    } else if 0x41 <= u <= 0x5a {
        Some((u - 0x41 + 10) as nat)
    } else {
        None
    }
}

/// The number the digits `d` write in base `radix`, when each is a digit of it.
pub open spec fn digits_value(d: Seq<char>, radix: nat) -> Option<nat>
    decreases d.len(),
{
    if d.len() == 0 {
        Some(0)
    } else {
        match (digits_value(d.drop_last(), radix), digit_value(d.last())) {
            (Some(v), Some(x)) => if x < radix {
                Some(v * radix + x)
            } else {
                None
            },
            _ => None,
        }
    }
}

/// An unsigned number as std's `from_str_radix` reads it: an optional `+`,
/// then at least one digit of the base; nothing where a character is not a
/// digit or the number exceeds `max`.
pub open spec fn parse_value(s: Seq<char>, radix: nat, max: nat) -> Option<nat> {
    let d = if s.len() > 0 && s[0] == '+' {
        s.drop_first()
    } else {
        s
    };
    if d.len() == 0 {
        None
    } else {
        match digits_value(d, radix) {
            Some(v) => if v <= max {
                Some(v)
            } else {
                None
            },
            None => None,
        }
    }
}

proof fn lemma_digits_grow(d: Seq<char>, k: int, radix: nat)
    requires
        0 <= k <= d.len(),
        radix >= 1,
        digits_value(d, radix) is Some,
    ensures
        digits_value(d.take(k), radix) is Some,
        digits_value(d.take(k), radix).unwrap() <= digits_value(d, radix).unwrap(),
    decreases d.len() - k,
{
    if k < d.len() {
        assert(d.take(k + 1).drop_last() =~= d.take(k));
        lemma_digits_grow(d, k + 1, radix);
        let v = digits_value(d.take(k), radix).unwrap();
        let x = digit_value(d.take(k + 1).last()).unwrap();
        assert(v * radix + x >= v) by (nonlinear_arith)
            requires
                radix >= 1,
                v >= 0,
                x >= 0,
        ;
    } else {
        assert(d.take(k) =~= d);
    }
}

/// Reads an unsigned number in base `radix` (2 to 36) that must not exceed `max`.
pub fn parse_unsigned(s: &str, radix: u32, max: u64) -> (r: Option<u64>)
    requires
        2 <= radix <= 36,
    ensures
        match parse_value(s@, radix as nat, max as nat) {
            Some(v) => r == Some(v as u64),
            None => r is None,
        },
{
    let n = s.unicode_len();
    let start: usize = if n > 0 && s.get_char(0) == '+' {
        1
    } else {
        0
    };
    let ghost d = if s@.len() > 0 && s@[0] == '+' {
        s@.drop_first()
    } else {
        s@
    };
    assert(d =~= s@.subrange(start as int, n as int));
    if start >= n {
        return None;
    }
    let mut value: u64 = 0;
    let mut i = start;
    assert(d.take(0) =~= Seq::<char>::empty());
    while i < n
        invariant
            start <= i <= n,
            n == s@.len(),
            d =~= s@.subrange(start as int, n as int),
            d == (if s@.len() > 0 && s@[0] == '+' {
                s@.drop_first()
            } else {
                s@
            }),
            d.len() > 0,
            digits_value(d.take(i - start), radix as nat) == Some(value as nat),
            value <= max,
            2 <= radix <= 36,
        decreases n - i,
    {
        let c = s.get_char(i);
        assert(d.take(i + 1 - start).drop_last() =~= d.take(i - start));
        assert(d.take(i + 1 - start).last() == c);
        let u = c as u32;
        let digit: u32 = if 0x30 <= u && u <= 0x39 {
            u - 0x30
        } else if 0x61 <= u && u <= 0x7a {
            u - 0x61 + 10
        } else if 0x41 <= u && u <= 0x5a {
            u - 0x41 + 10
        } else {
            proof {
                assert(digit_value(c) is None);
                assert(digits_value(d.take(i + 1 - start), radix as nat) is None);
                if digits_value(d, radix as nat) is Some {
                    lemma_digits_grow(d, i + 1 - start, radix as nat);
                }
            }
            return None;
        };
        assert(digit_value(c) == Some(digit as nat));
        if digit >= radix {
            proof {
                assert(digits_value(d.take(i + 1 - start), radix as nat) is None);
                if digits_value(d, radix as nat) is Some {
                    lemma_digits_grow(d, i + 1 - start, radix as nat);
                }
            }
            return None;
        }
        let next = match value.checked_mul(radix as u64) {
            Some(m) => match m.checked_add(digit as u64) {
                Some(t) => t,
                None => {
                    proof {
                        if digits_value(d, radix as nat) is Some {
                            lemma_digits_grow(d, i + 1 - start, radix as nat);
                        }
                    }
                    return None;
                },
            },
            None => {
                proof {
                    assert(value * radix + digit > u64::MAX) by (nonlinear_arith)
                        requires
                            value * radix > u64::MAX,
                            digit >= 0,
                    ;
                    if digits_value(d, radix as nat) is Some {
                        lemma_digits_grow(d, i + 1 - start, radix as nat);
                    }
                }
                return None;
            },
        };
        if next > max {
            proof {
                if digits_value(d, radix as nat) is Some {
                    lemma_digits_grow(d, i + 1 - start, radix as nat);
                }
            }
            return None;
        }
        value = next;
        i = i + 1;
    }
    assert(d.take(n - start) =~= d);
    Some(value)
}

} // verus!

verus! {

/// Where a `break` or `clear` command points.
#[derive(Debug, Clone)]
pub enum Location {
    /// `*<addr>` to `break`: the address, in hexadecimal after `0x` and decimal
    /// otherwise; none when it is not a number.
    Address(Option<u64>),
    /// `*<addr>` to `clear`, which is first looked up as a function name.
    StarWord { text: String, address: Option<u64> },
    /// `<file>:<line>`: the line, none when it is not a number.
    FileLine { file: String, line_text: String, line: Option<u32> },
    /// A function name or a line number.
    Word { text: String, line: Option<u32> },
}

/// A breakpoint number given to `delete`, `enable` or `disable`.
#[derive(Debug, Clone)]
pub struct IndexArg {
    pub text: String,
    pub value: Option<usize>,
}

/// What `info` shows.
#[derive(Debug, Clone, Copy, PartialEq, Eq)]
pub enum InfoTopic {
    Breakpoints,
    Registers,
    Locals,
    Arguments,
    Unsupported,
}

/// The command a line of input asks for. `None` in place of an argument:
/// the command needs one and the line has none.
#[derive(Debug, Clone)]
pub enum Command {
    Empty,
    Run,
    Continue,
    StepInstruction,
    Step,
    Next,
    Finish,
    Break(Option<Location>),
    Clear(Option<Location>),
    Delete(Option<IndexArg>),
    Enable(Option<IndexArg>),
    Disable(Option<IndexArg>),
    Info(Option<InfoTopic>),
    Print(Option<String>),
    Backtrace,
    List,
    Quit,
    /// `help`, with the word it asks about.
    Help(Option<String>),
    Unsupported,
}

/// The address of `*<addr>`.
pub open spec fn address_value(t: Seq<char>) -> Option<u64> {
    let rest = t.subrange(1, t.len() as int);
    let v = if rest.len() >= 2 && rest[0] == '0' && rest[1] == 'x' {
        parse_value(t.subrange(3, t.len() as int), 16, u64::MAX as nat)
    } else {
        parse_value(rest, 10, u64::MAX as nat)
    };
    match v {
        Some(x) => Some(x as u64),
        None => None,
    }
}

/// A line number.
pub open spec fn line_value(t: Seq<char>) -> Option<u32> {
    match parse_value(t, 10, u32::MAX as nat) {
        Some(x) => Some(x as u32),
        None => None,
    }
}

/// A breakpoint number.
pub open spec fn index_value(t: Seq<char>) -> Option<usize> {
    match parse_value(t, 10, usize::MAX as nat) {
        Some(x) => Some(x as usize),
        None => None,
    }
}

/// `loc` is a `<file>:<line>` location read from `t`, split at its first `:`.
pub open spec fn file_line_of(loc: Location, t: Seq<char>, i: int) -> bool {
    loc matches Location::FileLine { file, line_text, line } && file@ == t.subrange(0, i)
        && line_text@ == t.subrange(i + 1, t.len() as int) && line == line_value(
        t.subrange(i + 1, t.len() as int),
    )
}

/// `loc` is what `break` reads from the argument `t`.
pub open spec fn break_location(loc: Location, t: Seq<char>) -> bool {
    if t.len() > 0 && t[0] == '*' {
        loc == Location::Address(address_value(t))
    } else {
        match crate::text::first_index_of(t, ':') {
            Some(i) => file_line_of(loc, t, i),
            None => loc matches Location::Word { text, line } && text@ == t && line == line_value(t),
        }
    }
}

/// `loc` is what `clear` reads from the argument `t`.
pub open spec fn clear_location(loc: Location, t: Seq<char>) -> bool {
    match crate::text::first_index_of(t, ':') {
        Some(i) => file_line_of(loc, t, i),
        None => if t.len() > 0 && t[0] == '*' {
            loc matches Location::StarWord { text, address } && text@ == t && address
                == address_value(t)
        } else {
            loc matches Location::Word { text, line } && text@ == t && line == line_value(t)
        },
    }
}

/// `a` is the breakpoint number argument read from `t`.
pub open spec fn index_arg_of(a: IndexArg, t: Seq<char>) -> bool {
    a.text@ == t && a.value == index_value(t)
}

/// The topic of `info <w>`.
pub open spec fn info_topic(w: Seq<char>) -> InfoTopic {
    if w == "b"@ || w == "break"@ || w == "breakpoint"@ || w == "breakpoints"@ {
        InfoTopic::Breakpoints
    } else if w == "r"@ || w == "reg"@ || w == "regs"@ || w == "register"@ || w == "registers"@ {
        InfoTopic::Registers
    } else if w == "l"@ || w == "lo"@ || w == "local"@ || w == "locals"@ {
        InfoTopic::Locals
    } else if w == "a"@ || w == "arg"@ || w == "args"@ || w == "argument"@ || w == "arguments"@ {
        InfoTopic::Arguments
    } else {
        InfoTopic::Unsupported
    }
}

/// The second word of the line after the command word ending at `b`.
pub open spec fn arg_after(line: Seq<char>, b: int) -> Option<Seq<char>> {
    match next_word(line, b) {
        Some((x, y)) => Some(line.subrange(x, y)),
        None => None,
    }
}

/// `r` is the command the line asks for: the first word names it (with its
/// aliases), the second is its argument.
pub open spec fn command_of(r: Command, line: Seq<char>) -> bool {
    match next_word(line, 0) {
        None => r is Empty,
        Some((a, b)) => {
            let w = line.subrange(a, b);
            let arg = arg_after(line, b);
            if w == "run"@ {
                r is Run
            } else if w == "c"@ || w == "cont"@ || w == "continue"@ {
                r is Continue
            } else if w == "si"@ || w == "stepi"@ {
                r is StepInstruction
            } else if w == "s"@ || w == "step"@ {
                r is Step
            } else if w == "n"@ || w == "next"@ {
                r is Next
            } else if w == "f"@ || w == "fin"@ || w == "finish"@ {
                r is Finish
            } else if w == "b"@ || w == "break"@ {
                match arg {
                    None => r == Command::Break(None),
                    Some(t) => r matches Command::Break(Some(loc)) && break_location(loc, t),
                }
            } else if w == "clear"@ {
                match arg {
                    None => r == Command::Clear(None),
                    Some(t) => r matches Command::Clear(Some(loc)) && clear_location(loc, t),
                }
            } else if w == "d"@ || w == "delete"@ {
                match arg {
                    None => r == Command::Delete(None),
                    Some(t) => r matches Command::Delete(Some(x)) && index_arg_of(x, t),
                }
            } else if w == "e"@ || w == "enable"@ {
                match arg {
                    None => r == Command::Enable(None),
                    Some(t) => r matches Command::Enable(Some(x)) && index_arg_of(x, t),
                }
            } else if w == "dis"@ || w == "disable"@ {
                match arg {
                    None => r == Command::Disable(None),
                    Some(t) => r matches Command::Disable(Some(x)) && index_arg_of(x, t),
                }
            } else if w == "i"@ || w == "info"@ {
                match arg {
                    None => r == Command::Info(None),
                    Some(t) => r == Command::Info(Some(info_topic(t))),
                }
            } else if w == "p"@ || w == "print"@ {
                match arg {
                    None => r == Command::Print(None),
                    Some(t) => r matches Command::Print(Some(x)) && x@ == t,
                }
            } else if w == "bt"@ || w == "backtrace"@ {
                r is Backtrace
            } else if w == "l"@ || w == "ls"@ || w == "list"@ {
                r is List
            } else if w == "q"@ || w == "quit"@ {
                r is Quit
            } else if w == "h"@ || w == "help"@ {
                match arg {
                    None => r == Command::Help(None),
                    Some(t) => r matches Command::Help(Some(x)) && x@ == t,
                }
            } else {
                r is Unsupported
            }
        },
    }
}

fn is(w: &str, lit: &str) -> (r: bool)
    ensures
        r == (w@ == lit@),
{
    crate::text::str_eq(w, lit)
}

fn read_address(t: &str) -> (r: Option<u64>)
    requires
        t@.len() > 0,
    ensures
        r == address_value(t@),
{
    let n = t.unicode_len();
    let rest = t.substring_char(1, n);
    let hex = rest.unicode_len() >= 2 && rest.get_char(0) == '0' && rest.get_char(1) == 'x';
    let v = if hex {
        let digits = t.substring_char(3, n);
        parse_unsigned(digits, 16, u64::MAX)
    } else {
        parse_unsigned(rest, 10, u64::MAX)
    };
    v
}

fn read_line_number(t: &str) -> (r: Option<u32>)
    ensures
        r == line_value(t@),
{
    match parse_unsigned(t, 10, u32::MAX as u64) {
        Some(x) => Some(x as u32),
        None => None,
    }
}

fn read_index(t: &str) -> (r: IndexArg)
    ensures
        index_arg_of(r, t@),
{
    let value = match parse_unsigned(t, 10, usize::MAX as u64) {
        Some(x) => Some(x as usize),
        None => None,
    };
    IndexArg { text: t.to_owned(), value }
}

fn read_file_line(t: &str) -> (r: Option<Location>)
    ensures
        match crate::text::first_index_of(t@, ':') {
            Some(i) => r matches Some(loc) && file_line_of(loc, t@, i),
            None => r is None,
        },
{
    match crate::text::split_once_char(t, ':') {
        Some((file, line_text)) => Some(
            Location::FileLine {
                file: file.to_owned(),
                line_text: line_text.to_owned(),
                line: read_line_number(line_text),
            },
        ),
        None => None,
    }
}

fn read_break_location(t: &str) -> (r: Location)
    ensures
        break_location(r, t@),
{
    if t.unicode_len() > 0 && t.get_char(0) == '*' {
        return Location::Address(read_address(t));
    }
    match read_file_line(t) {
        Some(loc) => loc,
        None => Location::Word { text: t.to_owned(), line: read_line_number(t) },
    }
}

fn read_clear_location(t: &str) -> (r: Location)
    ensures
        clear_location(r, t@),
{
    match read_file_line(t) {
        Some(loc) => loc,
        None => if t.unicode_len() > 0 && t.get_char(0) == '*' {
            Location::StarWord { text: t.to_owned(), address: read_address(t) }
        } else {
            Location::Word { text: t.to_owned(), line: read_line_number(t) }
        },
    }
}

fn read_info_topic(w: &str) -> (r: InfoTopic)
    ensures
        r == info_topic(w@),
{
    if is(w, "b") || is(w, "break") || is(w, "breakpoint") || is(w, "breakpoints") {
        InfoTopic::Breakpoints
    } else if is(w, "r") || is(w, "reg") || is(w, "regs") || is(w, "register") || is(w, "registers") {
        InfoTopic::Registers
    } else if is(w, "l") || is(w, "lo") || is(w, "local") || is(w, "locals") {
        InfoTopic::Locals
    } else if is(w, "a") || is(w, "arg") || is(w, "args") || is(w, "argument") || is(w, "arguments") {
        InfoTopic::Arguments
    } else {
        InfoTopic::Unsupported
    }
}

/// The command a line of input asks for.
pub fn parse_command(line: &str) -> (r: Command)
    ensures
        command_of(r, line@),
{
    let (w, b) = match next_word_exec(line, 0) {
        Some(x) => x,
        None => return Command::Empty,
    };
    let arg = match next_word_exec(line, b) {
        Some((t, _)) => Some(t),
        None => None,
    };
    if is(w, "run") {
        Command::Run
    } else if is(w, "c") || is(w, "cont") || is(w, "continue") {
        Command::Continue
    } else if is(w, "si") || is(w, "stepi") {
        Command::StepInstruction
    } else if is(w, "s") || is(w, "step") {
        Command::Step
    } else if is(w, "n") || is(w, "next") {
        Command::Next
    } else if is(w, "f") || is(w, "fin") || is(w, "finish") {
        Command::Finish
    } else if is(w, "b") || is(w, "break") {
        match arg {
            None => Command::Break(None),
            Some(t) => Command::Break(Some(read_break_location(t))),
        }
    } else if is(w, "clear") {
        match arg {
            None => Command::Clear(None),
            Some(t) => Command::Clear(Some(read_clear_location(t))),
        }
    } else if is(w, "d") || is(w, "delete") {
        match arg {
            None => Command::Delete(None),
            Some(t) => Command::Delete(Some(read_index(t))),
        }
    } else if is(w, "e") || is(w, "enable") {
        match arg {
            None => Command::Enable(None),
            Some(t) => Command::Enable(Some(read_index(t))),
        }
    } else if is(w, "dis") || is(w, "disable") {
        match arg {
            None => Command::Disable(None),
            Some(t) => Command::Disable(Some(read_index(t))),
        }
    } else if is(w, "i") || is(w, "info") {
        match arg {
            None => Command::Info(None),
            Some(t) => Command::Info(Some(read_info_topic(t))),
        }
    } else if is(w, "p") || is(w, "print") {
        match arg {
            None => Command::Print(None),
            Some(t) => Command::Print(Some(t.to_owned())),
        }
    } else if is(w, "bt") || is(w, "backtrace") {
        Command::Backtrace
    } else if is(w, "l") || is(w, "ls") || is(w, "list") {
        Command::List
    } else if is(w, "q") || is(w, "quit") {
        Command::Quit
    } else if is(w, "h") || is(w, "help") {
        match arg {
            None => Command::Help(None),
            Some(t) => Command::Help(Some(t.to_owned())),
        }
    } else {
        Command::Unsupported
    }
}

} // verus!

verus! {

/// Every command word of the prompt names its own command, whatever follows
/// it on the line, and each alias names the same command as its long form:
/// `run`; `c`, `cont`, `continue`; `si`, `stepi`; `s`, `step`; `n`, `next`;
/// `f`, `fin`, `finish`; `b`, `break`; `clear`; `d`, `delete`; `e`, `enable`;
/// `dis`, `disable`; `i`, `info`; `p`, `print`; `bt`, `backtrace`; `l`, `ls`,
/// `list`; `q`, `quit`; `h`, `help`.
pub proof fn law_each_word_names_its_command(r: Command, line: Seq<char>)
    requires
        command_of(r, line),
    ensures
        next_word(line, 0) is None ==> r is Empty,
        next_word(line, 0) is Some ==> ({
            let (a, b) = next_word(line, 0)->Some_0;
            let w = line.subrange(a, b);
            let words = seq![
                "run"@, "c"@, "cont"@, "continue"@, "si"@, "stepi"@, "s"@, "step"@, "n"@, "next"@, "f"@, "fin"@,
                "finish"@, "b"@, "break"@, "clear"@, "d"@, "delete"@, "e"@, "enable"@, "dis"@, "disable"@, "i"@,
                "info"@, "p"@, "print"@, "bt"@, "backtrace"@, "l"@, "ls"@, "list"@, "q"@, "quit"@, "h"@, "help"@
            ];
            &&& !words.contains(w) ==> r is Unsupported
            &&& (w == "p"@ || w == "print"@) && arg_after(line, b) is Some ==> (r matches Command::Print(Some(x)) && x@
                == arg_after(line, b)->Some_0)
            &&& w == "run"@ ==> r is Run
            &&& w == "c"@ || w == "cont"@ || w == "continue"@ ==> r is Continue
            &&& w == "si"@ || w == "stepi"@ ==> r is StepInstruction
            &&& w == "s"@ || w == "step"@ ==> r is Step
            &&& w == "n"@ || w == "next"@ ==> r is Next
            &&& w == "f"@ || w == "fin"@ || w == "finish"@ ==> r is Finish
            &&& w == "b"@ || w == "break"@ ==> r is Break
            &&& w == "clear"@ ==> r is Clear
            &&& w == "d"@ || w == "delete"@ ==> r is Delete
            &&& w == "e"@ || w == "enable"@ ==> r is Enable
            &&& w == "dis"@ || w == "disable"@ ==> r is Disable
            &&& w == "i"@ || w == "info"@ ==> r is Info
            &&& w == "p"@ || w == "print"@ ==> r is Print
            &&& w == "bt"@ || w == "backtrace"@ ==> r is Backtrace
            &&& w == "l"@ || w == "ls"@ || w == "list"@ ==> r is List
            &&& w == "q"@ || w == "quit"@ ==> r is Quit
            &&& w == "h"@ || w == "help"@ ==> r is Help
        }),
{
    if next_word(line, 0) is Some {
        let (a, b) = next_word(line, 0)->Some_0;
        let w = line.subrange(a, b);
        assert(w.len() > 0 ==> w[0] == w[0]);
        assert(w.len() > 1 ==> w[1] == w[1]);
        assert(w.len() > 2 ==> w[2] == w[2]);
        reveal_strlit("run");
        reveal_strlit("c");
        reveal_strlit("cont");
        reveal_strlit("continue");
        reveal_strlit("si");
        reveal_strlit("stepi");
        reveal_strlit("s");
        reveal_strlit("step");
        reveal_strlit("n");
        reveal_strlit("next");
        reveal_strlit("f");
        reveal_strlit("fin");
        reveal_strlit("finish");
        reveal_strlit("b");
        reveal_strlit("break");
        reveal_strlit("clear");
        reveal_strlit("d");
        reveal_strlit("delete");
        reveal_strlit("e");
        reveal_strlit("enable");
        reveal_strlit("dis");
        reveal_strlit("disable");
        reveal_strlit("i");
        reveal_strlit("info");
        reveal_strlit("p");
        reveal_strlit("print");
        reveal_strlit("bt");
        reveal_strlit("backtrace");
        reveal_strlit("l");
        reveal_strlit("ls");
        reveal_strlit("list");
        reveal_strlit("q");
        reveal_strlit("quit");
        reveal_strlit("h");
        reveal_strlit("help");
        assert("run"@.len() == 3 && "run"@[0] == 'r' && "run"@[1] == 'u' && "run"@[2] == 'n');
        assert("c"@.len() == 1 && "c"@[0] == 'c');
        assert("cont"@.len() == 4 && "cont"@[0] == 'c' && "cont"@[1] == 'o' && "cont"@[2] == 'n' && "cont"@[3] == 't');
        assert("continue"@.len() == 8 && "continue"@[0] == 'c' && "continue"@[1] == 'o' && "continue"@[2] == 'n' && "continue"@[3] == 't' && "continue"@[4] == 'i' && "continue"@[5] == 'n' && "continue"@[6] == 'u' && "continue"@[7] == 'e');
        assert("si"@.len() == 2 && "si"@[0] == 's' && "si"@[1] == 'i');
        assert("stepi"@.len() == 5 && "stepi"@[0] == 's' && "stepi"@[1] == 't' && "stepi"@[2] == 'e' && "stepi"@[3] == 'p' && "stepi"@[4] == 'i');
        assert("s"@.len() == 1 && "s"@[0] == 's');
        assert("step"@.len() == 4 && "step"@[0] == 's' && "step"@[1] == 't' && "step"@[2] == 'e' && "step"@[3] == 'p');
        assert("n"@.len() == 1 && "n"@[0] == 'n');
        assert("next"@.len() == 4 && "next"@[0] == 'n' && "next"@[1] == 'e' && "next"@[2] == 'x' && "next"@[3] == 't');
        assert("f"@.len() == 1 && "f"@[0] == 'f');
        assert("fin"@.len() == 3 && "fin"@[0] == 'f' && "fin"@[1] == 'i' && "fin"@[2] == 'n');
        assert("finish"@.len() == 6 && "finish"@[0] == 'f' && "finish"@[1] == 'i' && "finish"@[2] == 'n' && "finish"@[3] == 'i' && "finish"@[4] == 's' && "finish"@[5] == 'h');
        assert("b"@.len() == 1 && "b"@[0] == 'b');
        assert("break"@.len() == 5 && "break"@[0] == 'b' && "break"@[1] == 'r' && "break"@[2] == 'e' && "break"@[3] == 'a' && "break"@[4] == 'k');
        assert("clear"@.len() == 5 && "clear"@[0] == 'c' && "clear"@[1] == 'l' && "clear"@[2] == 'e' && "clear"@[3] == 'a' && "clear"@[4] == 'r');
        assert("d"@.len() == 1 && "d"@[0] == 'd');
        assert("delete"@.len() == 6 && "delete"@[0] == 'd' && "delete"@[1] == 'e' && "delete"@[2] == 'l' && "delete"@[3] == 'e' && "delete"@[4] == 't' && "delete"@[5] == 'e');
        assert("e"@.len() == 1 && "e"@[0] == 'e');
        assert("enable"@.len() == 6 && "enable"@[0] == 'e' && "enable"@[1] == 'n' && "enable"@[2] == 'a' && "enable"@[3] == 'b' && "enable"@[4] == 'l' && "enable"@[5] == 'e');
        assert("dis"@.len() == 3 && "dis"@[0] == 'd' && "dis"@[1] == 'i' && "dis"@[2] == 's');
        assert("disable"@.len() == 7 && "disable"@[0] == 'd' && "disable"@[1] == 'i' && "disable"@[2] == 's' && "disable"@[3] == 'a' && "disable"@[4] == 'b' && "disable"@[5] == 'l' && "disable"@[6] == 'e');
        assert("i"@.len() == 1 && "i"@[0] == 'i');
        assert("info"@.len() == 4 && "info"@[0] == 'i' && "info"@[1] == 'n' && "info"@[2] == 'f' && "info"@[3] == 'o');
        assert("p"@.len() == 1 && "p"@[0] == 'p');
        assert("print"@.len() == 5 && "print"@[0] == 'p' && "print"@[1] == 'r' && "print"@[2] == 'i' && "print"@[3] == 'n' && "print"@[4] == 't');
        assert("bt"@.len() == 2 && "bt"@[0] == 'b' && "bt"@[1] == 't');
        assert("backtrace"@.len() == 9 && "backtrace"@[0] == 'b' && "backtrace"@[1] == 'a' && "backtrace"@[2] == 'c' && "backtrace"@[3] == 'k' && "backtrace"@[4] == 't' && "backtrace"@[5] == 'r' && "backtrace"@[6] == 'a' && "backtrace"@[7] == 'c' && "backtrace"@[8] == 'e');
        assert("l"@.len() == 1 && "l"@[0] == 'l');
        assert("ls"@.len() == 2 && "ls"@[0] == 'l' && "ls"@[1] == 's');
        assert("list"@.len() == 4 && "list"@[0] == 'l' && "list"@[1] == 'i' && "list"@[2] == 's' && "list"@[3] == 't');
        assert("q"@.len() == 1 && "q"@[0] == 'q');
        assert("quit"@.len() == 4 && "quit"@[0] == 'q' && "quit"@[1] == 'u' && "quit"@[2] == 'i' && "quit"@[3] == 't');
        assert("h"@.len() == 1 && "h"@[0] == 'h');
        assert("help"@.len() == 4 && "help"@[0] == 'h' && "help"@[1] == 'e' && "help"@[2] == 'l' && "help"@[3] == 'p');
    }
}

} // verus!
