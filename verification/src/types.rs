//! Source locations, line table rows, the source file cache, the path
//! interner and the stepping command that the debugger is carrying out.
use crate::fxmap::{by_view, fx_get_str, fx_insert_string, fx_new};
use crate::text::str_get_bytes;
use rustc_hash::FxHashMap;
use vstd::prelude::*;
use vstd::string::*;

verus! {

/// A handle on an interned file path.
#[derive(Debug, Clone, Copy, Default, PartialEq, Eq, Hash)]
pub struct StringId(pub u16);

/// A file and a line in it.
#[derive(Debug, Clone, Copy, PartialEq, Eq)]
pub struct SourceLocation {
    pub file: StringId,
    pub line: u32,
}

/// A range of machine addresses `[start_address, end_address)` that belongs to one source line.
#[derive(Debug, Clone, Copy, PartialEq, Eq)]
pub struct LineRow {
    pub location: SourceLocation,
    pub start_address: u64,
    pub end_address: u64,
    pub is_stmt: bool,
}

impl LineRow {
    /// The row covers `pc`.
    pub open spec fn covers(self, pc: u64) -> bool {
        self.start_address <= pc < self.end_address
    }
}

/// The concatenation of a sequence of strings.
pub open spec fn concat(lines: Seq<Seq<char>>) -> Seq<char>
    decreases lines.len(),
{
    if lines.len() == 0 {
        Seq::empty()
    } else {
        concat(lines.drop_last()) + lines.last()
    }
}

/// The characters of each string of a vector.
pub open spec fn views(v: Seq<String>) -> Seq<Seq<char>> {
    v.map_values(|s: String| s@)
}

/// A source file held as one string and the byte offset at which each line starts.
#[derive(Debug, Default)]
pub struct SourceCodeInfo {
    source_code: String,
    line_offsets: Vec<usize>,
}

impl SourceCodeInfo {
    /// The text of the file: its lines, without line terminators, one after the other.
    pub closed spec fn text(&self) -> Seq<char> {
        self.source_code@
    }

    /// The byte offset of each line.
    pub closed spec fn offsets(&self) -> Seq<usize> {
        self.line_offsets@
    }

    /// The text as UTF-8 bytes.
    pub closed spec fn bytes(&self) -> Seq<u8> {
        vstd::utf8::encode_utf8(self.source_code@)
    }

    /// Lays out `lines` one after the other and records where each one begins.
    pub fn from_lines(lines: &Vec<String>) -> (r: Self)
        requires
            vstd::utf8::encode_utf8(concat(views(lines@))).len() <= usize::MAX,
        ensures
            r.text() == concat(views(lines@)),
            r.offsets().len() == lines@.len(),
            forall|i: int|
                0 <= i < lines@.len() ==> r.offsets()[i] == vstd::utf8::encode_utf8(
                    #[trigger] concat(views(lines@).take(i)),
                ).len(),
    {
        let mut source_code = String::new();
        let mut line_offsets: Vec<usize> = Vec::new();
        let n = lines.len();
        let ghost all = views(lines@);
        let mut i: usize = 0;
        assert(all.take(0) =~= Seq::<Seq<char>>::empty());
        while i < n
            invariant
                n == lines@.len(),
                all == views(lines@),
                i <= n,
                source_code@ == concat(all.take(i as int)),
                line_offsets@.len() == i,
                forall|j: int|
                    0 <= j < i ==> line_offsets@[j] == vstd::utf8::encode_utf8(
                        #[trigger] concat(all.take(j)),
                    ).len(),
                vstd::utf8::encode_utf8(concat(all)).len() <= usize::MAX,
            decreases n - i,
        {
            proof {
                lemma_concat_prefix_bytes(all, i as int);
                lemma_concat_prefix_bytes(all, i + 1);
            }
            let offset = source_code.as_str().len();
            let ghost prev = line_offsets@;
            line_offsets.push(offset);
            assert(line_offsets@[i as int] == vstd::utf8::encode_utf8(concat(all.take(i as int))).len());
            assert(forall|j: int| 0 <= j < i ==> line_offsets@[j] == prev[j]);
            source_code.append(lines[i].as_str());
            assert(all.take(i + 1).drop_last() =~= all.take(i as int));
            i = i + 1;
        }
        assert(all.take(n as int) =~= all);
        SourceCodeInfo { source_code, line_offsets }
    }

    /// The bytes of line `line` (counted from 1; 0 reads as 1): from the line's
    /// offset up to the next line's offset, where both are character
    /// boundaries of the text. The last line has no next offset, so it has none.
    pub open spec fn line_bytes(&self, line: u32) -> Option<Seq<u8>> {
        let idx = if line == 0 { 0int } else { line - 1 };
        if idx + 1 < self.offsets().len() {
            let a = self.offsets()[idx];
            let b = self.offsets()[idx + 1];
            if a <= b <= self.bytes().len() && vstd::utf8::is_char_boundary(self.bytes(), a as int)
                && vstd::utf8::is_char_boundary(self.bytes(), b as int) {
                Some(self.bytes().subrange(a as int, b as int))
            } else {
                None
            }
        } else {
            None
        }
    }

    /// The text of line `line` (counted from 1; 0 reads as 1).
    pub fn line_entry(&self, line: u32) -> (r: Option<&str>)
        ensures
            match self.line_bytes(line) {
                None => r is None,
                Some(bs) => r matches Some(x) && x.spec_bytes() == bs,
            },
    {
        let index: usize = if line == 0 { 0 } else { (line - 1) as usize };
        if index >= self.line_offsets.len() || index + 1 >= self.line_offsets.len() {
            return None;
        }
        let a = self.line_offsets[index];
        let b = self.line_offsets[index + 1];
        str_get_bytes(self.source_code.as_str(), a, b)
    }
}

proof fn lemma_encode_append(a: Seq<char>, b: Seq<char>)
    ensures
        vstd::utf8::encode_utf8(a + b) == vstd::utf8::encode_utf8(a) + vstd::utf8::encode_utf8(b),
    decreases a.len(),
{
    if a.len() == 0 {
        assert(a + b =~= b);
    } else {
        lemma_encode_append(a.drop_first(), b);
        assert((a + b).drop_first() =~= a.drop_first() + b);
    }
}

proof fn lemma_concat_split(s: Seq<Seq<char>>, i: int)
    requires
        0 <= i <= s.len(),
    ensures
        concat(s) == concat(s.take(i)) + concat(s.skip(i)),
    decreases s.len() - i,
{
    if i == s.len() {
        assert(s.take(i) =~= s);
        assert(s.skip(i) =~= Seq::<Seq<char>>::empty());
        assert(concat(s) + Seq::<char>::empty() =~= concat(s));
    } else {
        lemma_concat_split(s, i + 1);
        let t = s.skip(i);
        assert(t.drop_last() =~= s.skip(i).drop_last());
        lemma_concat_split_tail(s, i);
    }
}

proof fn lemma_concat_split_tail(s: Seq<Seq<char>>, i: int)
    requires
        0 <= i < s.len(),
        concat(s) == concat(s.take(i + 1)) + concat(s.skip(i + 1)),
    ensures
        concat(s) == concat(s.take(i)) + concat(s.skip(i)),
    decreases s.len() - i,
{
    assert(s.take(i + 1).drop_last() =~= s.take(i));
    assert(s.take(i + 1).last() == s[i]);
    lemma_concat_cons(s[i], s.skip(i + 1));
    assert(seq![s[i]] + s.skip(i + 1) =~= s.skip(i));
    assert(concat(s.take(i)) + s[i] + concat(s.skip(i + 1)) =~= concat(s.take(i)) + (s[i] + concat(
        s.skip(i + 1),
    )));
}

proof fn lemma_concat_cons(x: Seq<char>, s: Seq<Seq<char>>)
    ensures
        concat(seq![x] + s) == x + concat(s),
    decreases s.len(),
{
    let e = Seq::<Seq<char>>::empty();
    assert(concat(e) == Seq::<char>::empty());
    if s.len() == 0 {
        assert(seq![x] + s =~= seq![x]);
        assert(seq![x].drop_last() =~= e);
        assert(Seq::<char>::empty() + x =~= x);
        assert(x + Seq::<char>::empty() =~= x);
        assert(concat(s) == Seq::<char>::empty());
    } else {
        lemma_concat_cons(x, s.drop_last());
        assert((seq![x] + s).drop_last() =~= seq![x] + s.drop_last());
        assert((seq![x] + s).last() == s.last());
        assert(x + concat(s.drop_last()) + s.last() =~= x + (concat(s.drop_last()) + s.last()));
    }
}

/// The end of the encoding of a prefix is a character boundary of the
/// encoding of the whole.
proof fn lemma_boundary_after_prefix(a: Seq<char>, b: Seq<char>)
    ensures
        vstd::utf8::is_char_boundary(
            vstd::utf8::encode_utf8(a + b),
            vstd::utf8::encode_utf8(a).len() as int,
        ),
    decreases a.len(),
{
    broadcast use vstd::utf8::encode_utf8_valid_utf8;

    if a.len() > 0 {
        let c = a + b;
        let bytes = vstd::utf8::encode_utf8(c);
        vstd::utf8::encode_utf8_first_scalar(c);
        assert(c.drop_first() =~= a.drop_first() + b);
        assert(vstd::utf8::pop_first_scalar(bytes) =~= vstd::utf8::encode_utf8(c.drop_first()));
        lemma_boundary_after_prefix(a.drop_first(), b);
        lemma_encode_append(a, b);
    }
}

/// A file read into the cache gives back each of its lines but the last:
/// line `line` (counted from 1) holds the bytes of the `line`-th line read.
pub proof fn law_cached_lines_read_back(info: SourceCodeInfo, lines: Seq<String>, line: u32)
    requires
        info.text() == concat(views(lines)),
        info.offsets().len() == lines.len(),
        forall|i: int|
            0 <= i < lines.len() ==> info.offsets()[i] == vstd::utf8::encode_utf8(
                #[trigger] concat(views(lines).take(i)),
            ).len(),
        1 <= line < lines.len(),
    ensures
        info.line_bytes(line) == Some(vstd::utf8::encode_utf8(lines[line - 1]@)),
{
    let all = views(lines);
    let k = line as int;
    let p = concat(all.take(k - 1));
    let l = all[k - 1];
    let r = concat(all.skip(k));
    assert(all.take(k).drop_last() =~= all.take(k - 1));
    assert(concat(all.take(k)) == p + l);
    lemma_concat_split(all, k);
    assert(concat(all) == p + l + r);
    assert(p + l + r =~= p + (l + r));
    lemma_encode_append(p, l + r);
    lemma_encode_append(l, r);
    lemma_encode_append(p + l, r);
    lemma_encode_append(p, l);
    lemma_boundary_after_prefix(p, l + r);
    lemma_boundary_after_prefix(p + l, r);
    let bytes = vstd::utf8::encode_utf8(concat(all));
    let ep = vstd::utf8::encode_utf8(p);
    let el = vstd::utf8::encode_utf8(l);
    assert(info.offsets()[k - 1] == ep.len());
    assert(info.offsets()[k] == ep.len() + el.len());
    assert(bytes.subrange(ep.len() as int, (ep.len() + el.len()) as int) =~= el);
    assert(info.bytes() == bytes);
}

proof fn lemma_concat_prefix_bytes(all: Seq<Seq<char>>, i: int)
    requires
        0 <= i <= all.len(),
        vstd::utf8::encode_utf8(concat(all)).len() <= usize::MAX,
    ensures
        vstd::utf8::encode_utf8(concat(all.take(i))).len() <= usize::MAX,
{
    lemma_concat_split(all, i);
    lemma_encode_append(concat(all.take(i)), concat(all.skip(i)));
}

} // verus!

verus! {

/// The source files read so far, by path.
#[derive(Debug, Default)]
pub struct SourceCodeCache {
    pub entries: FxHashMap<String, SourceCodeInfo>,
}

impl SourceCodeCache {
    /// An empty cache.
    pub fn new() -> (r: Self)
        ensures
            by_view(r.entries@).dom().is_empty(),
    {
        SourceCodeCache { entries: fx_new() }
    }

    /// The text of line `line` of the cached file `path`.
    pub fn get_line_entry(&self, path: &str, line: u32) -> (r: Option<&str>)
        ensures
            !by_view(self.entries@).contains_key(path@) ==> r is None,
            by_view(self.entries@).contains_key(path@) ==> match by_view(self.entries@)[path@].line_bytes(
                line,
            ) {
                None => r is None,
                Some(bs) => r matches Some(x) && x.spec_bytes() == bs,
            },
    {
        match fx_get_str(&self.entries, path) {
            Some(entry) => entry.line_entry(line),
            None => None,
        }
    }

    /// Stores the lines of the file `path` and returns the text of line `line`.
    pub fn create_and_get_line_entry(&mut self, path: &str, lines: &Vec<String>, line: u32) -> (r:
        Option<&str>)
        requires
            vstd::utf8::encode_utf8(concat(views(lines@))).len() <= usize::MAX,
        ensures
            by_view(final(self).entries@).contains_key(path@),
            by_view(final(self).entries@)[path@].text() == concat(views(lines@)),
            by_view(final(self).entries@) == by_view(old(self).entries@).insert(
                path@,
                by_view(final(self).entries@)[path@],
            ),
            match by_view(final(self).entries@)[path@].line_bytes(line) {
                None => r is None,
                Some(bs) => r matches Some(x) && x.spec_bytes() == bs,
            },
    {
        let info = SourceCodeInfo::from_lines(lines);
        fx_insert_string(&mut self.entries, path.to_owned(), info);
        self.get_line_entry(path, line)
    }
}

/// Interns file paths: each distinct path gets one small id, handed out in order.
#[derive(Debug, Clone, Default)]
pub struct StringInterner {
    buffer: Vec<String>,
    map: FxHashMap<String, StringId>,
}

impl StringInterner {
    /// The interned strings, in the order of their ids.
    pub closed spec fn strings(&self) -> Seq<Seq<char>> {
        views(self.buffer@)
    }

    /// Every string is stored once, the map finds each at its position, and ids fit in 16 bits.
    pub closed spec fn wf(&self) -> bool {
        let s = self.strings();
        &&& s.len() <= 0x10000
        &&& forall|i: int, j: int| 0 <= i < j < s.len() ==> s[i] != s[j]
        &&& forall|k: Seq<char>| #[trigger]
            by_view(self.map@).contains_key(k) <==> s.contains(k)
        &&& forall|i: int| 0 <= i < s.len() ==> #[trigger] by_view(self.map@)[s[i]] == StringId(
            i as u16,
        )
    }

    /// An interner holding nothing.
    pub fn new() -> (r: Self)
        ensures
            r.wf(),
            r.strings() == Seq::<Seq<char>>::empty(),
    {
        let r = StringInterner { buffer: Vec::new(), map: fx_new() };
        assert(r.strings() =~= Seq::<Seq<char>>::empty());
        assert forall|k: Seq<char>| !by_view(r.map@).contains_key(k) by {
            assert(!r.map@.dom().contains(choose|s: String| r.map@.contains_key(s) && s@ == k));
        }
        r
    }

    /// The id of `s`: its existing id when it was interned before, else the next id.
    pub fn get_or_intern(&mut self, s: &str) -> (r: StringId)
        requires
            old(self).wf(),
            old(self).strings().len() < 0x10000 || old(self).strings().contains(s@),
        ensures
            final(self).wf(),
            old(self).strings().contains(s@) ==> final(self).strings() == old(self).strings()
                && old(self).strings()[r.0 as int] == s@,
            !old(self).strings().contains(s@) ==> final(self).strings() == old(self).strings().push(
                s@,
            ) && r.0 == old(self).strings().len(),
            r.0 < final(self).strings().len(),
            final(self).strings()[r.0 as int] == s@,
    {
        if let Some(id) = fx_get_str(&self.map, s) {
            let id = *id;
            proof {
                let k = choose|i: int| 0 <= i < self.strings().len() && self.strings()[i] == s@;
                assert(self.strings()[k] == s@);
                assert(by_view(self.map@)[self.strings()[k]] == StringId(k as u16));
            }
            return id;
        }
        let ghost old_s = self.strings();
        let new_id = StringId(self.buffer.len() as u16);
        self.buffer.push(s.to_owned());
        fx_insert_string(&mut self.map, s.to_owned(), new_id);
        proof {
            assert(self.strings() =~= old_s.push(s@));
            assert forall|k: Seq<char>|
                by_view(self.map@).contains_key(k) <== self.strings().contains(k) by {
                if self.strings().contains(k) {
                    let i = choose|i: int| 0 <= i < self.strings().len() && self.strings()[i] == k;
                    if i < old_s.len() {
                        assert(old_s.contains(k));
                    }
                }
            }
            assert forall|k: Seq<char>|
                by_view(self.map@).contains_key(k) ==> self.strings().contains(k) by {
                if by_view(self.map@).contains_key(k) && k != s@ {
                    assert(old_s.contains(k));
                    let i = choose|i: int| 0 <= i < old_s.len() && old_s[i] == k;
                    assert(self.strings()[i] == k);
                }
                if k == s@ {
                    assert(self.strings()[old_s.len() as int] == k);
                }
            }
        }
        new_id
    }

    /// The number of strings interned.
    pub fn len(&self) -> (r: usize)
        ensures
            r == self.strings().len(),
    {
        self.buffer.len()
    }

    /// Whether `s` has been interned.
    pub fn contains(&self, s: &str) -> (r: bool)
        requires
            self.wf(),
        ensures
            r == self.strings().contains(s@),
    {
        fx_get_str(&self.map, s).is_some()
    }

    /// The string with id `id`, copied.
    pub fn get_string(&self, id: StringId) -> (r: Option<String>)
        ensures
            id.0 < self.strings().len() ==> (r matches Some(x) && x@ == self.strings()[id.0 as int]),
            id.0 >= self.strings().len() ==> r is None,
    {
        if (id.0 as usize) < self.buffer.len() {
            Some(self.buffer[id.0 as usize].clone())
        } else {
            None
        }
    }

    /// The string with id `id`.
    pub fn get_str(&self, id: StringId) -> (r: Option<&str>)
        ensures
            id.0 < self.strings().len() ==> (r matches Some(x) && x@ == self.strings()[id.0 as int]),
            id.0 >= self.strings().len() ==> r is None,
    {
        if (id.0 as usize) < self.buffer.len() {
            Some(self.buffer[id.0 as usize].as_str())
        } else {
            None
        }
    }
}

/// A well-formed interner holds at most as many strings as there are ids.
pub proof fn lemma_interner_bounded(t: StringInterner)
    requires
        t.wf(),
    ensures
        t.strings().len() <= 0x10000,
{
}

/// Ids are unique: in a well-formed interner two ids that read back the same
/// string are the same id, so interning a string a second time returns the id
/// it got the first time.
pub proof fn law_intern_ids_unique(t: StringInterner, a: StringId, b: StringId)
    requires
        t.wf(),
        a.0 < t.strings().len(),
        b.0 < t.strings().len(),
        t.strings()[a.0 as int] == t.strings()[b.0 as int],
    ensures
        a == b,
{
    if a.0 < b.0 {
        assert(t.strings()[a.0 as int] != t.strings()[b.0 as int]);
    } else if b.0 < a.0 {
        assert(t.strings()[b.0 as int] != t.strings()[a.0 as int]);
    }
}

} // verus!

verus! {

/// The command to carry out when the debugger next receives a trap.
#[derive(Debug, Clone, Copy, PartialEq, Eq, Default)]
pub enum CurrentStopCmd {
    SingleStep,
    StepOver {
        start_stack_pointer: u64,
        start_file: StringId,
        start_line: u32,
        started_from_inline: bool,
    },
    StepInto { start_file: StringId, start_line: u32 },
    StepOut {
        original_stack_pointer: u64,
        original_file: StringId,
        original_line: u32,
        return_address: u64,
        started_from_inline: bool,
    },
    FinishStepOver {
        original_stack_pointer: u64,
        original_file: StringId,
        original_line: u32,
        started_from_inline: bool,
    },
    Finish { start_stack_pointer: u64, started_from_inline: bool },
    StepOutFinish { original_stack_pointer: u64, return_address: u64, started_from_inline: bool },
    CompleteFinish { start_stack_pointer: u64, started_from_inline: bool },
    #[default]
    Idle,
    Running,
    Continuing,
    SearchingForValidLocation,
    Completed,
}

impl CurrentStopCmd {
    /// The command has run to its end and the user decides what comes next.
    pub fn is_completed(&self) -> (r: bool)
        ensures
            r == (*self is Completed),
    {
        match self {
            CurrentStopCmd::Completed => true,
            _ => false,
        }
    }

    /// The debuggee has not been started yet.
    pub fn is_idle(&self) -> (r: bool)
        ensures
            r == (*self is Idle),
    {
        match self {
            CurrentStopCmd::Idle => true,
            _ => false,
        }
    }
}

/// What the source view can show for the current location.
pub enum SourceCodeDisplay<'a> {
    FullyResolved { source_code: &'a str, line_number: u32 },
    PartiallyResolved { path: String, line_number: u32 },
    CacheCorrupt { id: StringId },
    Unresolved,
}

/// One frame of a backtrace.
#[derive(Debug, Copy, Clone)]
pub enum StackInfo<'a> {
    Function { func_name: &'a str, file: &'a str, rip: u64, line: u32 },
    Inlined {
        func_name: &'a str,
        decl_file: &'a str,
        call_file: &'a str,
        rip: u64,
        call_line: u32,
        decl_line: u32,
    },
}

/// A function name with generic arguments cut off at the first `<`, and whether
/// there was none to cut (a plain function, shown with `()`).
pub fn clean_function_name(func_name: &str) -> (r: (&str, bool))
    ensures
        match crate::text::first_index_of(func_name@, '<') {
            Some(i) => r.0@ == func_name@.subrange(0, i) && !r.1,
            None => r.0@ == func_name@ && r.1,
        },
{
    match crate::text::split_once_char(func_name, '<') {
        Some((stripped, _)) => (stripped, false),
        None => (func_name, true),
    }
}

/// The spaces that pad a plain function's name (and its `()`) to a 36-wide column.
pub fn function_column_padding(cleaned_name_len: usize) -> (r: usize)
    ensures
        cleaned_name_len + 2 >= 36 ==> r == 0,
        cleaned_name_len + 2 < 36 ==> r == 36 - (cleaned_name_len + 2),
{
    let base_len = cleaned_name_len.saturating_add(2);
    36usize.saturating_sub(base_len)
}

} // verus!
