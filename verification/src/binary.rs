//! The object file of the program to debug: the sections the debugger reads
//! from it, and a session's debug information set up from them.
use crate::die::UnitRecord;
use crate::dwarf::{abi_of, DebuggerMetadataCache, Endianness, ObjectFormat, RawDebugFrame, SectionBases};
use crate::dwarf_scopes::{nodes_shape, types_added, units_scopes, units_types};
use crate::line_table::{index_rows, IndexState, LineProgramRow};
use crate::session::{rows_in_text, sorted_by_start, starting_at, DebugSession};
use object::{Object, ObjectSection};
use vstd::prelude::*;

verus! {

/// The address of the section `name` in the object file `binary`; nothing
/// where the file cannot be parsed or has no such section.
pub uninterp spec fn section_address(binary: Seq<u8>, name: Seq<char>) -> Option<u64>;

/// The uncompressed contents of the section `name` in the object file
/// `binary`; nothing where the file cannot be parsed, has no such section or
/// its contents cannot be read.
pub uninterp spec fn section_contents(binary: Seq<u8>, name: Seq<char>) -> Option<Seq<u8>>;

/// The container format of the object file `binary` and whether it is
/// little-endian; nothing where the file cannot be parsed.
pub uninterp spec fn object_kind(binary: Seq<u8>) -> Option<(ObjectFormat, bool)>;

/// object's `File::parse` on `binary`, then `Object::section_by_name` and
/// `ObjectSection::address`. The contract names the result: the same bytes and
/// name give the same address.
#[verifier::external_body]
fn section_address_of(binary: &[u8], name: &str) -> (r: Option<u64>)
    ensures
        r == section_address(binary@, name@),
{
    Some(object::File::parse(binary).ok()?.section_by_name(name)?.address())
}

/// object's `File::parse` on `binary`, then `Object::section_by_name` and
/// `ObjectSection::uncompressed_data`. The contract names the contents.
#[verifier::external_body]
fn section_contents_of(binary: &[u8], name: &str) -> (r: Option<Vec<u8>>)
    ensures
        match r {
            Some(d) => section_contents(binary@, name@) == Some(d@),
            None => section_contents(binary@, name@) is None,
        },
{
    let file = object::File::parse(binary).ok()?;
    Some(file.section_by_name(name)?.uncompressed_data().ok()?.into_owned())
}

/// object's `File::parse` on `binary`, then `Object::format` (each format the
/// debugger tells apart by its own name, any other as `Other`) and
/// `Object::is_little_endian`. The contract names the result.
#[verifier::external_body]
fn object_kind_of(binary: &[u8]) -> (r: Option<(ObjectFormat, bool)>)
    ensures
        r == object_kind(binary@),
{
    let file = object::File::parse(binary).ok()?;
    let format = match file.format() {
        object::BinaryFormat::Coff => ObjectFormat::Coff,
        object::BinaryFormat::Elf => ObjectFormat::Elf,
        object::BinaryFormat::MachO => ObjectFormat::MachO,
        object::BinaryFormat::Pe => ObjectFormat::Pe,
        object::BinaryFormat::Wasm => ObjectFormat::Wasm,
        object::BinaryFormat::Xcoff => ObjectFormat::Xcoff,
        _ => ObjectFormat::Other,
    };
    Some((format, file.is_little_endian()))
}

/// Why the debug information of a binary could not be set up.
#[derive(Debug, Clone, Copy, PartialEq, Eq)]
pub enum BinaryError {
    /// The file is not an object file the debugger can parse.
    Parsing,
    /// The file lacks one of the `.text`, `.got` and `.eh_frame` sections.
    MissingSection,
    /// The contents of the `.eh_frame` section cannot be read.
    DebugFrame,
}

/// The addresses of the `.text`, `.got` and `.eh_frame` sections of `binary`,
/// where it has all three.
pub open spec fn section_bases(binary: Seq<u8>) -> Option<SectionBases> {
    match (
        section_address(binary, ".text"@),
        section_address(binary, ".got"@),
        section_address(binary, ".eh_frame"@),
    ) {
        (Some(text), Some(got), Some(eh_frame)) => Some(SectionBases { text, got, eh_frame }),
        _ => None,
    }
}

/// What setting up `binary` fails with, if anything.
pub open spec fn load_error(binary: Seq<u8>) -> Option<BinaryError> {
    if object_kind(binary) is None {
        Some(BinaryError::Parsing)
    } else if section_bases(binary) is None {
        Some(BinaryError::MissingSection)
    } else if section_contents(binary, ".eh_frame"@) is None {
        Some(BinaryError::DebugFrame)
    } else {
        None
    }
}

/// The state of the line table once `s` starts a new line program.
pub open spec fn restart(s: IndexState) -> IndexState {
    IndexState { last_indexed: None, registered: Set::empty(), active: None, ..s }
}

/// The line table after the line programs `programs`, one after another, from `s`.
pub open spec fn index_programs(s: IndexState, programs: Seq<Vec<LineProgramRow>>) -> IndexState
    decreases programs.len(),
{
    if programs.len() == 0 {
        s
    } else {
        index_rows(restart(index_programs(s, programs.drop_last())), programs.last()@)
    }
}

/// `m1` is `m0` with the units `units` of a binary of format `format` read in,
/// with the section addresses `bases`, little-endian where `little_endian`.
pub open spec fn units_loaded(
    m0: DebuggerMetadataCache,
    m1: DebuggerMetadataCache,
    format: ObjectFormat,
    little_endian: bool,
    bases: SectionBases,
    units: Seq<UnitRecord>,
) -> bool {
    &&& m1.text_address == bases.text
    &&& m1.base_addresses == bases
    &&& m1.endian == (if little_endian {
        Endianness::Little
    } else {
        Endianness::Big
    })
    &&& m1.abi == abi_of(format)
    &&& m1.encoding == (if m0.encoding is None && units.len() > 0 {
        Some(units[0].encoding)
    } else {
        m0.encoding
    })
    &&& types_added(m0.type_index@, m1.type_index@, units_types(units, units.len() as int))
    &&& nodes_shape(m1.execution_scopes@) == nodes_shape(m0.execution_scopes@) + units_scopes(units, units.len() as int)
}

impl DebugSession {
    /// Sets up the debug information of the session from the object file
    /// `binary`: its format, byte order and section addresses with the
    /// compilation units `units` read from its DWARF, the rows of its line
    /// programs `programs` in order, and its call frame information; then the
    /// line rows are kept to the text section and sorted. Nothing changes
    /// where the file cannot be parsed, lacks a section or its call frame
    /// information cannot be read.
    pub fn load_debug_info(
        &mut self,
        binary: &[u8],
        units: &Vec<UnitRecord>,
        programs: &Vec<Vec<LineProgramRow>>,
    ) -> (r: Result<(), BinaryError>)
        requires
            old(self).interner.wf(),
        ensures
            match load_error(binary@) {
                Some(e) => r == Err::<(), BinaryError>(e) && *final(self) == *old(self),
                None => {
                    let (format, little_endian) = object_kind(binary@)->Some_0;
                    let bases = section_bases(binary@)->Some_0;
                    let end = index_programs(old(self).index_start(), programs@);
                    &&& r is Ok
                    &&& units_loaded(old(self).metadata, final(self).metadata, format, little_endian, bases, units@)
                    &&& final(self).raw_debug_frame.0@ == section_contents(binary@, ".eh_frame"@)->Some_0
                    &&& final(self).interner.wf()
                    &&& final(self).interner.strings() == end.strings
                    &&& crate::line_table::line_index_view(final(self).line_index@) == end.line_index
                    &&& crate::line_table::decl_order_view(final(self).file_declaration_order@) == end.decl_order
                    &&& final(self).line_row@.to_multiset() == rows_in_text(end.line_rows, bases.text).to_multiset()
                    &&& sorted_by_start(final(self).line_row@)
                    &&& forall|start: u64| #[trigger] starting_at(final(self).line_row@, start) == starting_at(
                        rows_in_text(end.line_rows, bases.text),
                        start,
                    )
                    &&& final(self).base_address == old(self).base_address
                    &&& final(self).pid == old(self).pid
                    &&& final(self).registers == old(self).registers
                    &&& final(self).current_cmd == old(self).current_cmd
                    &&& final(self).active_breakpoints@ == old(self).active_breakpoints@
                    &&& final(self).breakpoint_index_tracker@ == old(self).breakpoint_index_tracker@
                },
            },
    {
        let (format, little_endian) = match object_kind_of(binary) {
            Some(k) => k,
            None => return Err(BinaryError::Parsing),
        };
        let text = section_address_of(binary, ".text");
        let got = section_address_of(binary, ".got");
        let eh_frame = section_address_of(binary, ".eh_frame");
        let bases = match (text, got, eh_frame) {
            (Some(text), Some(got), Some(eh_frame)) => SectionBases { text, got, eh_frame },
            _ => return Err(BinaryError::MissingSection),
        };
        let frame = match section_contents_of(binary, ".eh_frame") {
            Some(d) => d,
            None => return Err(BinaryError::DebugFrame),
        };
        self.metadata.lookup_vars(bases.text, bases.got, bases.eh_frame, format, little_endian, units);
        let ghost m1 = self.metadata;
        let ghost s0 = old(self).index_start();
        let n = programs.len();
        let mut i: usize = 0;
        assert(restart(s0) == s0);
        while i < n
            invariant
                n == programs@.len(),
                i <= n,
                self.interner.wf(),
                s0 == old(self).index_start(),
                self.index_start() == restart(index_programs(s0, programs@.take(i as int))),
                self.metadata == m1,
                self.base_address == old(self).base_address,
                self.pid == old(self).pid,
                self.registers == old(self).registers,
                self.current_cmd == old(self).current_cmd,
                self.active_breakpoints@ == old(self).active_breakpoints@,
                self.breakpoint_index_tracker@ == old(self).breakpoint_index_tracker@,
            decreases n - i,
        {
            assert(programs@.take(i + 1).drop_last() =~= programs@.take(i as int));
            self.update_session_cache(&programs[i]);
            i = i + 1;
        }
        assert(programs@.take(n as int) =~= programs@);
        self.raw_debug_frame = RawDebugFrame(frame);
        self.set_up_line_row();
        Ok(())
    }
}

} // verus!
