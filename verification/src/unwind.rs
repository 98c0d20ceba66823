//! The return address of the frame the debuggee is stopped in, found through
//! the call frame information of its `.eh_frame` section.
use crate::decode::reads_words;
use crate::dwarf::{Endianness, RawDebugFrame, RegisterViewer, SectionBases};
use crate::session::DebugSession;
use crate::stepping::relative;
use crate::sys::SystemError;
use gimli::{BaseAddresses, EhFrame, RegisterRule, RunTimeEndian, UnwindContext, UnwindSection};
use vstd::prelude::*;

verus! {

/// How the canonical frame address of a frame is found.
#[derive(Debug, Clone, Copy, PartialEq, Eq)]
pub enum CfaRule {
    /// The value of a DWARF register plus an offset.
    RegisterAndOffset { register: u16, offset: i64 },
    /// A DWARF expression, which is not evaluated here.
    Expression,
}

/// How the return address of a frame is found.
#[derive(Debug, Clone, Copy, PartialEq, Eq)]
pub enum ReturnAddressRule {
    /// Stored in memory at the canonical frame address plus an offset.
    Offset(i64),
    /// Held in a DWARF register.
    Register(u16),
    /// Any other rule, which is not followed here.
    Other,
}

/// The row of the unwind table that covers an address: its frame address
/// rule, and the rule of the return address register if the row has one.
#[derive(Debug, Clone, Copy, PartialEq, Eq)]
pub struct UnwindRow {
    pub cfa: CfaRule,
    pub return_address: Option<ReturnAddressRule>,
}

/// The unwind row that covers `pc` according to the `.eh_frame` section
/// `frame` (read in big-endian byte order when `big_endian`) with the given
/// text, GOT and `.eh_frame` section addresses; nothing where the section has
/// no entry for `pc` or cannot be parsed.
pub uninterp spec fn eh_frame_row(
    frame: Seq<u8>,
    big_endian: bool,
    text: u64,
    got: u64,
    eh_frame: u64,
    pc: u64,
) -> Option<UnwindRow>;

/// gimli's `UnwindSection::fde_for_address` on the `.eh_frame` section,
/// then `FrameDescriptionEntry::unwind_info_for_address` for `pc`, keeping
/// the row's frame address rule. The contract only names the row: the same
/// section, byte order, section addresses and `pc` give the same row.
#[verifier::external_body]
fn cfa_rule_at(frame: &RawDebugFrame, endian: Endianness, bases: SectionBases, pc: u64) -> (r:
    Option<CfaRule>)
    ensures
        r == match eh_frame_row(frame.0@, endian is Big, bases.text, bases.got, bases.eh_frame, pc) {
            Some(row) => Some(row.cfa),
            None => None,
        },
{
    let e = match endian { Endianness::Little => RunTimeEndian::Little, Endianness::Big => RunTimeEndian::Big };
    let s = EhFrame::new(frame.0.as_slice(), e);
    let b = BaseAddresses::default().set_text(bases.text).set_got(bases.got).set_eh_frame(bases.eh_frame);
    let fde = s.fde_for_address(&b, pc, EhFrame::cie_from_offset).ok()?;
    match *fde.unwind_info_for_address(&s, &b, &mut UnwindContext::new(), pc).ok()?.cfa() {
        gimli::CfaRule::RegisterAndOffset { register, offset } => Some(CfaRule::RegisterAndOffset { register: register.0, offset }),
        gimli::CfaRule::Expression(_) => Some(CfaRule::Expression),
    }
}

/// The same lookup as `cfa_rule_at`, keeping the row's rule for the return
/// address register that the entry's CIE names (`RegisterRule::Offset` and
/// `RegisterRule::Register` read, every other rule as `Other`).
#[verifier::external_body]
fn return_address_rule_at(frame: &RawDebugFrame, endian: Endianness, bases: SectionBases, pc: u64) -> (r:
    Option<Option<ReturnAddressRule>>)
    ensures
        r == match eh_frame_row(frame.0@, endian is Big, bases.text, bases.got, bases.eh_frame, pc) {
            Some(row) => Some(row.return_address),
            None => None,
        },
{
    let e = match endian { Endianness::Little => RunTimeEndian::Little, Endianness::Big => RunTimeEndian::Big };
    let s = EhFrame::new(frame.0.as_slice(), e);
    let b = BaseAddresses::default().set_text(bases.text).set_got(bases.got).set_eh_frame(bases.eh_frame);
    let fde = s.fde_for_address(&b, pc, EhFrame::cie_from_offset).ok()?;
    let ra = fde.cie().return_address_register();
    Some(match fde.unwind_info_for_address(&s, &b, &mut UnwindContext::new(), pc).ok()?.register(ra) {
        Some(RegisterRule::Offset(o)) => Some(ReturnAddressRule::Offset(o)),
        Some(RegisterRule::Register(reg)) => Some(ReturnAddressRule::Register(reg.0)),
        Some(_) => Some(ReturnAddressRule::Other),
        None => None,
    })
}

/// The value of x86-64 DWARF register `register` at the stop: the base
/// pointer (6), the stack pointer (7) or the instruction pointer (16).
pub open spec fn dwarf_register(regs: RegisterViewer, register: u16) -> Option<u64> {
    if register == 6 {
        Some(regs.regs.rbp)
    } else if register == 7 {
        Some(regs.regs.rsp)
    } else if register == 16 {
        Some(regs.regs.rip)
    } else {
        None
    }
}

/// `base + offset` for a signed offset, wrapping around.
pub open spec fn offset_address(base: u64, offset: i64) -> u64 {
    if base + offset > u64::MAX {
        (base + offset - 0x1_0000_0000_0000_0000) as u64
    } else if base + offset < 0 {
        (base + offset + 0x1_0000_0000_0000_0000) as u64
    } else {
        (base + offset) as u64
    }
}

/// The canonical frame address by `rule` at the stop.
pub open spec fn cfa_value(rule: CfaRule, regs: RegisterViewer) -> Option<u64> {
    match rule {
        CfaRule::RegisterAndOffset { register, offset } => match dwarf_register(regs, register) {
            Some(v) => Some(offset_address(v, offset)),
            None => None,
        },
        CfaRule::Expression => None,
    }
}

/// `r` is what reading the word at `address` through `peek` gave: the word,
/// or nothing where the read failed.
pub open spec fn read_outcome<P: Fn(u64) -> Result<i64, SystemError>>(peek: &P, address: u64, r: Option<u64>) -> bool {
    match r {
        Some(v) => exists|w: i64|
            #[trigger] peek.ensures((address,), Ok::<i64, SystemError>(w)) && v == #[verifier::truncate] (w as u64),
        None => exists|e: SystemError| #[trigger] peek.ensures((address,), Err::<i64, SystemError>(e)),
    }
}

impl DebugSession {
    /// The value of x86-64 DWARF register `register` by the recorded registers.
    pub fn get_register_value(&self, register: u16) -> (r: Option<u64>)
        ensures
            r == match self.registers {
                Some(regs) => dwarf_register(regs, register),
                None => None,
            },
    {
        match self.registers {
            Some(regs) => if register == 6 {
                Some(regs.base_pointer())
            } else if register == 7 {
                Some(regs.stack_pointer())
            } else if register == 16 {
                Some(regs.instruction_pointer())
            } else {
                None
            },
            None => None,
        }
    }

    /// The unwind row for the instruction the debuggee is stopped at.
    pub open spec fn unwind_row_now(&self, regs: RegisterViewer) -> Option<UnwindRow> {
        eh_frame_row(
            self.raw_debug_frame.0@,
            self.metadata.endian is Big,
            self.metadata.base_addresses.text,
            self.metadata.base_addresses.got,
            self.metadata.base_addresses.eh_frame,
            relative(self.base_address, regs.regs.rip),
        )
    }

    /// The return address of the frame the debuggee is stopped in, by the
    /// unwind row of the current instruction: read through `peek` from the
    /// slot at the frame address plus an offset, or taken from a register.
    /// Nothing without recorded registers, without a row, where the frame
    /// address or the return address follows a rule not handled here, or
    /// where the read fails.
    #[verifier::spinoff_prover]
    pub fn get_return_address<P: Fn(u64) -> Result<i64, SystemError>>(&self, peek: &P) -> (r: Option<u64>)
        requires
            reads_words(peek),
        ensures
            match self.registers {
                None => r is None,
                Some(regs) => match self.unwind_row_now(regs) {
                    None => r is None,
                    Some(row) => match cfa_value(row.cfa, regs) {
                        None => r is None,
                        Some(cfa) => match row.return_address {
                            Some(ReturnAddressRule::Offset(o)) => read_outcome(
                                peek,
                                offset_address(cfa, o),
                                r,
                            ),
                            Some(ReturnAddressRule::Register(reg)) => r == dwarf_register(regs, reg),
                            _ => r is None,
                        },
                    },
                },
            },
    {
        let regs = match self.registers {
            Some(regs) => regs,
            None => return None,
        };
        let pc = regs.instruction_pointer().wrapping_sub(self.base_address);
        let cfa_rule = match cfa_rule_at(
            &self.raw_debug_frame,
            self.metadata.endian,
            self.metadata.base_addresses,
            pc,
        ) {
            Some(rule) => rule,
            None => return None,
        };
        let cfa = match cfa_rule {
            CfaRule::RegisterAndOffset { register, offset } => match self.get_register_value(register) {
                Some(v) => v.wrapping_add_signed(offset),
                None => return None,
            },
            CfaRule::Expression => return None,
        };
        let return_address = match return_address_rule_at(
            &self.raw_debug_frame,
            self.metadata.endian,
            self.metadata.base_addresses,
            pc,
        ) {
            Some(rule) => rule,
            None => return None,
        };
        match return_address {
            Some(ReturnAddressRule::Offset(o)) => {
                let slot = cfa.wrapping_add_signed(o);
                let got = peek(slot);
                match got {
                    Ok(w) => {
                        assert(peek.ensures((offset_address(cfa, o),), Ok::<i64, SystemError>(w)));
                        Some(#[verifier::truncate] (w as u64))
                    },
                    Err(e) => {
                        assert(peek.ensures((offset_address(cfa, o),), Err::<i64, SystemError>(e)));
                        None
                    },
                }
            },
            Some(ReturnAddressRule::Register(reg)) => self.get_register_value(reg),
            _ => None,
        }
    }
}

} // verus!
