//! The decisions taken while a variable's DWARF location program runs: the
//! evaluator of the program asks for the frame base or for values in memory,
//! and finally gives the pieces of the location.
use crate::decode::{reads_bytes, reads_words, MAX_VALUE_DEPTH};
use crate::dwarf::{frame_base_value, Abi, RegisterViewer, TypeCacheNode};
use crate::fxmap::fx_get;
use crate::menu::VariableParseError;
use crate::sys::SystemError;
use crate::layout::{lemma_word_read, value_of, word_at, ValueView};
use crate::value::DebugValue;
use rustc_hash::FxHashMap;
use vstd::prelude::*;

verus! {

/// What the evaluation of a location program asks for next.
#[derive(Debug, Clone, Copy, PartialEq, Eq)]
pub enum LocationRequest {
    /// The program is done; the address of its first piece, where that piece
    /// is in memory.
    Complete(Option<u64>),
    /// The value of the frame base (`DW_OP_fbreg`).
    FrameBase,
    /// A value from memory at `address`, of the base type whose entry is at
    /// `.debug_info` offset `base_type` (0 for a plain machine word).
    Memory { address: u64, base_type: usize },
}

/// How the evaluation goes on.
#[derive(Debug, Clone, PartialEq, Eq)]
pub enum LocationStep {
    /// Resume with this frame base.
    FrameBase(u64),
    /// Resume with this unsigned value from memory.
    Unsigned(u64),
    /// Resume with this signed value from memory.
    Signed(i64),
    /// Stop: the variable is at this address, or has none.
    Done(Option<u64>),
    /// Stop: the evaluation failed.
    Failed(VariableParseError),
}

/// `r` answers a typed memory request by what was read there: an integer
/// resumes the evaluation, no value ends it without an address, any other
/// value fails it, and so does a failed read.
pub open spec fn typed_answer(read: Result<Option<ValueView>, SystemError>, r: LocationStep) -> bool {
    match read {
        Err(e) => r == LocationStep::Failed(VariableParseError::System(e)),
        Ok(None) => r == LocationStep::Done(None),
        Ok(Some(ValueView::Integer(i))) => r == LocationStep::Signed(i),
        Ok(Some(ValueView::Unsigned(u))) => r == LocationStep::Unsigned(u),
        Ok(Some(_)) => r matches LocationStep::Failed(VariableParseError::Expression(m)) && m@
            == "a typed memory value is not an integer"@,
    }
}

/// The text of the error for a typed value that is not an integer.
fn not_integer_message() -> (r: String)
    ensures
        r@ == "a typed memory value is not an integer"@,
{
    String::from_str("a typed memory value is not an integer")
}

/// The next step of a location program's evaluation. A finished program gives
/// its address. The frame base is computed from the scope's frame-base
/// program `frame_base` with the registers of the stop. A plain word is read
/// through `peek`; a typed value is read as its type from `type_index` says
/// (nothing when the type is not known), and must be an integer.
pub fn location_step<P, B>(
    request: LocationRequest,
    frame_base: &Vec<u8>,
    regs: &RegisterViewer,
    abi: &Abi,
    type_index: &FxHashMap<usize, TypeCacheNode>,
    peek: &P,
    read_bytes: &B,
) -> (r: LocationStep) where
    P: Fn(u64) -> Result<i64, SystemError>,
    B: Fn(usize, usize) -> Result<Vec<u8>, SystemError>,

    requires
        reads_words(peek),
        reads_bytes(read_bytes),
        request is FrameBase ==> frame_base_value(frame_base@, *regs, *abi) is Some,
    ensures
        match request {
            LocationRequest::Complete(a) => r == LocationStep::Done(a),
            LocationRequest::FrameBase => Some(r->FrameBase_0) == frame_base_value(
                frame_base@,
                *regs,
                *abi,
            ) && r is FrameBase,
            LocationRequest::Memory { address, base_type } => if base_type == 0 {
                match word_at(peek, address) {
                    Ok(w) => r == LocationStep::Unsigned(w as u64),
                    Err(e) => r == LocationStep::Failed(VariableParseError::System(e)),
                }
            } else if !type_index@.contains_key(base_type) {
                r == LocationStep::Done(None)
            } else {
                typed_answer(
                    value_of(type_index@[base_type].dwarf_type, type_index@, address, peek, read_bytes, MAX_VALUE_DEPTH as nat),
                    r,
                )
            },
        },
{
    match request {
        LocationRequest::Complete(a) => LocationStep::Done(a),
        LocationRequest::FrameBase => LocationStep::FrameBase(
            crate::dwarf::evaluate_frame_base_bytes(frame_base.as_slice(), regs, abi),
        ),
        LocationRequest::Memory { address, base_type } => {
            if base_type == 0 {
                let res = peek(address);
                proof {
                    lemma_word_read(peek, address, res);
                }
                match res {
                    Ok(w) => LocationStep::Unsigned(w as u64),
                    Err(e) => LocationStep::Failed(VariableParseError::System(e)),
                }
            } else {
                let ty = match fx_get(type_index, &base_type) {
                    Some(t) => t,
                    None => return LocationStep::Done(None),
                };
                match ty.dwarf_type.to_debug_value(type_index, address, peek, read_bytes) {
                    Err(e) => LocationStep::Failed(VariableParseError::System(e)),
                    Ok(None) => LocationStep::Done(None),
                    Ok(Some(DebugValue::Integer(i))) => LocationStep::Signed(i),
                    Ok(Some(DebugValue::Unsigned(u))) => LocationStep::Unsigned(u),
                    Ok(Some(_)) => LocationStep::Failed(VariableParseError::Expression(not_integer_message())),
                }
            }
        },
    }
}

} // verus!
