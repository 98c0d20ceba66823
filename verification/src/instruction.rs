//! The machine instruction at the debuggee's instruction pointer.
use vstd::prelude::*;

verus! {

/// `iced_x86`'s instruction code.
#[verifier::external_type_specification]
#[verifier::external_body]
pub struct ExCode(iced_x86::Code);

/// The length of the first instruction that a 64-bit decoder reads from
/// `bytes`, whether it is invalid, and its code.
pub uninterp spec fn x86_first_instruction(bytes: Seq<u8>) -> (usize, bool, iced_x86::Code);

/// `iced_x86::Decoder::with_ip(64, bytes, 0, DecoderOptions::NONE).decode()`:
/// the length of the decoded instruction, whether it is invalid (its code is
/// `Code::INVALID`, as for garbage or too few bytes), and its code. The
/// decoder reads `bytes` alone, so the same bytes decode the same.
#[verifier::external_body]
fn decode_first(bytes: &[u8]) -> (r: (usize, bool, iced_x86::Code))
    ensures
        r == x86_first_instruction(bytes@),
{
    let instruction = iced_x86::Decoder::with_ip(64, bytes, 0, iced_x86::DecoderOptions::NONE).decode();
    (instruction.len(), instruction.is_invalid(), instruction.code())
}

/// No instruction is there: every byte is zero.
pub open spec fn all_zero(bytes: Seq<u8>) -> bool {
    forall|i: int| 0 <= i < bytes.len() ==> bytes[i] == 0
}

/// The length and code of the instruction that `bytes` (read at the
/// instruction pointer) begin with; nothing where the bytes are all zero or
/// do not begin with a valid instruction.
pub fn get_instruction_info(bytes: &[u8]) -> (r: Option<(usize, iced_x86::Code)>)
    ensures
        all_zero(bytes@) ==> r is None,
        !all_zero(bytes@) ==> (r is Some <==> !x86_first_instruction(bytes@).1),
        r matches Some((len, _)) ==> len == x86_first_instruction(bytes@).0,
        r matches Some((_, c)) ==> c == x86_first_instruction(bytes@).2,
{
    let n = bytes.len();
    let mut i: usize = 0;
    while i < n && bytes[i] == 0
        invariant
            n == bytes@.len(),
            i <= n,
            forall|j: int| 0 <= j < i ==> bytes@[j] == 0,
        decreases n - i,
    {
        i = i + 1;
    }
    if i == n {
        return None;
    }
    let (len, invalid, code) = decode_first(bytes);
    if invalid {
        return None;
    }
    Some((len, code))
}

} // verus!
