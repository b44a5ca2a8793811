use vstd::prelude::*;

verus! {

/// What the analysis reads from one decoded instruction.
#[derive(Debug, Clone, Copy, PartialEq, Eq, Structural)]
pub struct Decoded {
    /// Bytes consumed: `Instruction::len`.
    pub len: usize,
    /// The bytes are no instruction: `Instruction::is_invalid`.
    pub invalid: bool,
    /// Control continues at the next instruction, always:
    /// `Instruction::flow_control` is `FlowControl::Next`.
    pub falls_through: bool,
    /// The first operand is a 64-bit near branch immediate:
    /// `Instruction::op0_kind` is `OpKind::NearBranch64`.
    pub near_branch: bool,
    /// The absolute destination of such a branch:
    /// `Instruction::near_branch64`.
    pub branch_target: u64,
    /// The instruction is `endbr64`: `Instruction::mnemonic` is
    /// `Mnemonic::Endbr64`.
    pub endbr64: bool,
    /// The first operand is a memory operand: `Instruction::op0_kind` is
    /// `OpKind::Memory`.
    pub memory_operand: bool,
    /// The absolute address such a memory operand's displacement comes
    /// to: `Instruction::memory_displacement64`.
    pub memory_address: u64,
}

/// The longest x86 instruction, in bytes.
pub const MAX_INSTRUCTION_LEN: usize = 15;

/// What the 64-bit decoder of `iced_x86` makes of `bytes` from index `pos`
/// on, with the instruction pointer at `ip`.
pub uninterp spec fn decoded(bytes: Seq<u8>, pos: int, ip: u64) -> Decoded;

/// The instruction pointer behind an instruction of `len` bytes at `ip`.
pub open spec fn next_ip(ip: u64, len: usize) -> u64 {
    if ip + len > u64::MAX {
        (ip + len - 0x1_0000_0000_0000_0000) as u64
    } else {
        (ip + len) as u64
    }
}

/// Runs `iced_x86::Decoder::decode` once, in 64-bit mode without options,
/// at index `pos` of `bytes` with the instruction pointer `ip`, and reads
/// from the instruction what `Decoded` holds.
///
/// Trusted: the result is a function of the three arguments; an
/// instruction is at most 15 bytes long and ends inside the buffer; where
/// a byte is left at least one is consumed, and where none is left the
/// result is invalid and empty. The decoder does not panic.
#[verifier::external_body]
pub(crate) fn decode_at(bytes: &[u8], pos: usize, ip: u64) -> (r: Decoded)
    requires
        pos <= bytes@.len(),
    ensures
        r == decoded(bytes@, pos as int, ip),
        r.len <= MAX_INSTRUCTION_LEN,
        pos + r.len <= bytes@.len(),
        pos < bytes@.len() ==> r.len >= 1,
        pos == bytes@.len() ==> r.invalid,
    no_unwind
{
    let mut decoder = iced_x86::Decoder::with_ip(64, bytes, ip, iced_x86::DecoderOptions::NONE);
    decoder.set_position(pos).unwrap();
    let instr = decoder.decode();
    Decoded {
        len: instr.len(),
        invalid: instr.is_invalid(),
        falls_through: instr.flow_control() == iced_x86::FlowControl::Next,
        near_branch: instr.op0_kind() == iced_x86::OpKind::NearBranch64,
        branch_target: instr.near_branch64(),
        endbr64: instr.mnemonic() == iced_x86::Mnemonic::Endbr64,
        memory_operand: instr.op0_kind() == iced_x86::OpKind::Memory,
        memory_address: instr.memory_displacement64(),
    }
}

/// Steps the instruction pointer over `len` bytes, wrapping as the decoder
/// does.
pub fn advance_ip(ip: u64, len: usize) -> (r: u64)
    ensures
        r == next_ip(ip, len),
{
    ip.wrapping_add(len as u64)
}

} // verus!
