use crate::decode::{advance_ip, decode_at, decoded, next_ip};
use crate::hex::{hex_upper, to_hex_upper};
use vstd::prelude::*;
use vstd::string::*;

verus! {

/// A direct near branch whose destination lies inside the stub section.
#[derive(Debug, Clone, Copy, PartialEq, Eq, Structural)]
pub struct Terminal {
    pub faddr: usize,
    pub vaddr: usize,
    pub target: usize,
}

/// A run of instructions that ends in a terminal.
#[derive(Debug, Clone, Copy, PartialEq, Eq, Structural)]
pub struct Gadget {
    pub faddr: usize,
    pub vaddr: usize,
    pub terminal: Terminal,
}

/// Decoding forward from index `pos` with the instruction pointer at `ip`
/// gives valid instructions that each fall through, and their lengths add
/// up to `end` exactly.
pub open spec fn falls_into(bytes: Seq<u8>, pos: int, ip: u64, end: int) -> bool
    decreases end - pos,
{
    if pos >= end {
        pos == end
    } else {
        let d = decoded(bytes, pos, ip);
        if d.invalid || !d.falls_through || d.len < 1 || pos + d.len > end {
            false
        } else {
            falls_into(bytes, pos + d.len, next_ip(ip, d.len), end)
        }
    }
}

/// A terminal in words: its address, `": call "` and its destination,
/// both in upper-case hexadecimal.
pub open spec fn terminal_text(t: Terminal) -> Seq<char> {
    hex_upper(t.vaddr as nat) + seq![':', ' ', 'c', 'a', 'l', 'l', ' '] + hex_upper(t.target as nat)
}

impl Terminal {
    /// The terminal in words.
    pub fn to_text(&self) -> (r: String)
        ensures
            r@ == terminal_text(*self),
    {
        let mut out = to_hex_upper(self.vaddr as u64);
        out.append(": call ");
        let target = to_hex_upper(self.target as u64);
        out.append(target.as_str());
        proof {
            reveal_strlit(": call ");
            assert(": call "@ =~= seq![':', ' ', 'c', 'a', 'l', 'l', ' ']);
        }
        out
    }
}

impl Gadget {
    /// Whether the bytes from the gadget's start decode as an unbroken
    /// fall-through run that lands exactly on its terminal.
    pub fn is_valid(&self, buffer: &[u8]) -> (r: bool)
        requires
            self.faddr <= buffer@.len(),
        ensures
            r == falls_into(
                buffer@,
                self.faddr as int,
                self.vaddr as u64,
                self.terminal.faddr as int,
            ),
    {
        let end = self.terminal.faddr;
        let len = buffer.len();
        let mut pos = self.faddr;
        let mut ip = self.vaddr as u64;
        while pos < end
            invariant
                pos <= buffer@.len() == len,
                end == self.terminal.faddr,
                falls_into(buffer@, self.faddr as int, self.vaddr as u64, end as int)
                    == falls_into(buffer@, pos as int, ip, end as int),
            decreases end - pos,
        {
            let d = decode_at(buffer, pos, ip);
            if !d.falls_through || d.invalid || d.len > end - pos {
                return false;
            }
            pos = pos + d.len;
            ip = advance_ip(ip, d.len);
        }
        pos == end
    }
}

} // verus!
