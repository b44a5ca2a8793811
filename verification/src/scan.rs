use crate::decode::{decode_at, decoded};
use crate::elf::{
    addressable, executable_sections_of, find_section, plt_section_name, ElfImage, ElfImageView,
    ExecutableSection, NamedSectionBounds,
};
use crate::error::Error;
use crate::gadget::{falls_into, Gadget, Terminal};
use vstd::prelude::*;

verus! {

/// How far back from a terminal a gadget may begin: prefix lengths run
/// from 1 up to, and not including, this.
pub const MAX_GADGET_PREFIX: usize = 256;

/// Every offset of the section can be handed to the decoder: its file
/// position lies in the buffer or at its end, and its address fits the
/// machine word.
pub open spec fn scannable(sec: ExecutableSection, len: int) -> bool {
    &&& sec.vaddr + sec.size <= usize::MAX
    &&& sec.size > 0 ==> sec.faddr + sec.size - 1 <= len
}

pub open spec fn all_scannable(sections: Seq<ExecutableSection>, len: int) -> bool {
    forall|i: int| 0 <= i < sections.len() ==> scannable(#[trigger] sections[i], len)
}

/// The address lies in the stub section.
pub open spec fn in_plt(plt: NamedSectionBounds, target: u64) -> bool {
    plt.vaddr <= target < plt.vaddr + plt.size
}

/// The terminal at offset `o` of a section, if the bytes there decode to a
/// valid instruction whose first operand is a near branch into the stub
/// section. Jumps count as much as calls.
pub open spec fn terminal_at(
    bytes: Seq<u8>,
    sec: ExecutableSection,
    plt: NamedSectionBounds,
    o: int,
) -> Option<Terminal> {
    let d = decoded(bytes, sec.faddr + o, (sec.vaddr + o) as u64);
    if !d.invalid && d.near_branch && in_plt(plt, d.branch_target) {
        Some(
            Terminal {
                faddr: (sec.faddr + o) as usize,
                vaddr: (sec.vaddr + o) as usize,
                target: d.branch_target as usize,
            },
        )
    } else {
        None
    }
}

/// The gadget that begins `l` bytes before a terminal.
pub open spec fn gadget_before(t: Terminal, l: int) -> Gadget {
    Gadget { faddr: (t.faddr - l) as usize, vaddr: (t.vaddr - l) as usize, terminal: t }
}

/// The gadgets of one terminal with a prefix of at least `from` bytes, in
/// ascending length. A prefix is no longer than `limit`, the terminal's
/// offset in its section, and shorter than `MAX_GADGET_PREFIX`; it counts
/// if it falls through into the terminal.
pub open spec fn prefixes(bytes: Seq<u8>, t: Terminal, limit: int, from: int) -> Seq<Gadget>
    decreases MAX_GADGET_PREFIX - from,
{
    if from > limit || from >= MAX_GADGET_PREFIX {
        Seq::empty()
    } else {
        let g = gadget_before(t, from);
        let rest = prefixes(bytes, t, limit, from + 1);
        if falls_into(bytes, g.faddr as int, g.vaddr as u64, t.faddr as int) {
            seq![g] + rest
        } else {
            rest
        }
    }
}

/// The terminals of a section at offsets from `from` on, ascending.
pub open spec fn section_terminals(
    bytes: Seq<u8>,
    sec: ExecutableSection,
    plt: NamedSectionBounds,
    from: int,
) -> Seq<Terminal>
    decreases sec.size - from,
{
    if from >= sec.size {
        Seq::empty()
    } else {
        let rest = section_terminals(bytes, sec, plt, from + 1);
        match terminal_at(bytes, sec, plt, from) {
            Some(t) => seq![t] + rest,
            None => rest,
        }
    }
}

/// The gadgets of the terminals of a section at offsets from `from` on.
pub open spec fn section_gadgets(
    bytes: Seq<u8>,
    sec: ExecutableSection,
    plt: NamedSectionBounds,
    from: int,
) -> Seq<Gadget>
    decreases sec.size - from,
{
    if from >= sec.size {
        Seq::empty()
    } else {
        let rest = section_gadgets(bytes, sec, plt, from + 1);
        match terminal_at(bytes, sec, plt, from) {
            Some(t) => prefixes(bytes, t, from, 1) + rest,
            None => rest,
        }
    }
}

/// The terminals from offset `o` of section `s` on: the sections in the
/// order given, the offsets of each ascending.
pub open spec fn terminals_from(
    bytes: Seq<u8>,
    sections: Seq<ExecutableSection>,
    plt: NamedSectionBounds,
    s: int,
    o: int,
) -> Seq<Terminal>
    decreases sections.len() - s,
{
    if s < 0 || s >= sections.len() {
        Seq::empty()
    } else {
        section_terminals(bytes, sections[s], plt, o) + terminals_from(
            bytes,
            sections,
            plt,
            s + 1,
            0,
        )
    }
}

/// The gadgets of the terminals from offset `o` of section `s` on.
pub open spec fn gadgets_from(
    bytes: Seq<u8>,
    sections: Seq<ExecutableSection>,
    plt: NamedSectionBounds,
    s: int,
    o: int,
) -> Seq<Gadget>
    decreases sections.len() - s,
{
    if s < 0 || s >= sections.len() {
        Seq::empty()
    } else {
        section_gadgets(bytes, sections[s], plt, o) + gadgets_from(bytes, sections, plt, s + 1, 0)
    }
}

/// Why an image cannot be scanned, if it cannot: it has no `.plt.sec`, or
/// that section or an executable one is out of bounds.
pub open spec fn scan_failure(bytes: Seq<u8>, image: ElfImageView) -> Option<Error> {
    match find_section(image.sections, plt_section_name()) {
        None => Some(Error::SectionNotFound),
        Some(plt) => if addressable(plt) && all_scannable(
            executable_sections_of(image.sections),
            bytes.len() as int,
        ) {
            None
        } else {
            Some(Error::OutOfBounds)
        },
    }
}

/// Every terminal of an image.
pub open spec fn all_terminals(bytes: Seq<u8>, image: ElfImageView) -> Seq<Terminal> {
    terminals_from(
        bytes,
        executable_sections_of(image.sections),
        find_section(image.sections, plt_section_name())->0,
        0,
        0,
    )
}

/// Every gadget of an image.
pub open spec fn all_gadgets(bytes: Seq<u8>, image: ElfImageView) -> Seq<Gadget> {
    gadgets_from(
        bytes,
        executable_sections_of(image.sections),
        find_section(image.sections, plt_section_name())->0,
        0,
        0,
    )
}

/// Walks every byte offset of every executable section and yields the
/// terminals found, one at each call.
pub struct GadgetTerminalIterator<'a> {
    buffer: &'a [u8],
    len: usize,
    sections: Vec<ExecutableSection>,
    plt: NamedSectionBounds,
    section: usize,
    offset: u64,
}

impl<'a> GadgetTerminalIterator<'a> {
    #[verifier::type_invariant]
    spec fn wf(&self) -> bool {
        &&& self.len == self.buffer@.len()
        &&& addressable(self.plt)
        &&& all_scannable(self.sections@, self.buffer@.len() as int)
        &&& self.section <= self.sections@.len()
        &&& self.section < self.sections@.len() ==> self.offset
            <= self.sections@[self.section as int].size
    }

    /// The buffer that is scanned.
    pub closed spec fn bytes(&self) -> Seq<u8> {
        self.buffer@
    }

    /// The terminals still to come.
    pub closed spec fn remaining(&self) -> Seq<Terminal> {
        terminals_from(
            self.buffer@,
            self.sections@,
            self.plt,
            self.section as int,
            self.offset as int,
        )
    }

    /// The gadgets of the terminals still to come.
    pub closed spec fn remaining_gadgets(&self) -> Seq<Gadget> {
        gadgets_from(
            self.buffer@,
            self.sections@,
            self.plt,
            self.section as int,
            self.offset as int,
        )
    }

    /// Prepares the scan of an image. Fails where the image has no
    /// `.plt.sec`, or where that section or an executable one is out of
    /// bounds.
    pub fn new(buffer: &'a [u8], elf: &ElfImage) -> (r: Result<Self, Error>)
        ensures
            match scan_failure(buffer@, elf@) {
                Some(e) => r matches Err(got) && got == e,
                None => r matches Ok(it) && it.bytes() == buffer@ && it.remaining()
                    == all_terminals(buffer@, elf@) && it.remaining_gadgets() == all_gadgets(
                    buffer@,
                    elf@,
                ),
            },
    {
        let plt = match elf.named_section(".plt.sec") {
            Ok(plt) => plt,
            Err(e) => {
                return Err(e);
            },
        };
        if plt.size > usize::MAX as u64 || plt.vaddr > usize::MAX as u64 - plt.size {
            return Err(Error::OutOfBounds);
        }
        let sections = elf.executable_sections();
        let len = buffer.len();
        let n = sections.len();
        let mut i: usize = 0;
        while i < n
            invariant
                i <= n == sections@.len(),
                len == buffer@.len(),
                find_section(elf@.sections, plt_section_name()) == Some(plt),
                addressable(plt),
                sections@ == executable_sections_of(elf@.sections),
                forall|j: int| 0 <= j < i ==> scannable(#[trigger] sections@[j], len as int),
            decreases n - i,
        {
            let sec = sections[i];
            let fits = sec.size <= usize::MAX as u64 && sec.vaddr <= usize::MAX as u64 - sec.size;
            let inside = sec.size == 0 || (sec.faddr <= len as u64 && sec.size - 1 <= len as u64
                - sec.faddr);
            if !fits || !inside {
                assert(!scannable(sections@[i as int], len as int));
                return Err(Error::OutOfBounds);
            }
            i = i + 1;
        }
        Ok(GadgetTerminalIterator { buffer, len, sections, plt, section: 0, offset: 0 })
    }

    /// The next terminal with its offset in its section.
    pub fn next_site(&mut self) -> (r: Option<(Terminal, u64)>)
        ensures
            final(self).bytes() == old(self).bytes(),
            match r {
                Some((t, o)) => {
                    &&& old(self).remaining() == seq![t] + final(self).remaining()
                    &&& old(self).remaining_gadgets() == prefixes(old(self).bytes(), t, o as int, 1)
                        + final(self).remaining_gadgets()
                    &&& o <= t.faddr < old(self).bytes().len()
                    &&& o <= t.vaddr
                },
                None => {
                    &&& old(self).remaining() == Seq::<Terminal>::empty()
                    &&& old(self).remaining_gadgets() == Seq::<Gadget>::empty()
                    &&& final(self).remaining() == Seq::<Terminal>::empty()
                    &&& final(self).remaining_gadgets() == Seq::<Gadget>::empty()
                },
            },
        no_unwind
    {
        loop
            invariant
                self.buffer@ == old(self).buffer@,
                self.remaining() == old(self).remaining(),
                self.remaining_gadgets() == old(self).remaining_gadgets(),
            decreases
                    self.sections@.len() - self.section,
                    if self.section < self.sections@.len() {
                        self.sections@[self.section as int].size - self.offset
                    } else {
                        0
                    },
        {
            proof {
                use_type_invariant(&*self);
            }
            if self.section >= self.sections.len() {
                return None;
            }
            let sec = self.sections[self.section];
            if self.offset >= sec.size {
                self.offset = 0;
                self.section = self.section + 1;
            } else {
                let o = self.offset;
                self.offset = o + 1;
                let faddr = (sec.faddr + o) as usize;
                let vaddr = sec.vaddr + o;
                let d = decode_at(self.buffer, faddr, vaddr);
                if !d.invalid && d.near_branch && self.plt.vaddr <= d.branch_target
                    && d.branch_target - self.plt.vaddr < self.plt.size {
                    let t = Terminal {
                        faddr,
                        vaddr: vaddr as usize,
                        target: d.branch_target as usize,
                    };
                    return Some((t, o));
                }
            }
        }
    }

    /// The next terminal, or `None` when every offset has been examined.
    pub fn next(&mut self) -> (r: Option<Terminal>)
        ensures
            final(self).bytes() == old(self).bytes(),
            old(self).remaining().len() == 0 ==> r is None && final(self).remaining()
                == old(self).remaining(),
            old(self).remaining().len() > 0 ==> r == Some(old(self).remaining()[0])
                && final(self).remaining() == old(self).remaining().skip(1),
    {
        match self.next_site() {
            Some((t, _)) => {
                proof {
                    assert((seq![t] + self.remaining()).skip(1) == self.remaining());
                }
                Some(t)
            },
            None => None,
        }
    }
}

} // verus!
