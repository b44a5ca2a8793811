use crate::decode::decoded;
use crate::elf::{
    executable_sections_of, find_section, plt_section_name, ElfImageView, ExecutableSection,
    NamedSectionBounds,
};
use crate::enumerate::gadgets_of_buffer;
use crate::gadget::{falls_into, Gadget, Terminal};
use crate::scan::{
    all_gadgets, all_scannable, all_terminals, gadgets_from, in_plt, prefixes, scan_failure,
    scannable, section_gadgets, section_terminals, terminal_at, terminals_from,
    MAX_GADGET_PREFIX,
};
use vstd::prelude::*;

verus! {

/// The terminal is the one found at its own offset of the section.
pub open spec fn terminal_of_section(
    bytes: Seq<u8>,
    sec: ExecutableSection,
    plt: NamedSectionBounds,
    t: Terminal,
) -> bool {
    let o = t.faddr - sec.faddr;
    &&& 0 <= o < sec.size
    &&& t.vaddr - sec.vaddr == o
    &&& terminal_at(bytes, sec, plt, o) == Some(t)
}

/// The gadget ends in a terminal of the section, begins inside the
/// section and no more than the longest prefix before its terminal, lies
/// as far from its terminal in memory as in the file, and falls through
/// into it.
pub open spec fn gadget_of_section(
    bytes: Seq<u8>,
    sec: ExecutableSection,
    plt: NamedSectionBounds,
    g: Gadget,
) -> bool {
    let t = g.terminal;
    let l = t.faddr - g.faddr;
    &&& terminal_of_section(bytes, sec, plt, t)
    &&& 1 <= l <= t.faddr - sec.faddr
    &&& l < MAX_GADGET_PREFIX
    &&& t.vaddr - g.vaddr == l
    &&& falls_into(bytes, g.faddr as int, g.vaddr as u64, t.faddr as int)
}

/// Each section ends before the next begins, in memory.
pub open spec fn ascending(sections: Seq<ExecutableSection>) -> bool {
    forall|a: int, b: int|
        0 <= a < b < sections.len() ==> (#[trigger] sections[a]).vaddr + sections[a].size <= (
        #[trigger] sections[b]).vaddr
}

proof fn lemma_section_terminal(
    bytes: Seq<u8>,
    sec: ExecutableSection,
    plt: NamedSectionBounds,
    from: int,
    i: int,
)
    requires
        bytes.len() <= usize::MAX,
        scannable(sec, bytes.len() as int),
        0 <= from,
        0 <= i < section_terminals(bytes, sec, plt, from).len(),
    ensures
        terminal_of_section(bytes, sec, plt, section_terminals(bytes, sec, plt, from)[i]),
        section_terminals(bytes, sec, plt, from)[i].faddr - sec.faddr >= from,
    decreases sec.size - from,
{
    if from < sec.size {
        let rest = section_terminals(bytes, sec, plt, from + 1);
        match terminal_at(bytes, sec, plt, from) {
            Some(t) => {
                if i > 0 {
                    lemma_section_terminal(bytes, sec, plt, from + 1, i - 1);
                    assert((seq![t] + rest)[i] == rest[i - 1]);
                }
            },
            None => {
                lemma_section_terminal(bytes, sec, plt, from + 1, i);
            },
        }
    }
}

proof fn lemma_section_terminals_ascend(
    bytes: Seq<u8>,
    sec: ExecutableSection,
    plt: NamedSectionBounds,
    from: int,
    i: int,
    j: int,
)
    requires
        bytes.len() <= usize::MAX,
        scannable(sec, bytes.len() as int),
        0 <= from,
        0 <= i < j < section_terminals(bytes, sec, plt, from).len(),
    ensures
        section_terminals(bytes, sec, plt, from)[i].vaddr < section_terminals(
            bytes,
            sec,
            plt,
            from,
        )[j].vaddr,
    decreases sec.size - from,
{
    if from < sec.size {
        let rest = section_terminals(bytes, sec, plt, from + 1);
        match terminal_at(bytes, sec, plt, from) {
            Some(t) => {
                assert((seq![t] + rest)[j] == rest[j - 1]);
                if i > 0 {
                    assert((seq![t] + rest)[i] == rest[i - 1]);
                    lemma_section_terminals_ascend(bytes, sec, plt, from + 1, i - 1, j - 1);
                } else {
                    lemma_section_terminal(bytes, sec, plt, from + 1, j - 1);
                }
            },
            None => {
                lemma_section_terminals_ascend(bytes, sec, plt, from + 1, i, j);
            },
        }
    }
}

proof fn lemma_terminal_from(
    bytes: Seq<u8>,
    sections: Seq<ExecutableSection>,
    plt: NamedSectionBounds,
    s: int,
    o: int,
    i: int,
) -> (k: int)
    requires
        bytes.len() <= usize::MAX,
        all_scannable(sections, bytes.len() as int),
        0 <= s,
        0 <= o,
        0 <= i < terminals_from(bytes, sections, plt, s, o).len(),
    ensures
        s <= k < sections.len(),
        terminal_of_section(bytes, sections[k], plt, terminals_from(bytes, sections, plt, s, o)[i]),
    decreases sections.len() - s,
{
    let here = section_terminals(bytes, sections[s], plt, o);
    if i < here.len() {
        lemma_section_terminal(bytes, sections[s], plt, o, i);
        s
    } else {
        lemma_terminal_from(bytes, sections, plt, s + 1, 0, i - here.len())
    }
}

proof fn lemma_terminals_from_ascend(
    bytes: Seq<u8>,
    sections: Seq<ExecutableSection>,
    plt: NamedSectionBounds,
    s: int,
    o: int,
    i: int,
    j: int,
)
    requires
        bytes.len() <= usize::MAX,
        all_scannable(sections, bytes.len() as int),
        ascending(sections),
        0 <= s,
        0 <= o,
        0 <= i < j < terminals_from(bytes, sections, plt, s, o).len(),
    ensures
        terminals_from(bytes, sections, plt, s, o)[i].vaddr <= terminals_from(
            bytes,
            sections,
            plt,
            s,
            o,
        )[j].vaddr,
    decreases sections.len() - s,
{
    let here = section_terminals(bytes, sections[s], plt, o);
    if j < here.len() {
        lemma_section_terminals_ascend(bytes, sections[s], plt, o, i, j);
    } else if i < here.len() {
        lemma_section_terminal(bytes, sections[s], plt, o, i);
        let k = lemma_terminal_from(bytes, sections, plt, s + 1, 0, j - here.len());
        assert(sections[s].vaddr + sections[s].size <= sections[k].vaddr);
    } else {
        lemma_terminals_from_ascend(
            bytes,
            sections,
            plt,
            s + 1,
            0,
            i - here.len(),
            j - here.len(),
        );
    }
}

proof fn lemma_prefix(bytes: Seq<u8>, t: Terminal, limit: int, from: int, i: int)
    requires
        1 <= from,
        limit <= t.faddr,
        limit <= t.vaddr,
        0 <= i < prefixes(bytes, t, limit, from).len(),
    ensures
        ({
            let g = prefixes(bytes, t, limit, from)[i];
            &&& g.terminal == t
            &&& from <= t.faddr - g.faddr <= limit
            &&& t.faddr - g.faddr < MAX_GADGET_PREFIX
            &&& t.vaddr - g.vaddr == t.faddr - g.faddr
            &&& falls_into(bytes, g.faddr as int, g.vaddr as u64, t.faddr as int)
        }),
    decreases MAX_GADGET_PREFIX - from,
{
    if from <= limit && from < MAX_GADGET_PREFIX {
        let g = Gadget { faddr: (t.faddr - from) as usize, vaddr: (t.vaddr - from) as usize, terminal: t };
        let rest = prefixes(bytes, t, limit, from + 1);
        if falls_into(bytes, g.faddr as int, g.vaddr as u64, t.faddr as int) {
            if i > 0 {
                lemma_prefix(bytes, t, limit, from + 1, i - 1);
                assert((seq![g] + rest)[i] == rest[i - 1]);
            }
        } else {
            lemma_prefix(bytes, t, limit, from + 1, i);
        }
    }
}

proof fn lemma_section_gadget(
    bytes: Seq<u8>,
    sec: ExecutableSection,
    plt: NamedSectionBounds,
    from: int,
    i: int,
)
    requires
        bytes.len() <= usize::MAX,
        scannable(sec, bytes.len() as int),
        0 <= from,
        0 <= i < section_gadgets(bytes, sec, plt, from).len(),
    ensures
        gadget_of_section(bytes, sec, plt, section_gadgets(bytes, sec, plt, from)[i]),
    decreases sec.size - from,
{
    if from < sec.size {
        let rest = section_gadgets(bytes, sec, plt, from + 1);
        match terminal_at(bytes, sec, plt, from) {
            Some(t) => {
                let here = prefixes(bytes, t, from, 1);
                if i < here.len() {
                    lemma_prefix(bytes, t, from, 1, i);
                } else {
                    lemma_section_gadget(bytes, sec, plt, from + 1, i - here.len());
                }
            },
            None => {
                lemma_section_gadget(bytes, sec, plt, from + 1, i);
            },
        }
    }
}

proof fn lemma_gadget_from(
    bytes: Seq<u8>,
    sections: Seq<ExecutableSection>,
    plt: NamedSectionBounds,
    s: int,
    o: int,
    i: int,
) -> (k: int)
    requires
        bytes.len() <= usize::MAX,
        all_scannable(sections, bytes.len() as int),
        0 <= s,
        0 <= o,
        0 <= i < gadgets_from(bytes, sections, plt, s, o).len(),
    ensures
        s <= k < sections.len(),
        gadget_of_section(bytes, sections[k], plt, gadgets_from(bytes, sections, plt, s, o)[i]),
    decreases sections.len() - s,
{
    let here = section_gadgets(bytes, sections[s], plt, o);
    if i < here.len() {
        lemma_section_gadget(bytes, sections[s], plt, o, i);
        s
    } else {
        lemma_gadget_from(bytes, sections, plt, s + 1, 0, i - here.len())
    }
}

/// Every gadget of an image that can be scanned belongs to one of its
/// executable sections: it ends in a terminal of that section, begins at
/// or behind the section's first byte, and falls through into its
/// terminal. The result is the section's place among the executable ones.
pub proof fn lemma_gadget_belongs_to_a_section(bytes: Seq<u8>, image: ElfImageView, i: int) -> (k:
    int)
    requires
        bytes.len() <= usize::MAX,
        scan_failure(bytes, image) is None,
        0 <= i < all_gadgets(bytes, image).len(),
    ensures
        0 <= k < executable_sections_of(image.sections).len(),
        gadget_of_section(
            bytes,
            executable_sections_of(image.sections)[k],
            find_section(image.sections, plt_section_name())->0,
            all_gadgets(bytes, image)[i],
        ),
{
    lemma_gadget_from(
        bytes,
        executable_sections_of(image.sections),
        find_section(image.sections, plt_section_name())->0,
        0,
        0,
        i,
    )
}

/// Every terminal of an image that can be scanned is the one found at its
/// own offset of one of the executable sections. The result is the
/// section's place among the executable ones.
pub proof fn lemma_terminal_belongs_to_a_section(bytes: Seq<u8>, image: ElfImageView, i: int) -> (k:
    int)
    requires
        bytes.len() <= usize::MAX,
        scan_failure(bytes, image) is None,
        0 <= i < all_terminals(bytes, image).len(),
    ensures
        0 <= k < executable_sections_of(image.sections).len(),
        terminal_of_section(
            bytes,
            executable_sections_of(image.sections)[k],
            find_section(image.sections, plt_section_name())->0,
            all_terminals(bytes, image)[i],
        ),
{
    lemma_terminal_from(
        bytes,
        executable_sections_of(image.sections),
        find_section(image.sections, plt_section_name())->0,
        0,
        0,
        i,
    )
}

/// A gadget and its terminal are as far apart in memory as in the file,
/// and the gadget's start and its length lead to the terminal exactly.
pub proof fn lemma_gadget_offsets_agree(bytes: Seq<u8>, image: ElfImageView, i: int)
    requires
        bytes.len() <= usize::MAX,
        scan_failure(bytes, image) is None,
        0 <= i < all_gadgets(bytes, image).len(),
    ensures
        ({
            let g = all_gadgets(bytes, image)[i];
            &&& g.faddr <= g.terminal.faddr
            &&& g.faddr + (g.terminal.faddr - g.faddr) == g.terminal.faddr
            &&& g.vaddr - g.faddr == g.terminal.vaddr - g.terminal.faddr
        }),
{
    lemma_gadget_belongs_to_a_section(bytes, image, i);
}

/// Decoding forward from a gadget's start gives valid instructions that
/// fall through, and their lengths add up to the distance to the
/// terminal exactly.
pub proof fn lemma_gadget_falls_into_its_terminal(bytes: Seq<u8>, image: ElfImageView, i: int)
    requires
        bytes.len() <= usize::MAX,
        scan_failure(bytes, image) is None,
        0 <= i < all_gadgets(bytes, image).len(),
    ensures
        ({
            let g = all_gadgets(bytes, image)[i];
            falls_into(bytes, g.faddr as int, g.vaddr as u64, g.terminal.faddr as int)
        }),
{
    lemma_gadget_belongs_to_a_section(bytes, image, i);
}

/// The destination of every terminal lies in the stub section.
pub proof fn lemma_terminal_targets_a_stub(bytes: Seq<u8>, image: ElfImageView, i: int)
    requires
        bytes.len() <= usize::MAX,
        scan_failure(bytes, image) is None,
        0 <= i < all_terminals(bytes, image).len(),
    ensures
        in_plt(
            find_section(image.sections, plt_section_name())->0,
            all_terminals(bytes, image)[i].target as u64,
        ),
{
    lemma_terminal_belongs_to_a_section(bytes, image, i);
}

/// The destination of the terminal of every gadget lies in the stub
/// section.
pub proof fn lemma_gadget_targets_a_stub(bytes: Seq<u8>, image: ElfImageView, i: int)
    requires
        bytes.len() <= usize::MAX,
        scan_failure(bytes, image) is None,
        0 <= i < all_gadgets(bytes, image).len(),
    ensures
        in_plt(
            find_section(image.sections, plt_section_name())->0,
            all_gadgets(bytes, image)[i].terminal.target as u64,
        ),
{
    lemma_gadget_belongs_to_a_section(bytes, image, i);
}

/// Where the executable sections lie one behind the other in memory, the
/// terminals come in the order of their addresses.
pub proof fn lemma_terminals_ascend(bytes: Seq<u8>, image: ElfImageView, i: int, j: int)
    requires
        bytes.len() <= usize::MAX,
        scan_failure(bytes, image) is None,
        ascending(executable_sections_of(image.sections)),
        0 <= i <= j < all_terminals(bytes, image).len(),
    ensures
        all_terminals(bytes, image)[i].vaddr <= all_terminals(bytes, image)[j].vaddr,
{
    if i < j {
        lemma_terminals_from_ascend(
            bytes,
            executable_sections_of(image.sections),
            find_section(image.sections, plt_section_name())->0,
            0,
            0,
            i,
            j,
        );
    }
}

/// Within one section the terminals come in the strict order of their
/// addresses, however the sections lie.
pub proof fn lemma_terminals_of_a_section_ascend(
    bytes: Seq<u8>,
    sec: ExecutableSection,
    plt: NamedSectionBounds,
    i: int,
    j: int,
)
    requires
        bytes.len() <= usize::MAX,
        scannable(sec, bytes.len() as int),
        0 <= i < j < section_terminals(bytes, sec, plt, 0).len(),
    ensures
        section_terminals(bytes, sec, plt, 0)[i].vaddr < section_terminals(bytes, sec, plt, 0)[j].vaddr,
{
    lemma_section_terminals_ascend(bytes, sec, plt, 0, i, j);
}

/// No gadget begins before the first byte of the section that holds its
/// terminal, however close to that byte the terminal lies.
pub proof fn lemma_gadget_begins_in_its_section(bytes: Seq<u8>, image: ElfImageView, i: int) -> (k:
    int)
    requires
        bytes.len() <= usize::MAX,
        scan_failure(bytes, image) is None,
        0 <= i < all_gadgets(bytes, image).len(),
    ensures
        0 <= k < executable_sections_of(image.sections).len(),
        ({
            let sec = executable_sections_of(image.sections)[k];
            let g = all_gadgets(bytes, image)[i];
            &&& sec.faddr <= g.faddr < g.terminal.faddr < sec.faddr + sec.size
            &&& sec.vaddr <= g.vaddr < g.terminal.vaddr < sec.vaddr + sec.size
        }),
{
    lemma_gadget_belongs_to_a_section(bytes, image, i)
}

/// A prefix whose first instruction is longer than the prefix itself does
/// not fall through into the terminal.
pub proof fn lemma_overlong_instruction_misses(bytes: Seq<u8>, pos: int, ip: u64, end: int)
    requires
        pos < end,
        decoded(bytes, pos, ip).len > end - pos,
    ensures
        !falls_into(bytes, pos, ip, end),
{
}

/// The first instruction of every gadget ends at or before the gadget's
/// terminal.
pub proof fn lemma_first_instruction_fits(bytes: Seq<u8>, image: ElfImageView, i: int)
    requires
        bytes.len() <= usize::MAX,
        scan_failure(bytes, image) is None,
        0 <= i < all_gadgets(bytes, image).len(),
    ensures
        ({
            let g = all_gadgets(bytes, image)[i];
            decoded(bytes, g.faddr as int, g.vaddr as u64).len <= g.terminal.faddr - g.faddr
        }),
{
    lemma_gadget_belongs_to_a_section(bytes, image, i);
}

/// Enumerating twice over equal bytes gives the same gadgets in the same
/// order, or the same failure.
pub proof fn lemma_enumeration_repeats(first: Seq<u8>, second: Seq<u8>)
    requires
        first == second,
    ensures
        gadgets_of_buffer(first) == gadgets_of_buffer(second),
{
}

} // verus!
