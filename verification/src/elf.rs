use crate::error::Error;
use std::collections::HashMap;
use vstd::prelude::*;
use vstd::string::*;

verus! {

/// One entry of the section header table.
#[derive(Debug, Clone)]
pub struct SectionHeader {
    /// The section's name, where the string table holds one.
    pub name: Option<String>,
    pub addr: u64,
    pub offset: u64,
    pub size: u64,
    pub flags: u64,
}

/// A section header with its name as text.
pub struct SectionHeaderView {
    pub name: Option<Seq<char>>,
    pub addr: u64,
    pub offset: u64,
    pub size: u64,
    pub flags: u64,
}

impl View for SectionHeader {
    type V = SectionHeaderView;

    open spec fn view(&self) -> SectionHeaderView {
        SectionHeaderView {
            name: match self.name {
                Some(s) => Some(s@),
                None => None,
            },
            addr: self.addr,
            offset: self.offset,
            size: self.size,
            flags: self.flags,
        }
    }
}

/// One relocation of the procedure linkage table.
#[derive(Debug, Clone, Copy, PartialEq, Eq, Structural)]
pub struct PltRelocation {
    pub kind: u32,
    pub offset: u64,
    pub addend: Option<i64>,
}

/// One entry of the dynamic symbol table.
#[derive(Debug, Clone)]
pub struct DynamicSymbol {
    /// The symbol's type: the low four bits of its info byte.
    pub kind: u8,
    pub value: u64,
    /// The symbol's name, where the string table holds one.
    pub name: Option<String>,
}

/// A dynamic symbol with its name as text.
pub struct DynamicSymbolView {
    pub kind: u8,
    pub value: u64,
    pub name: Option<Seq<char>>,
}

impl View for DynamicSymbol {
    type V = DynamicSymbolView;

    open spec fn view(&self) -> DynamicSymbolView {
        DynamicSymbolView {
            kind: self.kind,
            value: self.value,
            name: match self.name {
                Some(s) => Some(s@),
                None => None,
            },
        }
    }
}

/// The tables of an ELF image that the analysis reads.
#[derive(Debug, Clone)]
pub struct ElfImage {
    pub is_64: bool,
    pub sections: Vec<SectionHeader>,
    pub plt_relocations: Vec<PltRelocation>,
    pub dynamic_symbols: Vec<DynamicSymbol>,
}

/// The tables of an image as sequences.
pub struct ElfImageView {
    pub is_64: bool,
    pub sections: Seq<SectionHeaderView>,
    pub plt_relocations: Seq<PltRelocation>,
    pub dynamic_symbols: Seq<DynamicSymbolView>,
}

impl View for ElfImage {
    type V = ElfImageView;

    open spec fn view(&self) -> ElfImageView {
        ElfImageView {
            is_64: self.is_64,
            sections: self.sections@.map_values(|s: SectionHeader| s@),
            plt_relocations: self.plt_relocations@,
            dynamic_symbols: self.dynamic_symbols@.map_values(|s: DynamicSymbol| s@),
        }
    }
}

/// What a buffer turned out to hold.
pub enum ObjectView {
    Elf(ElfImageView),
    Other,
    Malformed,
}

/// `goblin::elf::Elf`, carried from the parser to the functions that copy
/// its tables.
#[verifier::external_type_specification]
#[verifier::external_body]
pub struct ExElf<'a>(goblin::elf::Elf<'a>);

/// What `goblin::Object::parse` makes of `bytes`: the tables of an ELF
/// image, an object of another format, or nothing it can parse.
pub uninterp spec fn parsed_object(bytes: Seq<u8>) -> ObjectView;

/// The tables that a parsed `goblin::elf::Elf` holds.
pub uninterp spec fn elf_tables(elf: goblin::elf::Elf) -> ElfImageView;

/// The outcome of parsing, with goblin's own value for an ELF image.
pub(crate) enum Parsed<'a> {
    Elf(goblin::elf::Elf<'a>),
    Other,
    Malformed,
}

impl<'a> Parsed<'a> {
    pub(crate) closed spec fn view(&self) -> ObjectView {
        match *self {
            Parsed::Elf(elf) => ObjectView::Elf(elf_tables(elf)),
            Parsed::Other => ObjectView::Other,
            Parsed::Malformed => ObjectView::Malformed,
        }
    }
}

/// Calls `goblin::Object::parse` and tells its outcomes apart: an ELF
/// image, an object of another kind, or an error.
///
/// Trusted: the outcome, and the tables of an image, are a function of
/// the bytes.
#[verifier::external_body]
pub(crate) fn parse_object<'a>(bytes: &'a [u8]) -> (r: Parsed<'a>)
    ensures
        r.view() == parsed_object(bytes@),
{
    match goblin::Object::parse(bytes) {
        Ok(goblin::Object::Elf(elf)) => Parsed::Elf(elf),
        Ok(_) => Parsed::Other,
        Err(_) => Parsed::Malformed,
    }
}

/// Reads the field `is_64` of a parsed `goblin::elf::Elf`: whether the
/// image is of the 64-bit class.
#[verifier::external_body]
pub(crate) fn elf_is_64(elf: &goblin::elf::Elf) -> (r: bool)
    ensures
        r == elf_tables(*elf).is_64,
{
    elf.is_64
}

/// Copies the field `section_headers` of a parsed `goblin::elf::Elf`, entry
/// by entry, each name looked up in `shdr_strtab` with `Strtab::get_at`.
#[verifier::external_body]
pub(crate) fn elf_sections(elf: &goblin::elf::Elf) -> (r: Vec<SectionHeader>)
    ensures
        r@.map_values(|s: SectionHeader| s@) == elf_tables(*elf).sections,
{
    elf.section_headers.iter().map(|s| SectionHeader {
        name: elf.shdr_strtab.get_at(s.sh_name).map(str::to_string),
        addr: s.sh_addr,
        offset: s.sh_offset,
        size: s.sh_size,
        flags: s.sh_flags,
    }).collect()
}

/// Copies the field `pltrelocs` of a parsed `goblin::elf::Elf`, entry by
/// entry as its iterator gives them.
#[verifier::external_body]
pub(crate) fn elf_plt_relocations(elf: &goblin::elf::Elf) -> (r: Vec<PltRelocation>)
    ensures
        r@ == elf_tables(*elf).plt_relocations,
{
    elf.pltrelocs.iter().map(|r| PltRelocation {
        kind: r.r_type,
        offset: r.r_offset,
        addend: r.r_addend,
    }).collect()
}

/// Copies the field `dynsyms` of a parsed `goblin::elf::Elf`, entry by
/// entry as its iterator gives them, each type taken with `Sym::st_type`
/// and each name looked up in `dynstrtab` with `Strtab::get_at`.
#[verifier::external_body]
pub(crate) fn elf_dynamic_symbols(elf: &goblin::elf::Elf) -> (r: Vec<DynamicSymbol>)
    ensures
        r@.map_values(|s: DynamicSymbol| s@) == elf_tables(*elf).dynamic_symbols,
{
    elf.dynsyms.iter().map(|s| DynamicSymbol {
        kind: s.st_type(),
        value: s.st_value,
        name: elf.dynstrtab.get_at(s.st_name).map(str::to_string),
    }).collect()
}

/// What a buffer holds, with the tables of an ELF image copied out.
pub enum ObjectFile {
    Elf(ElfImage),
    Other,
    Malformed,
}

impl View for ObjectFile {
    type V = ObjectView;

    open spec fn view(&self) -> ObjectView {
        match *self {
            ObjectFile::Elf(image) => ObjectView::Elf(image@),
            ObjectFile::Other => ObjectView::Other,
            ObjectFile::Malformed => ObjectView::Malformed,
        }
    }
}

/// Parses a buffer and copies out the tables of an ELF image.
pub fn read_object(bytes: &[u8]) -> (r: ObjectFile)
    ensures
        r@ == parsed_object(bytes@),
{
    match parse_object(bytes) {
        Parsed::Elf(elf) => {
            let image = ElfImage {
                is_64: elf_is_64(&elf),
                sections: elf_sections(&elf),
                plt_relocations: elf_plt_relocations(&elf),
                dynamic_symbols: elf_dynamic_symbols(&elf),
            };
            ObjectFile::Elf(image)
        },
        Parsed::Other => ObjectFile::Other,
        Parsed::Malformed => ObjectFile::Malformed,
    }
}

/// Where an executable section lies: in memory, in the file, and how long.
#[derive(Debug, Clone, Copy, PartialEq, Eq, Structural)]
pub struct ExecutableSection {
    pub vaddr: u64,
    pub faddr: u64,
    pub size: u64,
}

/// Where a section found by its name lies.
#[derive(Debug, Clone, Copy, PartialEq, Eq, Structural)]
pub struct NamedSectionBounds {
    pub vaddr: u64,
    pub faddr: u64,
    pub size: u64,
}

/// Every address of the section fits the machine word.
pub open spec fn addressable(bounds: NamedSectionBounds) -> bool {
    bounds.vaddr + bounds.size <= usize::MAX
}

/// The flag of a section that holds machine instructions.
pub const SHF_EXECINSTR: u64 = 0x4;

/// The relocation type whose addend is the address of the function that a
/// stub jumps to.
pub const R_X86_64_IRELATIVE: u32 = 0x25;

/// The symbol type of a function.
pub const STT_FUNC: u8 = 2;

/// The symbol type of an indirect function.
pub const STT_GNU_IFUNC: u8 = 10;

/// The name of the section that holds the stubs of the procedure linkage
/// table.
pub open spec fn plt_section_name() -> Seq<char> {
    ".plt.sec"@
}

pub open spec fn is_executable(s: SectionHeaderView) -> bool {
    s.flags & SHF_EXECINSTR == SHF_EXECINSTR
}

/// A section's name; a section without one counts as named by the empty
/// string.
pub open spec fn section_name(s: SectionHeaderView) -> Seq<char> {
    match s.name {
        Some(n) => n,
        None => Seq::empty(),
    }
}

/// The sections with the executable flag, in the order of the table.
pub open spec fn executable_sections_of(sections: Seq<SectionHeaderView>) -> Seq<ExecutableSection>
    decreases sections.len(),
{
    if sections.len() == 0 {
        Seq::empty()
    } else {
        let rest = executable_sections_of(sections.drop_last());
        let s = sections.last();
        if is_executable(s) {
            rest.push(ExecutableSection { vaddr: s.addr, faddr: s.offset, size: s.size })
        } else {
            rest
        }
    }
}

/// The first section of the table with the given name.
pub open spec fn find_section(sections: Seq<SectionHeaderView>, name: Seq<char>) -> Option<
    NamedSectionBounds,
>
    decreases sections.len(),
{
    if sections.len() == 0 {
        None
    } else {
        let s = sections.first();
        if section_name(s) == name {
            Some(NamedSectionBounds { vaddr: s.addr, faddr: s.offset, size: s.size })
        } else {
            find_section(sections.drop_first(), name)
        }
    }
}

/// Whether a relocation names the function behind a stub: it has the type
/// `R_X86_64_IRELATIVE` and an addend.
pub open spec fn names_target(r: PltRelocation) -> bool {
    r.kind == R_X86_64_IRELATIVE && r.addend is Some
}

/// The address that an addend stands for: the addend itself, or for a
/// negative one the address in the upper half of memory with the same 64
/// bits.
pub open spec fn addend_address(a: i64) -> u64 {
    if a >= 0 {
        a as u64
    } else {
        (a + 0x1_0000_0000_0000_0000) as u64
    }
}

/// The pairs of a slot of the global offset table and the address of the
/// function it resolves to, one for each relocation that names its target.
pub open spec fn relocation_pairs(relocs: Seq<PltRelocation>) -> Seq<(u64, u64)>
    decreases relocs.len(),
{
    if relocs.len() == 0 {
        Seq::empty()
    } else {
        let rest = relocation_pairs(relocs.drop_last());
        let r = relocs.last();
        if names_target(r) {
            rest.push((r.offset, addend_address(r.addend->0)))
        } else {
            rest
        }
    }
}

pub open spec fn is_function(s: DynamicSymbolView) -> bool {
    s.kind == STT_FUNC || s.kind == STT_GNU_IFUNC
}

/// A symbol's name; a symbol without one counts as named by the empty
/// string.
pub open spec fn symbol_name(s: DynamicSymbolView) -> Seq<char> {
    match s.name {
        Some(n) => n,
        None => Seq::empty(),
    }
}

/// The names of the function symbols by their addresses; of two symbols
/// at one address the later names it.
pub open spec fn function_names(symbols: Seq<DynamicSymbolView>) -> Map<u64, Seq<char>>
    decreases symbols.len(),
{
    if symbols.len() == 0 {
        Map::empty()
    } else {
        let rest = function_names(symbols.drop_last());
        let s = symbols.last();
        if is_function(s) {
            rest.insert(s.value, symbol_name(s))
        } else {
            rest
        }
    }
}

/// The text of each value of a map of strings.
pub open spec fn texts<K>(m: Map<K, String>) -> Map<K, Seq<char>> {
    m.map_values(|s: String| s@)
}

impl ElfImage {
    /// Reads the tables of a 64-bit ELF image from a buffer.
    pub fn parse(bytes: &[u8]) -> (r: Result<ElfImage, Error>)
        ensures
            match parsed_object(bytes@) {
                ObjectView::Elf(image) => if image.is_64 {
                    r matches Ok(got) && got@ == image
                } else {
                    r matches Err(e) && e == Error::NotElf
                },
                ObjectView::Other => r matches Err(e) && e == Error::UnsupportedObject,
                ObjectView::Malformed => r matches Err(e) && e == Error::NotElf,
            },
    {
        match read_object(bytes) {
            ObjectFile::Elf(image) => if image.is_64 {
                Ok(image)
            } else {
                Err(Error::NotElf)
            },
            ObjectFile::Other => Err(Error::UnsupportedObject),
            ObjectFile::Malformed => Err(Error::NotElf),
        }
    }

    /// Every section with the executable flag, in the order of the table.
    pub fn executable_sections(&self) -> (r: Vec<ExecutableSection>)
        ensures
            r@ == executable_sections_of(self@.sections),
    {
        let ghost all = self@.sections;
        let mut out: Vec<ExecutableSection> = Vec::new();
        let n = self.sections.len();
        let mut i: usize = 0;
        while i < n
            invariant
                i <= n == self.sections@.len(),
                all == self@.sections,
                out@ == executable_sections_of(all.take(i as int)),
            decreases n - i,
        {
            let s = &self.sections[i];
            proof {
                assert(all.take(i + 1).drop_last() == all.take(i as int));
                assert(all.take(i + 1).last() == s@);
            }
            if s.flags & SHF_EXECINSTR == SHF_EXECINSTR {
                out.push(ExecutableSection { vaddr: s.addr, faddr: s.offset, size: s.size });
            }
            i = i + 1;
        }
        proof {
            assert(all.take(n as int) == all);
        }
        out
    }

    /// The bounds of the first section with the given name.
    pub fn named_section(&self, name: &str) -> (r: Result<NamedSectionBounds, Error>)
        ensures
            match find_section(self@.sections, name@) {
                Some(bounds) => r == Ok::<NamedSectionBounds, Error>(bounds),
                None => r == Err::<NamedSectionBounds, Error>(Error::SectionNotFound),
            },
    {
        let ghost all = self@.sections;
        let wanted = String::from_str(name);
        let empty = String::new();
        let n = self.sections.len();
        let mut i: usize = 0;
        proof {
            assert(all.skip(0) == all);
        }
        while i < n
            invariant
                i <= n == self.sections@.len(),
                all == self@.sections,
                wanted@ == name@,
                empty@ == Seq::<char>::empty(),
                find_section(all, name@) == find_section(all.skip(i as int), name@),
            decreases n - i,
        {
            let s = &self.sections[i];
            proof {
                assert(all.skip(i as int).first() == s@);
                assert(all.skip(i as int).drop_first() == all.skip(i + 1));
            }
            let same = match &s.name {
                Some(n) => *n == wanted,
                None => empty == wanted,
            };
            if same {
                return Ok(NamedSectionBounds { vaddr: s.addr, faddr: s.offset, size: s.size });
            }
            i = i + 1;
        }
        Err(Error::SectionNotFound)
    }

    /// One pair of slot address and function address for each relocation
    /// of the procedure linkage table that names its target.
    pub fn plt_relocations(&self) -> (r: Vec<(u64, u64)>)
        ensures
            r@ == relocation_pairs(self@.plt_relocations),
    {
        let ghost all = self@.plt_relocations;
        let mut out: Vec<(u64, u64)> = Vec::new();
        let n = self.plt_relocations.len();
        let mut i: usize = 0;
        while i < n
            invariant
                i <= n == self.plt_relocations@.len(),
                all == self.plt_relocations@,
                out@ == relocation_pairs(all.take(i as int)),
            decreases n - i,
        {
            let r = self.plt_relocations[i];
            proof {
                assert(all.take(i + 1).drop_last() == all.take(i as int));
                assert(all.take(i + 1).last() == r);
            }
            if r.kind == R_X86_64_IRELATIVE {
                match r.addend {
                    Some(a) => {
                        let target = if a >= 0 {
                            a as u64
                        } else {
                            u64::MAX - ((-(a + 1)) as u64)
                        };
                        out.push((r.offset, target));
                    },
                    None => {},
                }
            }
            i = i + 1;
        }
        proof {
            assert(all.take(n as int) == all);
        }
        out
    }

    /// The name of each function of the dynamic symbol table, by its
    /// address.
    pub fn dyn_function_symbols(&self) -> (r: HashMap<u64, String>)
        ensures
            texts(r@) == function_names(self@.dynamic_symbols),
    {
        broadcast use vstd::std_specs::hash::group_hash_axioms;

        let ghost all = self@.dynamic_symbols;
        let mut out: HashMap<u64, String> = HashMap::new();
        let n = self.dynamic_symbols.len();
        let mut i: usize = 0;
        proof {
            assert(texts(out@) =~= function_names(all.take(0)));
        }
        while i < n
            invariant
                i <= n == self.dynamic_symbols@.len(),
                all == self@.dynamic_symbols,
                texts(out@) == function_names(all.take(i as int)),
            decreases n - i,
        {
            let s = &self.dynamic_symbols[i];
            proof {
                assert(all.take(i + 1).drop_last() == all.take(i as int));
                assert(all.take(i + 1).last() == s@);
            }
            if s.kind == STT_FUNC || s.kind == STT_GNU_IFUNC {
                let name = match &s.name {
                    Some(n) => n.clone(),
                    None => String::new(),
                };
                let ghost before = out@;
                out.insert(s.value, name);
                proof {
                    assert(texts(out@) =~= texts(before).insert(s.value, name@));
                }
            }
            i = i + 1;
        }
        proof {
            assert(all.take(n as int) == all);
        }
        out
    }
}

} // verus!
