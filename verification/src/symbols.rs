use crate::decode::{advance_ip, decode_at, decoded, next_ip};
use crate::elf::{
    addressable, find_section, function_names, parsed_object, plt_section_name, relocation_pairs, texts,
    ElfImage, ElfImageView, NamedSectionBounds, ObjectView,
};
use crate::error::Error;
use std::collections::HashMap;
use vstd::prelude::*;
use vstd::string::*;

verus! {

/// The size of one stub of the procedure linkage table, in bytes.
pub const STUB_SIZE: u64 = 0x10;

/// One stub of the procedure linkage table: where it stands, and the slot
/// of the global offset table that it jumps through.
#[derive(Debug, Clone, Copy, PartialEq, Eq, Structural)]
pub struct PltEntry {
    pub stub: u64,
    pub slot: u64,
}

/// The stub of stride `k`, or why the stride is no stub: it lies behind
/// the end of the buffer, it does not begin with `endbr64`, or what
/// follows has no memory operand first.
pub open spec fn stub_entry(bytes: Seq<u8>, plt: NamedSectionBounds, k: int) -> Result<
    PltEntry,
    Error,
> {
    let pos = plt.faddr + STUB_SIZE * k;
    let ip = (plt.vaddr + STUB_SIZE * k) as u64;
    if pos > bytes.len() {
        Err(Error::OutOfBounds)
    } else {
        let first = decoded(bytes, pos, ip);
        let second = decoded(bytes, pos + first.len, next_ip(ip, first.len));
        if !first.endbr64 || !second.memory_operand {
            Err(Error::UnexpectedStub)
        } else {
            Ok(PltEntry { stub: ip, slot: second.memory_address })
        }
    }
}

/// The stubs of the first `n` strides, or the failure of the first stride
/// that is no stub.
pub open spec fn stub_entries(bytes: Seq<u8>, plt: NamedSectionBounds, n: int) -> Result<
    Seq<PltEntry>,
    Error,
>
    decreases n,
{
    if n <= 0 {
        Ok(Seq::empty())
    } else {
        match stub_entries(bytes, plt, n - 1) {
            Err(e) => Err(e),
            Ok(entries) => match stub_entry(bytes, plt, n - 1) {
                Err(e) => Err(e),
                Ok(entry) => Ok(entries.push(entry)),
            },
        }
    }
}

/// The stubs of a stub section, one for each whole stride of 16 bytes.
pub open spec fn plt_stubs(bytes: Seq<u8>, plt: NamedSectionBounds) -> Result<Seq<PltEntry>, Error> {
    if addressable(plt) {
        stub_entries(bytes, plt, (plt.size / STUB_SIZE) as int)
    } else {
        Err(Error::OutOfBounds)
    }
}

/// The map that a sequence of pairs makes; of two pairs with one key the
/// later counts.
pub open spec fn pair_map(pairs: Seq<(u64, u64)>) -> Map<u64, u64>
    decreases pairs.len(),
{
    if pairs.len() == 0 {
        Map::empty()
    } else {
        pair_map(pairs.drop_last()).insert(pairs.last().0, pairs.last().1)
    }
}

/// The name behind a slot: the slot's relocation gives the function's
/// address, the symbol table its name.
pub open spec fn slot_name(slot: u64, targets: Map<u64, u64>, names: Map<u64, Seq<char>>) -> Option<
    Seq<char>,
> {
    if targets.contains_key(slot) && names.contains_key(targets[slot]) {
        Some(names[targets[slot]])
    } else {
        None
    }
}

/// The names of the given stubs, by the stubs' addresses. A stub whose
/// slot has no name is left out.
pub open spec fn entry_names(
    entries: Seq<PltEntry>,
    targets: Map<u64, u64>,
    names: Map<u64, Seq<char>>,
) -> Map<usize, Seq<char>>
    decreases entries.len(),
{
    if entries.len() == 0 {
        Map::empty()
    } else {
        let rest = entry_names(entries.drop_last(), targets, names);
        match slot_name(entries.last().slot, targets, names) {
            Some(name) => rest.insert(entries.last().stub as usize, name),
            None => rest,
        }
    }
}

/// The symbol map of an image: the name of the external function behind
/// each stub of `.plt.sec`, by the stub's address.
pub open spec fn stub_to_symbol(bytes: Seq<u8>, image: ElfImageView) -> Result<
    Map<usize, Seq<char>>,
    Error,
> {
    match find_section(image.sections, plt_section_name()) {
        None => Err(Error::SectionNotFound),
        Some(plt) => match plt_stubs(bytes, plt) {
            Err(e) => Err(e),
            Ok(entries) => Ok(
                entry_names(
                    entries,
                    pair_map(relocation_pairs(image.plt_relocations)),
                    function_names(image.dynamic_symbols),
                ),
            ),
        },
    }
}

/// The symbol map of the image in a buffer, or why there is none.
pub open spec fn symbols_of_buffer(bytes: Seq<u8>) -> Result<Map<usize, Seq<char>>, Error> {
    match parsed_object(bytes) {
        ObjectView::Elf(image) => if image.is_64 {
            stub_to_symbol(bytes, image)
        } else {
            Err(Error::NotElf)
        },
        ObjectView::Other => Err(Error::UnsupportedObject),
        ObjectView::Malformed => Err(Error::NotElf),
    }
}

/// A built symbol map holds the names that are owed, or its failure is
/// the failure that is owed.
pub open spec fn agrees(
    got: Result<HashMap<usize, String>, Error>,
    owed: Result<Map<usize, Seq<char>>, Error>,
) -> bool {
    match got {
        Ok(m) => owed == Ok::<Map<usize, Seq<char>>, Error>(texts(m@)),
        Err(e) => owed == Err::<Map<usize, Seq<char>>, Error>(e),
    }
}

/// Once a stride fails, every longer walk fails with it.
proof fn lemma_failure_stays(bytes: Seq<u8>, plt: NamedSectionBounds, k: int, n: int)
    requires
        0 <= k <= n,
        stub_entries(bytes, plt, k) is Err,
    ensures
        stub_entries(bytes, plt, n) == stub_entries(bytes, plt, k),
    decreases n - k,
{
    if k < n {
        lemma_failure_stays(bytes, plt, k, n - 1);
    }
}

/// Collects pairs into a map; of two pairs with one key the later counts.
pub fn collect_pairs(pairs: &Vec<(u64, u64)>) -> (r: HashMap<u64, u64>)
    ensures
        r@ == pair_map(pairs@),
{
    broadcast use vstd::std_specs::hash::group_hash_axioms;

    let mut out: HashMap<u64, u64> = HashMap::new();
    let n = pairs.len();
    let mut i: usize = 0;
    while i < n
        invariant
            i <= n == pairs@.len(),
            out@ == pair_map(pairs@.take(i as int)),
        decreases n - i,
    {
        let p = pairs[i];
        proof {
            assert(pairs@.take(i + 1).drop_last() == pairs@.take(i as int));
            assert(pairs@.take(i + 1).last() == p);
        }
        out.insert(p.0, p.1);
        i = i + 1;
    }
    proof {
        assert(pairs@.take(n as int) == pairs@);
    }
    out
}

/// Decodes the stub of stride `k`.
fn read_stub(buffer: &[u8], plt: &NamedSectionBounds, k: u64) -> (r: Result<PltEntry, Error>)
    requires
        addressable(*plt),
        k < plt.size / STUB_SIZE,
    ensures
        r == stub_entry(buffer@, *plt, k as int),
{
    let len = buffer.len();
    let offset = STUB_SIZE * k;
    if plt.faddr > len as u64 || offset > len as u64 - plt.faddr {
        return Err(Error::OutOfBounds);
    }
    let pos = (plt.faddr + offset) as usize;
    let ip = plt.vaddr + offset;
    let first = decode_at(buffer, pos, ip);
    if !first.endbr64 {
        return Err(Error::UnexpectedStub);
    }
    let second = decode_at(buffer, pos + first.len, advance_ip(ip, first.len));
    if !second.memory_operand {
        return Err(Error::UnexpectedStub);
    }
    Ok(PltEntry { stub: ip, slot: second.memory_address })
}

/// Walks a stub section in strides of 16 bytes and reads the stub of each
/// stride. A stride that is no stub ends the walk with its failure; a
/// section whose addresses do not fit the machine word is out of bounds.
pub fn plt_entries(buffer: &[u8], plt: &NamedSectionBounds) -> (r: Result<Vec<PltEntry>, Error>)
    ensures
        match r {
            Ok(entries) => plt_stubs(buffer@, *plt) == Ok::<Seq<PltEntry>, Error>(entries@),
            Err(e) => plt_stubs(buffer@, *plt) == Err::<Seq<PltEntry>, Error>(e),
        },
{
    if plt.size > usize::MAX as u64 || plt.vaddr > usize::MAX as u64 - plt.size {
        return Err(Error::OutOfBounds);
    }
    let count = plt.size / STUB_SIZE;
    let mut out: Vec<PltEntry> = Vec::new();
    let mut k: u64 = 0;
    while k < count
        invariant
            k <= count == plt.size / STUB_SIZE,
            addressable(*plt),
            stub_entries(buffer@, *plt, k as int) == Ok::<Seq<PltEntry>, Error>(out@),
        decreases count - k,
    {
        match read_stub(buffer, plt, k) {
            Ok(entry) => {
                out.push(entry);
            },
            Err(e) => {
                proof {
                    assert(stub_entries(buffer@, *plt, k + 1) == Err::<Seq<PltEntry>, Error>(e));
                    lemma_failure_stays(buffer@, *plt, k + 1, count as int);
                }
                return Err(e);
            },
        }
        k = k + 1;
    }
    Ok(out)
}

/// Names each stub after the function behind it: the relocation of the
/// stub's slot gives the function's address, the symbol table its name.
/// A stub for which either is missing is left out.
pub fn name_entries(
    entries: &Vec<PltEntry>,
    targets: &HashMap<u64, u64>,
    names: &HashMap<u64, String>,
) -> (r: HashMap<usize, String>)
    ensures
        texts(r@) == entry_names(entries@, targets@, texts(names@)),
{
    broadcast use vstd::std_specs::hash::group_hash_axioms;

    let mut out: HashMap<usize, String> = HashMap::new();
    let n = entries.len();
    let mut i: usize = 0;
    proof {
        assert(texts(out@) =~= entry_names(entries@.take(0), targets@, texts(names@)));
    }
    while i < n
        invariant
            i <= n == entries@.len(),
            texts(out@) == entry_names(entries@.take(i as int), targets@, texts(names@)),
        decreases n - i,
    {
        let entry = entries[i];
        proof {
            assert(entries@.take(i + 1).drop_last() == entries@.take(i as int));
            assert(entries@.take(i + 1).last() == entry);
        }
        let ghost before = out@;
        match targets.get(&entry.slot) {
            Some(target) => match names.get(target) {
                Some(name) => {
                    let stub = entry.stub as usize;
                    out.insert(stub, name.clone());
                    proof {
                        assert(texts(out@) =~= texts(before).insert(stub, name@));
                    }
                },
                None => {},
            },
            None => {},
        }
        i = i + 1;
    }
    proof {
        assert(entries@.take(n as int) == entries@);
    }
    out
}

/// Maps each stub of `.plt.sec` to the name of the external function it
/// jumps to.
pub fn build_stub_to_symbol(buffer: &[u8], elf: &ElfImage) -> (r: Result<
    HashMap<usize, String>,
    Error,
>)
    ensures
        agrees(r, stub_to_symbol(buffer@, elf@)),
{
    let plt = match elf.named_section(".plt.sec") {
        Ok(plt) => plt,
        Err(e) => {
            return Err(e);
        },
    };
    let pairs = elf.plt_relocations();
    let targets = collect_pairs(&pairs);
    let names = elf.dyn_function_symbols();
    match plt_entries(buffer, &plt) {
        Ok(entries) => Ok(name_entries(&entries, &targets, &names)),
        Err(e) => Err(e),
    }
}

/// Maps each stub of the buffer's `.plt.sec` to the name of the external
/// function it jumps to.
pub fn got_to_symbol(buffer: &[u8]) -> (r: Result<HashMap<usize, String>, Error>)
    ensures
        agrees(r, symbols_of_buffer(buffer@)),
{
    match ElfImage::parse(buffer) {
        Ok(elf) => build_stub_to_symbol(buffer, &elf),
        Err(e) => Err(e),
    }
}

/// The symbol map is a function of the bytes and the tables: equal inputs
/// give equal maps, or the same failure.
pub proof fn lemma_symbol_map_is_a_function(
    first_bytes: Seq<u8>,
    first_image: ElfImageView,
    second_bytes: Seq<u8>,
    second_image: ElfImageView,
)
    requires
        first_bytes == second_bytes,
        first_image == second_image,
    ensures
        stub_to_symbol(first_bytes, first_image) == stub_to_symbol(second_bytes, second_image),
{
}

/// Two symbol maps built for one buffer name the same stubs alike, and
/// where one build fails the other fails in the same way.
pub proof fn lemma_symbol_maps_agree(
    first: Result<HashMap<usize, String>, Error>,
    second: Result<HashMap<usize, String>, Error>,
    bytes: Seq<u8>,
)
    requires
        agrees(first, symbols_of_buffer(bytes)),
        agrees(second, symbols_of_buffer(bytes)),
    ensures
        match (first, second) {
            (Ok(a), Ok(b)) => texts(a@) == texts(b@),
            (Err(a), Err(b)) => a == b,
            _ => false,
        },
{
}

} // verus!
