use gopper::elf::{
    DynamicSymbol, ElfImage, ExecutableSection, NamedSectionBounds, PltRelocation, SectionHeader,
};
use gopper::symbols::{collect_pairs, name_entries, plt_entries};
use gopper::{build_stub_to_symbol, gadgets, got_to_symbol, Error, PltEntry};
use std::collections::HashMap;

fn section(name: Option<&str>, addr: u64, offset: u64, size: u64, flags: u64) -> SectionHeader {
    SectionHeader { name: name.map(str::to_string), addr, offset, size, flags }
}

fn symbol(kind: u8, value: u64, name: Option<&str>) -> DynamicSymbol {
    DynamicSymbol { kind, value, name: name.map(str::to_string) }
}

fn image() -> ElfImage {
    ElfImage {
        is_64: true,
        sections: vec![
            section(None, 0, 0, 0, 0),
            section(Some(".init"), 0x1000, 0x1000, 0x1B, 6),
            section(Some(".plt.sec"), 0x1040, 0x1040, 0x20, 6),
            section(Some(".data"), 0x4000, 0x3000, 0x10, 3),
            section(Some(".weird"), 0x5000, 0x3100, 0x8, 0x4),
            section(Some(".plt.sec"), 0x9000, 0x9000, 0x40, 6),
            section(Some(".wide"), 0x6000, 0x3200, 0x8, 0xFFFF_FFFF_0000_0006),
        ],
        plt_relocations: vec![
            PltRelocation { kind: 0x25, offset: 0x4018, addend: Some(0xA1000) },
            PltRelocation { kind: 7, offset: 0x4020, addend: Some(0) },
            PltRelocation { kind: 0x25, offset: 0x4028, addend: None },
            PltRelocation { kind: 0x25, offset: 0x4030, addend: Some(-16) },
            PltRelocation { kind: 0x25, offset: 0x4018, addend: Some(0xB2000) },
        ],
        dynamic_symbols: vec![
            symbol(0, 0, Some("")),
            symbol(2, 0xA1000, Some("memcpy")),
            symbol(1, 0xA2000, Some("environ")),
            symbol(10, 0xB2000, Some("strlen")),
            symbol(2, 0xC3000, None),
            symbol(2, 0xA1000, Some("memmove")),
        ],
    }
}

#[test]
fn executable_sections_are_those_with_the_flag() {
    assert_eq!(
        image().executable_sections(),
        vec![
            ExecutableSection { vaddr: 0x1000, faddr: 0x1000, size: 0x1B },
            ExecutableSection { vaddr: 0x1040, faddr: 0x1040, size: 0x20 },
            ExecutableSection { vaddr: 0x5000, faddr: 0x3100, size: 0x8 },
            ExecutableSection { vaddr: 0x9000, faddr: 0x9000, size: 0x40 },
            ExecutableSection { vaddr: 0x6000, faddr: 0x3200, size: 0x8 },
        ]
    );
}

#[test]
fn a_section_is_found_by_its_name() {
    let elf = image();
    assert_eq!(
        elf.named_section(".plt.sec"),
        Ok(NamedSectionBounds { vaddr: 0x1040, faddr: 0x1040, size: 0x20 })
    );
    assert_eq!(
        elf.named_section(".data"),
        Ok(NamedSectionBounds { vaddr: 0x4000, faddr: 0x3000, size: 0x10 })
    );
    assert_eq!(elf.named_section(".plt"), Err(Error::SectionNotFound));
    assert_eq!(elf.named_section(".plt.sec "), Err(Error::SectionNotFound));
    assert_eq!(elf.named_section(".bss"), Err(Error::SectionNotFound));
}

#[test]
fn a_section_without_a_name_goes_by_the_empty_name() {
    assert_eq!(image().named_section(""), Ok(NamedSectionBounds { vaddr: 0, faddr: 0, size: 0 }));
}

#[test]
fn relocations_of_the_one_type_give_pairs() {
    assert_eq!(
        image().plt_relocations(),
        vec![(0x4018, 0xA1000), (0x4030, 0xFFFF_FFFF_FFFF_FFF0), (0x4018, 0xB2000)]
    );
}

#[test]
fn of_two_pairs_with_one_key_the_later_counts() {
    let map = collect_pairs(&image().plt_relocations());
    assert_eq!(map.len(), 2);
    assert_eq!(map.get(&0x4018), Some(&0xB2000));
    assert_eq!(map.get(&0x4030), Some(&0xFFFF_FFFF_FFFF_FFF0));
    assert!(collect_pairs(&Vec::new()).is_empty());
}

#[test]
fn functions_are_named_by_their_addresses() {
    let names = image().dyn_function_symbols();
    assert_eq!(names.len(), 3);
    assert_eq!(names.get(&0xA1000).map(String::as_str), Some("memmove"));
    assert_eq!(names.get(&0xB2000).map(String::as_str), Some("strlen"));
    assert_eq!(names.get(&0xC3000).map(String::as_str), Some(""));
    assert_eq!(names.get(&0xA2000), None);
    assert_eq!(names.get(&0), None);
}

#[test]
fn stubs_are_named_through_slots_and_functions() {
    let entries = vec![
        PltEntry { stub: 0x1040, slot: 0x4018 },
        PltEntry { stub: 0x1050, slot: 0x4020 },
        PltEntry { stub: 0x1060, slot: 0x4030 },
        PltEntry { stub: 0x1070, slot: 0x4038 },
    ];
    let mut targets = HashMap::new();
    targets.insert(0x4018u64, 0xB2000u64);
    targets.insert(0x4030, 0xDEAD);
    targets.insert(0x4038, 0xA1000);
    let mut names = HashMap::new();
    names.insert(0xA1000u64, "memmove".to_string());
    names.insert(0xB2000, "strlen".to_string());
    let map = name_entries(&entries, &targets, &names);
    assert_eq!(map.len(), 2);
    assert_eq!(map.get(&0x1040).map(String::as_str), Some("strlen"));
    assert_eq!(map.get(&0x1070).map(String::as_str), Some("memmove"));
    assert!(name_entries(&Vec::new(), &targets, &names).is_empty());
}

/// `endbr64` and a jump through the slot at `slot`, for a stub at `vaddr`.
fn stub(vaddr: u64, slot: u64) -> Vec<u8> {
    let mut code = vec![0xF3, 0x0F, 0x1E, 0xFA, 0xF2, 0xFF, 0x25];
    code.extend_from_slice(&((slot as i64 - (vaddr as i64 + 11)) as i32).to_le_bytes());
    code.extend_from_slice(&[0x0F, 0x1F, 0x44, 0x00, 0x00]);
    code
}

#[test]
fn the_stub_section_is_walked_in_strides_of_sixteen_bytes() {
    let mut buffer = vec![0xCCu8; 8];
    buffer.extend_from_slice(&stub(0x1040, 0x4018));
    buffer.extend_from_slice(&stub(0x1050, 0x4020));
    buffer.extend_from_slice(&stub(0x1060, 0x3FF8));
    let plt = NamedSectionBounds { vaddr: 0x1040, faddr: 8, size: 0x30 };
    assert_eq!(
        plt_entries(&buffer, &plt),
        Ok(vec![
            PltEntry { stub: 0x1040, slot: 0x4018 },
            PltEntry { stub: 0x1050, slot: 0x4020 },
            PltEntry { stub: 0x1060, slot: 0x3FF8 },
        ])
    );
    let shorter = NamedSectionBounds { vaddr: 0x1040, faddr: 8, size: 0x2F };
    assert_eq!(plt_entries(&buffer, &shorter).map(|v| v.len()), Ok(2));
    let none = NamedSectionBounds { vaddr: 0x1040, faddr: 8, size: 0xF };
    assert_eq!(plt_entries(&buffer, &none), Ok(Vec::new()));
}

#[test]
fn a_stride_that_is_no_stub_ends_the_walk() {
    let plt = NamedSectionBounds { vaddr: 0x1040, faddr: 0, size: 0x20 };
    let mut no_endbr = stub(0x1040, 0x4018);
    no_endbr.extend_from_slice(&[0x90u8; 16]);
    assert_eq!(plt_entries(&no_endbr, &plt), Err(Error::UnexpectedStub));
    let mut no_memory_operand = stub(0x1040, 0x4018);
    no_memory_operand.extend_from_slice(&[0xF3, 0x0F, 0x1E, 0xFA, 0x90, 0x90, 0x90, 0x90]);
    no_memory_operand.extend_from_slice(&[0x90u8; 8]);
    assert_eq!(plt_entries(&no_memory_operand, &plt), Err(Error::UnexpectedStub));
    let zeros = vec![0u8; 0x20];
    assert_eq!(plt_entries(&zeros, &plt), Err(Error::UnexpectedStub));
}

#[test]
fn a_stride_behind_the_buffer_ends_the_walk() {
    let buffer = stub(0x1040, 0x4018);
    let second_at_the_end = NamedSectionBounds { vaddr: 0x1040, faddr: 0, size: 0x20 };
    assert_eq!(plt_entries(&buffer, &second_at_the_end), Err(Error::UnexpectedStub));
    let third_behind = NamedSectionBounds { vaddr: 0x1040, faddr: 0, size: 0x30 };
    assert_eq!(plt_entries(&buffer, &third_behind), Err(Error::UnexpectedStub));
    let behind = NamedSectionBounds { vaddr: 0x1040, faddr: 0x11, size: 0x10 };
    assert_eq!(plt_entries(&buffer, &behind), Err(Error::OutOfBounds));
    let wrapping = NamedSectionBounds { vaddr: u64::MAX - 0x10, faddr: 0, size: 0x20 };
    assert_eq!(plt_entries(&buffer, &wrapping), Err(Error::OutOfBounds));
}

#[test]
fn the_symbol_map_of_an_image() {
    let mut buffer = vec![0u8; 0x1040];
    buffer.extend_from_slice(&stub(0x1040, 0x4018));
    buffer.extend_from_slice(&stub(0x1050, 0x4020));
    let map = build_stub_to_symbol(&buffer, &image()).expect("the stubs can be read");
    assert_eq!(map.len(), 1);
    assert_eq!(map.get(&0x1040).map(String::as_str), Some("strlen"));
    let again = build_stub_to_symbol(&buffer, &image()).expect("the stubs can be read");
    assert_eq!(map, again);
}

#[test]
fn an_image_without_stubs_has_no_symbol_map() {
    let mut elf = image();
    elf.sections.retain(|s| s.name.as_deref() != Some(".plt.sec"));
    assert_eq!(build_stub_to_symbol(&[0u8; 64], &elf).err(), Some(Error::SectionNotFound));
}

#[test]
fn rejects_a_buffer_that_is_no_object() {
    let buffer = [0x41u8; 64];
    match gadgets(&buffer) {
        Err(e) => assert_eq!(e, Error::UnsupportedObject),
        Ok(_) => panic!("sixty-four letters are no image"),
    }
    assert_eq!(got_to_symbol(&buffer).err(), Some(Error::UnsupportedObject));
    assert_eq!(ElfImage::parse(&buffer).err(), Some(Error::UnsupportedObject));
}

#[test]
fn rejects_an_archive() {
    let mut buffer = b"!<arch>\n".to_vec();
    buffer.extend_from_slice(b"a/              0           0     0     644     0         `\n");
    assert_eq!(gadgets(&buffer).err(), Some(Error::UnsupportedObject));
}

#[test]
fn rejects_an_archive_that_cannot_be_parsed() {
    let mut buffer = b"!<arch>\n".to_vec();
    buffer.extend_from_slice(&[b' '; 8]);
    assert_eq!(gadgets(&buffer).err(), Some(Error::NotElf));
}

#[test]
fn rejects_a_buffer_too_short_to_tell() {
    assert_eq!(gadgets(b"\x7fELF").err(), Some(Error::NotElf));
    assert_eq!(gadgets(&[]).err(), Some(Error::NotElf));
    assert_eq!(got_to_symbol(&[0u8; 15]).err(), Some(Error::NotElf));
}

#[test]
fn rejects_a_header_without_an_image() {
    let mut buffer = vec![0x7F, b'E', b'L', b'F', 2, 1, 1, 0];
    buffer.extend_from_slice(&[0u8; 8]);
    assert_eq!(gadgets(&buffer).err(), Some(Error::NotElf));
}

#[test]
fn every_failure_has_its_sentence() {
    assert_eq!(Error::NotElf.message(), "not a 64-bit ELF image");
    assert_eq!(Error::UnsupportedObject.message(), "does not support non ELF objects");
    assert_eq!(Error::SectionNotFound.message(), "couldn't find section by name");
    assert_eq!(Error::UnexpectedStub.message(), "unexpected layout of a procedure linkage stub");
    assert_eq!(Error::OutOfBounds.message(), "tried to decode address outside of file");
}
