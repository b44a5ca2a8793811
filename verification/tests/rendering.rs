use gopper::ansi::color_enabled;
use gopper::hex::to_hex_upper;
use gopper::{Gadget, GadgetFormatter, GotSymbolResolve, HighlightedFormatter, Terminal, TextKind};
use std::collections::HashMap;

/// pop rbx; call 2000h, at address 1000h.
fn code() -> Vec<u8> {
    let mut buffer = vec![0x5B, 0xE8];
    buffer.extend_from_slice(&(0x2000i32 - 0x1006).to_le_bytes());
    buffer
}

fn gadget() -> Gadget {
    Gadget {
        faddr: 0,
        vaddr: 0x1000,
        terminal: Terminal { faddr: 1, vaddr: 0x1001, target: 0x2000 },
    }
}

fn symbols() -> HashMap<usize, String> {
    let mut map = HashMap::new();
    map.insert(0x2000, "puts".to_string());
    map
}

#[test]
fn hexadecimal_is_upper_case_without_leading_zeros() {
    assert_eq!(to_hex_upper(0), "0");
    assert_eq!(to_hex_upper(9), "9");
    assert_eq!(to_hex_upper(10), "A");
    assert_eq!(to_hex_upper(15), "F");
    assert_eq!(to_hex_upper(16), "10");
    assert_eq!(to_hex_upper(0x13076C), "13076C");
    assert_eq!(to_hex_upper(0xDEADBEEF), "DEADBEEF");
    assert_eq!(to_hex_upper(u64::MAX), "FFFFFFFFFFFFFFFF");
    assert_eq!(to_hex_upper(0x0123456789ABCDEF), "123456789ABCDEF");
}

#[test]
fn a_terminal_reads_as_a_call() {
    let t = Terminal { faddr: 0x10, vaddr: 0x13076C, target: 0x28580 };
    assert_eq!(t.to_text(), "13076C: call 28580");
}

#[test]
fn text_without_colours_is_gathered_as_it_stands() {
    let mut out = HighlightedFormatter::new(false);
    assert_eq!(out.text(), "");
    out.write("mov", TextKind::Mnemonic);
    out.write(" ", TextKind::Text);
    out.write("rax", TextKind::Register);
    assert_eq!(out.text(), "mov rax");
}

#[test]
fn each_class_of_text_has_its_colour() {
    let classes = [
        (TextKind::Number, "32"),
        (TextKind::Function, "94"),
        (TextKind::FunctionAddress, "94"),
        (TextKind::LabelAddress, "94"),
        (TextKind::Label, "94"),
        (TextKind::Prefix, "93"),
        (TextKind::Mnemonic, "93"),
        (TextKind::Directive, "93"),
        (TextKind::Keyword, "93"),
        (TextKind::Register, "91"),
        (TextKind::Text, "37"),
        (TextKind::Operator, "37"),
        (TextKind::Punctuation, "37"),
        (TextKind::Decorator, "37"),
        (TextKind::SelectorValue, "37"),
        (TextKind::Data, "37"),
    ];
    for (kind, code) in classes {
        let mut out = HighlightedFormatter::new(true);
        out.write("x", kind);
        assert_eq!(out.text(), format!("\x1b[{}mx\x1b[39m", code));
    }
}

#[test]
fn coloured_pieces_follow_one_another() {
    let mut out = HighlightedFormatter::new(true);
    out.write("1F", TextKind::Number);
    out.write("", TextKind::Text);
    out.write("rsp", TextKind::Register);
    assert_eq!(out.text(), "\x1b[32m1F\x1b[39m\x1b[37m\x1b[39m\x1b[91mrsp\x1b[39m");
}

#[test]
fn an_address_with_a_name_gets_a_label() {
    let plain = GotSymbolResolve::new(symbols(), false);
    assert_eq!(plain.label(0x2000), Some("puts (2000)".to_string()));
    assert_eq!(plain.label(0x2001), None);
    assert_eq!(plain.label(0), None);
    let coloured = GotSymbolResolve::new(symbols(), true);
    assert_eq!(coloured.label(0x2000), Some("puts (\x1b[92m2000\x1b[39m)".to_string()));
    assert_eq!(coloured.label(0x1FFF), None);
}

#[test]
fn a_gadget_is_one_line() {
    let buffer = code();
    let formatter = GadgetFormatter::new(&buffer);
    assert_eq!(formatter.format_str(&gadget()), "1000: pop rbx; call 0000000000002000h; ");
}

#[test]
fn a_line_is_appended_to_what_is_there() {
    let buffer = code();
    let formatter = GadgetFormatter::new(&buffer);
    let mut out = "> ".to_string();
    formatter.format(&gadget(), &mut out);
    formatter.format(&gadget(), &mut out);
    assert_eq!(
        out,
        "> 1000: pop rbx; call 0000000000002000h; 1000: pop rbx; call 0000000000002000h; "
    );
}

#[test]
fn the_digits_at_the_head_of_a_line_spell_the_address() {
    let mut buffer = vec![0x90u8; 4];
    buffer.extend_from_slice(&code());
    let formatter = GadgetFormatter::new(&buffer);
    for vaddr in [0usize, 0xA, 0x13076C, 0xFFFF_FFFF, 0x7FFF_FFFF_FFFF] {
        let g = Gadget {
            faddr: 4,
            vaddr,
            terminal: Terminal { faddr: 5, vaddr: vaddr + 1, target: 0 },
        };
        let line = formatter.format_str(&g);
        let head = line.split(':').next().unwrap();
        assert_eq!(usize::from_str_radix(head, 16), Ok(vaddr));
    }
}

#[test]
fn the_target_of_the_call_is_named() {
    let buffer = code();
    let mut formatter = GadgetFormatter::new(&buffer);
    formatter.symbols(symbols());
    assert_eq!(formatter.format_str(&gadget()), "1000: pop rbx; call puts (2000); ");
}

#[test]
fn a_symbol_map_without_the_target_changes_nothing() {
    let buffer = code();
    let mut formatter = GadgetFormatter::new(&buffer);
    let mut other = HashMap::new();
    other.insert(0x2008, "exit".to_string());
    formatter.symbols(other);
    assert_eq!(formatter.format_str(&gadget()), "1000: pop rbx; call 0000000000002000h; ");
}

#[test]
fn a_line_in_colours() {
    let buffer = code();
    let mut formatter = GadgetFormatter::new(&buffer);
    formatter.colorize(true);
    assert_eq!(
        formatter.format_str(&gadget()),
        "\x1b[32m1000: \x1b[39m\
         \x1b[93mpop\x1b[39m\x1b[37m \x1b[39m\x1b[91mrbx\x1b[39m\x1b[37m; \x1b[39m\
         \x1b[93mcall\x1b[39m\x1b[37m \x1b[39m\x1b[94m0000000000002000h\x1b[39m\x1b[37m; \x1b[39m"
    );
}

#[test]
fn a_named_target_in_colours() {
    let buffer = code();
    let mut formatter = GadgetFormatter::new(&buffer);
    formatter.colorize(true).symbols(symbols());
    assert_eq!(
        formatter.format_str(&gadget()),
        "\x1b[32m1000: \x1b[39m\
         \x1b[93mpop\x1b[39m\x1b[37m \x1b[39m\x1b[91mrbx\x1b[39m\x1b[37m; \x1b[39m\
         \x1b[93mcall\x1b[39m\x1b[37m \x1b[39m\x1b[94mputs (\x1b[92m2000\x1b[39m)\x1b[39m\x1b[37m; \x1b[39m"
    );
}

#[test]
fn colours_can_be_turned_off_again() {
    let buffer = code();
    let mut formatter = GadgetFormatter::new(&buffer);
    formatter.colorize(true);
    formatter.colorize(false);
    assert_eq!(formatter.format_str(&gadget()), "1000: pop rbx; call 0000000000002000h; ");
}

#[test]
fn the_line_ends_with_the_terminal() {
    let mut buffer = code();
    buffer.extend_from_slice(&[0x5D, 0xC3]);
    let formatter = GadgetFormatter::new(&buffer);
    assert_eq!(formatter.format_str(&gadget()), "1000: pop rbx; call 0000000000002000h; ");
}

#[test]
fn a_line_that_begins_at_the_terminal_holds_the_terminal_alone() {
    let buffer = code();
    let formatter = GadgetFormatter::new(&buffer);
    let g = Gadget {
        faddr: 1,
        vaddr: 0x1001,
        terminal: Terminal { faddr: 1, vaddr: 0x1001, target: 0x2000 },
    };
    assert_eq!(formatter.format_str(&g), "1001: call 0000000000002000h; ");
}

#[test]
fn a_line_that_begins_at_the_end_of_the_buffer_holds_the_address_alone() {
    let buffer = code();
    let formatter = GadgetFormatter::new(&buffer);
    let g = Gadget {
        faddr: 6,
        vaddr: 0x1006,
        terminal: Terminal { faddr: 9, vaddr: 0x1009, target: 0x2000 },
    };
    assert_eq!(formatter.format_str(&g), "1006: ");
}

#[test]
fn colours_follow_the_flags_and_the_terminal() {
    assert!(!color_enabled(true, true, true));
    assert!(!color_enabled(true, true, false));
    assert!(!color_enabled(true, false, true));
    assert!(!color_enabled(true, false, false));
    assert!(color_enabled(false, true, true));
    assert!(color_enabled(false, true, false));
    assert!(color_enabled(false, false, true));
    assert!(!color_enabled(false, false, false));
}
