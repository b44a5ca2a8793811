use crate::ansi::{paint, painted, Color};
use crate::decode::{advance_ip, decode_at, decoded, next_ip};
use crate::elf::texts;
use crate::gadget::Gadget;
use crate::hex::{hex_upper, hex_value, leading_hex, lemma_hex_round_trip, to_hex_upper};
use iced_x86::FormatterTextKind;
use std::collections::HashMap;
use vstd::prelude::*;
use vstd::string::*;

verus! {

/// The classes of text that a disassembly is made of.
#[derive(Debug, Clone, Copy, PartialEq, Eq, Structural)]
pub enum TextKind {
    Text,
    Directive,
    Prefix,
    Mnemonic,
    Keyword,
    Operator,
    Punctuation,
    Number,
    Register,
    Decorator,
    SelectorValue,
    LabelAddress,
    FunctionAddress,
    Data,
    Label,
    Function,
}

/// One piece of a disassembled instruction.
#[derive(Debug, Clone)]
pub struct Token {
    pub text: String,
    pub kind: TextKind,
}

/// A piece of a disassembled instruction with its text as a sequence.
pub struct TokenView {
    pub text: Seq<char>,
    pub kind: TextKind,
}

impl View for Token {
    type V = TokenView;

    open spec fn view(&self) -> TokenView {
        TokenView { text: self.text@, kind: self.kind }
    }
}

/// The colour of a class of text: numbers green; the names and addresses
/// of functions and labels bright blue; prefixes, mnemonics, directives
/// and keywords bright yellow; registers bright red; the rest white.
pub open spec fn kind_color(kind: TextKind) -> Color {
    match kind {
        TextKind::Number => Color::Green,
        TextKind::Function | TextKind::FunctionAddress | TextKind::LabelAddress | TextKind::Label =>
            Color::BrightBlue,
        TextKind::Prefix | TextKind::Mnemonic | TextKind::Directive | TextKind::Keyword =>
            Color::BrightYellow,
        TextKind::Register => Color::BrightRed,
        _ => Color::White,
    }
}

/// A piece of text as it is written out: in the colour of its class, or
/// as it stands.
pub open spec fn token_text(text: Seq<char>, kind: TextKind, colorize: bool) -> Seq<char> {
    if colorize {
        painted(text, kind_color(kind))
    } else {
        text
    }
}

/// The pieces of an instruction written out one after the other.
pub open spec fn tokens_text(tokens: Seq<TokenView>, colorize: bool) -> Seq<char>
    decreases tokens.len(),
{
    if tokens.len() == 0 {
        Seq::empty()
    } else {
        tokens_text(tokens.drop_last(), colorize) + token_text(
            tokens.last().text,
            tokens.last().kind,
            colorize,
        )
    }
}

/// What stands for an operand whose address has a name: the name, and the
/// address in upper-case hexadecimal between brackets, bright green where
/// colours are on.
pub open spec fn label_text(name: Seq<char>, address: u64, colorize: bool) -> Seq<char> {
    name + seq![' ', '('] + (if colorize {
        painted(hex_upper(address as nat), Color::BrightGreen)
    } else {
        hex_upper(address as nat)
    }) + seq![')']
}

/// The label of each address that a symbol map names.
pub open spec fn labels_of(names: Map<usize, Seq<char>>, colorize: bool) -> Map<u64, Seq<char>> {
    Map::new(
        |a: u64| names.contains_key(a as usize),
        |a: u64| label_text(names[a as usize], a, colorize),
    )
}

/// The colour of a class of text.
pub fn color_of(kind: TextKind) -> (r: Color)
    ensures
        r == kind_color(kind),
{
    match kind {
        TextKind::Number => Color::Green,
        TextKind::Function | TextKind::FunctionAddress | TextKind::LabelAddress | TextKind::Label =>
            Color::BrightBlue,
        TextKind::Prefix | TextKind::Mnemonic | TextKind::Directive | TextKind::Keyword =>
            Color::BrightYellow,
        TextKind::Register => Color::BrightRed,
        _ => Color::White,
    }
}

/// Gathers the text of a rendering, each piece in the colour of its class
/// where colours are on.
pub struct HighlightedFormatter {
    buf: String,
    colorize: bool,
}

impl HighlightedFormatter {
    /// The text gathered so far.
    pub closed spec fn view(&self) -> Seq<char> {
        self.buf@
    }

    /// Whether colours are on.
    pub closed spec fn colorized(&self) -> bool {
        self.colorize
    }

    /// An empty text, with colours on or off.
    pub fn new(colorize: bool) -> (r: Self)
        ensures
            r@ == Seq::<char>::empty(),
            r.colorized() == colorize,
    {
        HighlightedFormatter { buf: String::new(), colorize }
    }

    /// Appends a piece of text of the given class.
    pub fn write(&mut self, text: &str, kind: TextKind)
        ensures
            final(self)@ == old(self)@ + token_text(text@, kind, old(self).colorized()),
            final(self).colorized() == old(self).colorized(),
    {
        if self.colorize {
            let coloured = paint(text, color_of(kind));
            self.buf.append(coloured.as_str());
        } else {
            self.buf.append(text);
        }
    }

    /// The text gathered so far.
    pub fn text(&self) -> (r: String)
        ensures
            r@ == self@,
    {
        self.buf.clone()
    }
}

/// `iced_x86::FormatterTextKind`, the class that the disassembler gives
/// to a piece of text.
#[verifier::external_type_specification]
#[verifier::external_body]
pub struct ExFormatterTextKind(FormatterTextKind);

/// `iced_x86::Instruction`, which the disassembler shows to a symbol
/// resolver.
#[verifier::external_type_specification]
#[verifier::external_body]
pub struct ExInstruction(iced_x86::Instruction);

/// `iced_x86::SymbolResult`, a symbol resolver's answer.
#[verifier::external_type_specification]
#[verifier::external_body]
pub struct ExSymbolResult<'a>(iced_x86::SymbolResult<'a>);

/// `iced_x86::IntelFormatter`, kept for the length of one line.
#[verifier::external_type_specification]
#[verifier::external_body]
pub struct ExIntelFormatter(iced_x86::IntelFormatter);

/// The class of text that a `iced_x86::FormatterTextKind` stands for: the
/// one of the same name, and plain text for a variant that a later
/// version adds.
pub uninterp spec fn text_kind_of(kind: FormatterTextKind) -> TextKind;

/// Tells the variants of `iced_x86::FormatterTextKind` apart, each to the
/// class of the same name.
#[verifier::external_body]
pub(crate) fn text_kind(kind: FormatterTextKind) -> (r: TextKind)
    ensures
        r == text_kind_of(kind),
{
    match kind {
        FormatterTextKind::Text => TextKind::Text, FormatterTextKind::Directive => TextKind::Directive,
        FormatterTextKind::Prefix => TextKind::Prefix, FormatterTextKind::Mnemonic => TextKind::Mnemonic,
        FormatterTextKind::Keyword => TextKind::Keyword, FormatterTextKind::Operator => TextKind::Operator,
        FormatterTextKind::Punctuation => TextKind::Punctuation, FormatterTextKind::Number => TextKind::Number,
        FormatterTextKind::Register => TextKind::Register, FormatterTextKind::Decorator => TextKind::Decorator,
        FormatterTextKind::SelectorValue => TextKind::SelectorValue, FormatterTextKind::LabelAddress => TextKind::LabelAddress,
        FormatterTextKind::FunctionAddress => TextKind::FunctionAddress, FormatterTextKind::Data => TextKind::Data,
        FormatterTextKind::Label => TextKind::Label, FormatterTextKind::Function => TextKind::Function,
        _ => TextKind::Text,
    }
}

/// Receives the pieces of one instruction from the disassembler.
pub struct TokenSink {
    pub tokens: Vec<Token>,
}

impl iced_x86::FormatterOutput for TokenSink {
    fn write(&mut self, text: &str, kind: FormatterTextKind)
        ensures
            final(self).tokens@.len() == old(self).tokens@.len() + 1,
            final(self).tokens@.drop_last() == old(self).tokens@,
            final(self).tokens@.last()@ == (TokenView { text: text@, kind: text_kind_of(kind) }),
    {
        let token = Token { text: String::from_str(text), kind: text_kind(kind) };
        self.tokens.push(token);
    }
}

/// Answers the disassembler's question for the name of an address out of
/// a symbol map.
pub struct GotSymbolResolve {
    symbols: HashMap<usize, String>,
    colorize: bool,
}

/// The address and the text that a `iced_x86::SymbolResult` holds.
pub uninterp spec fn symbol_answer(result: iced_x86::SymbolResult) -> (u64, Seq<char>);

/// Calls `iced_x86::SymbolResult::with_string`: a symbol at `address`
/// whose text is `text`, as a label, without flags or size.
#[verifier::external_body]
pub(crate) fn symbol_result(address: u64, text: String) -> (r: iced_x86::SymbolResult<'static>)
    ensures
        symbol_answer(r) == (address, text@),
{
    iced_x86::SymbolResult::with_string(address, text)
}

impl GotSymbolResolve {
    /// The labels that the resolver answers with, by address.
    pub closed spec fn labels(&self) -> Map<u64, Seq<char>> {
        labels_of(texts(self.symbols@), self.colorize)
    }

    /// A resolver that answers out of `symbols`, with the addresses in
    /// its labels in colour or not.
    pub fn new(symbols: HashMap<usize, String>, colorize: bool) -> (r: Self)
        ensures
            r.labels() == labels_of(texts(symbols@), colorize),
    {
        GotSymbolResolve { symbols, colorize }
    }

    /// The label of an address, where the symbol map names it.
    pub fn label(&self, address: u64) -> (r: Option<String>)
        ensures
            match r {
                Some(text) => self.labels().contains_key(address) && text@
                    == self.labels()[address],
                None => !self.labels().contains_key(address),
            },
    {
        broadcast use vstd::std_specs::hash::group_hash_axioms;

        let key = address as usize;
        match self.symbols.get(&key) {
            Some(name) => {
                let hex = to_hex_upper(address);
                let mut text = name.clone();
                text.append(" (");
                if self.colorize {
                    let coloured = paint(hex.as_str(), Color::BrightGreen);
                    text.append(coloured.as_str());
                } else {
                    text.append(hex.as_str());
                }
                text.append(")");
                proof {
                    reveal_strlit(" (");
                    reveal_strlit(")");
                    assert(" ("@ =~= seq![' ', '(']);
                    assert(")"@ =~= seq![')']);
                    assert(text@ =~= label_text(name@, address, self.colorize));
                }
                Some(text)
            },
            None => None,
        }
    }
}

impl iced_x86::SymbolResolver for GotSymbolResolve {
    fn symbol(
        &mut self,
        instruction: &iced_x86::Instruction,
        operand: u32,
        instruction_operand: Option<u32>,
        address: u64,
        address_size: u32,
    ) -> (r: Option<iced_x86::SymbolResult<'_>>)
        ensures
            match r {
                Some(answer) => old(self).labels().contains_key(address) && symbol_answer(answer)
                    == (address, old(self).labels()[address]),
                None => !old(self).labels().contains_key(address),
            },
            final(self).labels() == old(self).labels(),
    {
        match self.label(address) {
            Some(text) => Some(symbol_result(address, text)),
            None => None,
        }
    }
}

/// The labels that the symbol resolver of an `iced_x86::IntelFormatter`
/// answers with, by address.
pub uninterp spec fn formatter_labels(formatter: iced_x86::IntelFormatter) -> Map<u64, Seq<char>>;

/// The pieces that the Intel formatter of `iced_x86` writes for the
/// instruction that the 64-bit decoder finds at index `pos` of `bytes`
/// with the instruction pointer at `ip`, where its symbol resolver
/// answers with `labels`.
pub uninterp spec fn formatted(bytes: Seq<u8>, pos: int, ip: u64, labels: Map<u64, Seq<char>>) -> Seq<
    TokenView,
>;

/// Calls `iced_x86::IntelFormatter::with_options` with the given symbol
/// resolver, if any, and no options provider.
///
/// Trusted: the formatter asks this resolver and no other; without a
/// resolver no address has a label.
#[verifier::external_body]
pub(crate) fn intel_formatter(resolver: Option<GotSymbolResolve>) -> (r: iced_x86::IntelFormatter)
    ensures
        formatter_labels(r) == match resolver {
            Some(res) => res.labels(),
            None => Map::<u64, Seq<char>>::empty(),
        },
{
    match resolver {
        Some(res) => iced_x86::IntelFormatter::with_options(Some(Box::new(res)), None),
        None => iced_x86::IntelFormatter::with_options(None, None),
    }
}

/// Decodes one instruction as `decode_at` does and has it written by
/// `iced_x86::Formatter::format` into a `TokenSink`.
///
/// Trusted: the pieces are a function of the bytes, the position, the
/// instruction pointer and the resolver's answers; formatting leaves the
/// resolver as it was.
#[verifier::external_body]
pub(crate) fn format_at(
    formatter: &mut iced_x86::IntelFormatter,
    bytes: &[u8],
    pos: usize,
    ip: u64,
) -> (r: Vec<Token>)
    requires
        pos <= bytes@.len(),
    ensures
        r@.map_values(|t: Token| t@) == formatted(
            bytes@,
            pos as int,
            ip,
            formatter_labels(*old(formatter)),
        ),
        formatter_labels(*final(formatter)) == formatter_labels(*old(formatter)),
{
    let mut decoder = iced_x86::Decoder::with_ip(64, bytes, ip, iced_x86::DecoderOptions::NONE);
    decoder.set_position(pos).unwrap();
    let instr = decoder.decode();
    let mut sink = TokenSink { tokens: Vec::new() };
    iced_x86::Formatter::format(formatter, &instr, &mut sink);
    sink.tokens
}

/// The instructions from index `pos` on, each followed by `"; "`, up to
/// and including the one that begins at `end`, or up to the end of the
/// bytes.
pub open spec fn body_text(
    bytes: Seq<u8>,
    pos: int,
    ip: u64,
    end: int,
    labels: Map<u64, Seq<char>>,
    colorize: bool,
) -> Seq<char>
    decreases bytes.len() - pos,
{
    if pos >= bytes.len() || pos > end {
        Seq::empty()
    } else {
        let d = decoded(bytes, pos, ip);
        let head = tokens_text(formatted(bytes, pos, ip, labels), colorize) + token_text(
            seq![';', ' '],
            TextKind::Text,
            colorize,
        );
        if d.len >= 1 && pos + d.len <= bytes.len() {
            head + body_text(bytes, pos + d.len, next_ip(ip, d.len), end, labels, colorize)
        } else {
            head
        }
    }
}

/// The line of a gadget: its address in upper-case hexadecimal and
/// `": "`, written as one number, then its instructions.
pub open spec fn gadget_text(
    bytes: Seq<u8>,
    gadget: Gadget,
    labels: Map<u64, Seq<char>>,
    colorize: bool,
) -> Seq<char> {
    token_text(hex_upper(gadget.vaddr as nat) + seq![':', ' '], TextKind::Number, colorize)
        + body_text(
        bytes,
        gadget.faddr as int,
        gadget.vaddr as u64,
        gadget.terminal.faddr as int,
        labels,
        colorize,
    )
}

/// Renders gadgets as lines of Intel-syntax disassembly.
pub struct GadgetFormatter<'a> {
    buffer: &'a [u8],
    colorize: bool,
    symbols: Option<HashMap<usize, String>>,
}

impl<'a> GadgetFormatter<'a> {
    /// The buffer that the gadgets lie in.
    pub closed spec fn bytes(&self) -> Seq<u8> {
        self.buffer@
    }

    /// Whether colours are on.
    pub closed spec fn colorized(&self) -> bool {
        self.colorize
    }

    /// The symbol map that is installed, if any.
    pub closed spec fn names(&self) -> Option<Map<usize, Seq<char>>> {
        match self.symbols {
            Some(m) => Some(texts(m@)),
            None => None,
        }
    }

    /// The labels that operands are resolved to.
    pub open spec fn labels(&self) -> Map<u64, Seq<char>> {
        match self.names() {
            Some(names) => labels_of(names, self.colorized()),
            None => Map::empty(),
        }
    }

    /// A formatter without colours and without symbols.
    pub fn new(buffer: &'a [u8]) -> (r: Self)
        ensures
            r.bytes() == buffer@,
            !r.colorized(),
            r.names() is None,
    {
        GadgetFormatter { buffer, colorize: false, symbols: None }
    }

    /// Installs a symbol map.
    pub fn symbols(&mut self, symbols: HashMap<usize, String>) -> (r: &mut Self)
        ensures
            r.names() == Some(texts(symbols@)),
            r.colorized() == old(self).colorized(),
            r.bytes() == old(self).bytes(),
            *final(self) == *final(r),
    {
        self.symbols = Some(symbols);
        self
    }

    /// Turns colours on or off.
    pub fn colorize(&mut self, colorize: bool) -> (r: &mut Self)
        ensures
            r.colorized() == colorize,
            r.names() == old(self).names(),
            r.bytes() == old(self).bytes(),
            *final(self) == *final(r),
    {
        self.colorize = colorize;
        self
    }

    /// The line of a gadget.
    pub fn format_str(&self, gadget: &Gadget) -> (r: String)
        requires
            gadget.faddr <= self.bytes().len(),
        ensures
            r@ == gadget_text(self.bytes(), *gadget, self.labels(), self.colorized()),
    {
        let mut out = String::new();
        self.format(gadget, &mut out);
        out
    }

    /// Appends the line of a gadget to `output`.
    pub fn format(&self, gadget: &Gadget, output: &mut String)
        requires
            gadget.faddr <= self.bytes().len(),
        ensures
            final(output)@ == old(output)@ + gadget_text(
                self.bytes(),
                *gadget,
                self.labels(),
                self.colorized(),
            ),
    {
        let resolver = match &self.symbols {
            Some(m) => Some(GotSymbolResolve::new(m.clone(), self.colorize)),
            None => None,
        };
        let mut formatter = intel_formatter(resolver);
        let mut line = HighlightedFormatter::new(self.colorize);
        let mut head = to_hex_upper(gadget.vaddr as u64);
        head.append(": ");
        proof {
            reveal_strlit(": ");
            reveal_strlit("; ");
            assert(": "@ =~= seq![':', ' ']);
            assert("; "@ =~= seq![';', ' ']);
        }
        line.write(head.as_str(), TextKind::Number);
        let len = self.buffer.len();
        let end = gadget.terminal.faddr;
        let mut pos = gadget.faddr;
        let mut ip = gadget.vaddr as u64;
        let ghost labels = self.labels();
        let ghost colorize = self.colorize;
        let ghost whole = gadget_text(self.buffer@, *gadget, labels, colorize);
        while pos < len && pos <= end
            invariant
                pos <= len == self.buffer@.len(),
                end == gadget.terminal.faddr,
                labels == self.labels(),
                formatter_labels(formatter) == labels,
                line.colorized() == colorize,
                colorize == self.colorize,
                "; "@ == seq![';', ' '],
                whole == line@ + body_text(self.buffer@, pos as int, ip, end as int, labels, colorize),
            decreases len - pos,
        {
            let tokens = format_at(&mut formatter, self.buffer, pos, ip);
            let ghost pieces = tokens@.map_values(|t: Token| t@);
            let ghost before = line@;
            let mut i: usize = 0;
            while i < tokens.len()
                invariant
                    i <= tokens@.len(),
                    pieces == tokens@.map_values(|t: Token| t@),
                    line.colorized() == colorize,
                    line@ == before + tokens_text(pieces.take(i as int), colorize),
                decreases tokens@.len() - i,
            {
                let token = &tokens[i];
                proof {
                    assert(pieces.take(i + 1).drop_last() == pieces.take(i as int));
                    assert(pieces.take(i + 1).last() == token@);
                }
                line.write(token.text.as_str(), token.kind);
                i = i + 1;
            }
            proof {
                assert(pieces.take(tokens@.len() as int) == pieces);
            }
            line.write("; ", TextKind::Text);
            let d = decode_at(self.buffer, pos, ip);
            pos = pos + d.len;
            ip = advance_ip(ip, d.len);
        }
        let text = line.text();
        output.append(text.as_str());
    }
}

/// The digits at the head of a line without colours spell the gadget's
/// address.
pub proof fn lemma_line_leads_with_address(
    bytes: Seq<u8>,
    gadget: Gadget,
    labels: Map<u64, Seq<char>>,
)
    ensures
        leading_hex(gadget_text(bytes, gadget, labels, false)) == gadget.vaddr,
{
    let rest = seq![':', ' '] + body_text(
        bytes,
        gadget.faddr as int,
        gadget.vaddr as u64,
        gadget.terminal.faddr as int,
        labels,
        false,
    );
    assert(rest.first() == ':');
    assert(hex_value(':') is None);
    lemma_hex_round_trip(gadget.vaddr as nat, rest);
    assert(gadget_text(bytes, gadget, labels, false) =~= hex_upper(gadget.vaddr as nat) + rest);
}

} // verus!
