//! Enumerates call-oriented gadgets in x86-64 ELF images: short straight-line
//! instruction runs that fall through into a direct near branch whose
//! destination lies in the stub section of the procedure linkage table.

pub mod ansi;
pub mod decode;
pub mod elf;
pub mod enumerate;
pub mod error;
pub mod format;
pub mod gadget;
pub mod hex;
pub mod invariants;
pub mod scan;
pub mod symbols;

pub use decode::Decoded;
pub use enumerate::{gadgets, GadgetsIterator};
pub use error::Error;
pub use format::{GadgetFormatter, GotSymbolResolve, HighlightedFormatter, TextKind, Token};
pub use gadget::{Gadget, Terminal};
pub use scan::GadgetTerminalIterator;
pub use symbols::{build_stub_to_symbol, got_to_symbol, PltEntry};
