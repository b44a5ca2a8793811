use vstd::prelude::*;
use vstd::string::*;

verus! {

/// Why an analysis was abandoned.
#[derive(Debug, Clone, Copy, PartialEq, Eq, Structural)]
pub enum Error {
    /// The buffer does not hold a well-formed 64-bit ELF image.
    NotElf,
    /// The buffer holds an object of some other format.
    UnsupportedObject,
    /// The image has no `.plt.sec` section.
    SectionNotFound,
    /// A stride of the stub section is not `endbr64` followed by an
    /// instruction whose first operand is in memory.
    UnexpectedStub,
    /// A section asks the decoder for a position outside the buffer, or
    /// for an address that does not fit the machine word.
    OutOfBounds,
}

impl Error {
    /// A sentence for the user.
    pub fn message(&self) -> (r: String)
        ensures
            r@ == match *self {
                Error::NotElf => "not a 64-bit ELF image"@,
                Error::UnsupportedObject => "does not support non ELF objects"@,
                Error::SectionNotFound => "couldn't find section by name"@,
                Error::UnexpectedStub => "unexpected layout of a procedure linkage stub"@,
                Error::OutOfBounds => "tried to decode address outside of file"@,
            },
    {
        match self {
            Error::NotElf => String::from_str("not a 64-bit ELF image"),
            Error::UnsupportedObject => String::from_str("does not support non ELF objects"),
            Error::SectionNotFound => String::from_str("couldn't find section by name"),
            Error::UnexpectedStub => String::from_str(
                "unexpected layout of a procedure linkage stub",
            ),
            Error::OutOfBounds => String::from_str("tried to decode address outside of file"),
        }
    }
}

} // verus!
