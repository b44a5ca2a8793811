use crate::elf::{parsed_object, ElfImage, ObjectView};
use crate::error::Error;
use crate::gadget::{Gadget, Terminal};
use crate::scan::{
    all_gadgets, prefixes, scan_failure, GadgetTerminalIterator, MAX_GADGET_PREFIX,
};
use vstd::prelude::*;

verus! {

/// What `gadgets` owes for a buffer: every gadget of the image in it, or
/// why there is none to be had.
pub open spec fn gadgets_of_buffer(bytes: Seq<u8>) -> Result<Seq<Gadget>, Error> {
    match parsed_object(bytes) {
        ObjectView::Elf(image) => if image.is_64 {
            match scan_failure(bytes, image) {
                Some(e) => Err(e),
                None => Ok(all_gadgets(bytes, image)),
            }
        } else {
            Err(Error::NotElf)
        },
        ObjectView::Other => Err(Error::UnsupportedObject),
        ObjectView::Malformed => Err(Error::NotElf),
    }
}

/// Yields the gadgets of an image, one at each call: for each terminal in
/// turn, its valid prefixes in ascending length.
pub struct GadgetsIterator<'a> {
    buffer: &'a [u8],
    terminals: GadgetTerminalIterator<'a>,
    current: Option<Terminal>,
    limit: u64,
    next_len: usize,
}

impl<'a> GadgetsIterator<'a> {
    #[verifier::type_invariant]
    spec fn wf(&self) -> bool {
        &&& self.terminals.bytes() == self.buffer@
        &&& self.current matches Some(t) ==> {
            &&& self.limit <= t.faddr < self.buffer@.len()
            &&& self.limit <= t.vaddr
            &&& 1 <= self.next_len <= MAX_GADGET_PREFIX
        }
    }

    /// The gadgets still to come.
    pub closed spec fn remaining(&self) -> Seq<Gadget> {
        (match self.current {
            Some(t) => prefixes(self.buffer@, t, self.limit as int, self.next_len as int),
            None => Seq::empty(),
        }) + self.terminals.remaining_gadgets()
    }

    /// Prepares the enumeration of an image. Fails where the image has no
    /// `.plt.sec`, or where that section or an executable one is out of
    /// bounds.
    pub fn new(buffer: &'a [u8], elf: &ElfImage) -> (r: Result<Self, Error>)
        ensures
            match scan_failure(buffer@, elf@) {
                Some(e) => r matches Err(got) && got == e,
                None => r matches Ok(it) && it.remaining() == all_gadgets(buffer@, elf@),
            },
    {
        match GadgetTerminalIterator::new(buffer, elf) {
            Ok(terminals) => {
                let it = GadgetsIterator { buffer, terminals, current: None, limit: 0, next_len: 1 };
                proof {
                    assert(it.remaining() =~= all_gadgets(buffer@, elf@));
                }
                Ok(it)
            },
            Err(e) => Err(e),
        }
    }

    /// The next gadget, or `None` when every terminal is done with.
    pub fn next(&mut self) -> (r: Option<Gadget>)
        ensures
            old(self).remaining().len() == 0 ==> r is None && final(self).remaining()
                == old(self).remaining(),
            old(self).remaining().len() > 0 ==> r == Some(old(self).remaining()[0])
                && final(self).remaining() == old(self).remaining().skip(1),
    {
        loop
            invariant
                self.remaining() == old(self).remaining(),
            decreases
                    self.terminals.remaining().len(),
                    if self.current is Some {
                        MAX_GADGET_PREFIX + 1 - self.next_len
                    } else {
                        0
                    },
        {
            proof {
                use_type_invariant(&*self);
            }
            match self.current {
                Some(t) => {
                    if self.next_len as u64 > self.limit || self.next_len >= MAX_GADGET_PREFIX {
                        self.current = None;
                    } else {
                        let l = self.next_len;
                        self.next_len = l + 1;
                        let g = Gadget { faddr: t.faddr - l, vaddr: t.vaddr - l, terminal: t };
                        if g.is_valid(self.buffer) {
                            proof {
                                assert((seq![g] + self.remaining()).skip(1) == self.remaining());
                            }
                            return Some(g);
                        }
                    }
                },
                None => {
                    match self.terminals.next_site() {
                        Some((t, o)) => {
                            self.limit = o;
                            self.next_len = 1;
                            self.current = Some(t);
                        },
                        None => {
                            return None;
                        },
                    }
                },
            }
        }
    }
}

impl<'a> GadgetsIterator<'a> {
    /// The next `count` gadgets, or all that are left where they are fewer.
    pub fn take(&mut self, count: usize) -> (r: Vec<Gadget>)
        ensures
            r@.len() == if count <= old(self).remaining().len() {
                count as int
            } else {
                old(self).remaining().len() as int
            },
            r@ == old(self).remaining().take(r@.len() as int),
            final(self).remaining() == old(self).remaining().skip(r@.len() as int),
    {
        let ghost all = self.remaining();
        let mut out: Vec<Gadget> = Vec::new();
        proof {
            assert(all.skip(0) == all);
            assert(all.take(0) == out@);
        }
        while out.len() < count
            invariant
                out@.len() <= count,
                out@.len() <= all.len(),
                out@ == all.take(out@.len() as int),
                self.remaining() == all.skip(out@.len() as int),
            ensures
                out@.len() == count || out@.len() == all.len(),
                out@.len() <= count,
                out@.len() <= all.len(),
                out@ == all.take(out@.len() as int),
                self.remaining() == all.skip(out@.len() as int),
            decreases count - out@.len(),
        {
            let ghost before = out@;
            match self.next() {
                Some(g) => {
                    out.push(g);
                    proof {
                        assert(all.skip(before.len() as int)[0] == all[before.len() as int]);
                        assert(all.take(before.len() as int + 1) == before.push(g));
                        assert(all.skip(before.len() as int).skip(1) == all.skip(before.len() as int + 1));
                    }
                },
                None => {
                    break ;
                },
            }
        }
        out
    }
}

/// Enumerates the gadgets of the ELF image in a buffer.
pub fn gadgets<'a>(buffer: &'a [u8]) -> (r: Result<GadgetsIterator<'a>, Error>)
    ensures
        match r {
            Ok(it) => gadgets_of_buffer(buffer@) == Ok::<Seq<Gadget>, Error>(it.remaining()),
            Err(e) => gadgets_of_buffer(buffer@) == Err::<Seq<Gadget>, Error>(e),
        },
{
    match ElfImage::parse(buffer) {
        Ok(elf) => GadgetsIterator::new(buffer, &elf),
        Err(e) => Err(e),
    }
}

} // verus!
