//! The line reader: a buffer of fixed capacity that collects the bytes of a
//! command line until a terminator comes.

use vstd::prelude::*;
use crate::text::{
    is_erase, is_printable, is_terminator, BACKSPACE, CARRIAGE_RETURN, DELETE, LINE_FEED,
};

verus! {

/// How many bytes a line can hold.
pub const LINE_CAPACITY: usize = 128;

/// What the line reader did with a byte.
#[derive(Clone, Copy, Debug, PartialEq, Eq)]
pub enum LineEvent {
    /// The byte was put at the end of the line.
    Stored,
    /// The line was full and the byte is lost.
    Dropped,
    /// The last byte of the line was taken away.
    Erased,
    /// Backspace came and there was nothing to take away.
    Unchanged,
    /// A terminator came and the line, which is not empty, is complete.
    Submitted,
    /// A terminator came and the line is empty.
    Blank,
}

/// The line after a byte, and what was done with the byte.
///
/// A terminator leaves the line as it is, complete or blank. An erasing byte
/// takes the last byte away, where there is one. Any other byte goes to the
/// end of the line, or is lost where the line is full.
pub open spec fn line_step(line: Seq<u8>, byte: u8) -> (Seq<u8>, LineEvent) {
    if is_terminator(byte) {
        if line.len() > 0 {
            (line, LineEvent::Submitted)
        } else {
            (line, LineEvent::Blank)
        }
    } else if is_erase(byte) {
        if line.len() > 0 {
            (line.drop_last(), LineEvent::Erased)
        } else {
            (line, LineEvent::Unchanged)
        }
    } else if line.len() < LINE_CAPACITY {
        (line.push(byte), LineEvent::Stored)
    } else {
        (line, LineEvent::Dropped)
    }
}

/// The line after a run of bytes, taken one by one.
pub open spec fn line_after(line: Seq<u8>, bytes: Seq<u8>) -> Seq<u8>
    decreases bytes.len(),
{
    if bytes.len() == 0 {
        line
    } else {
        line_step(line_after(line, bytes.drop_last()), bytes.last()).0
    }
}

/// Printable bytes typed into an empty line, no more of them than the line
/// can hold, make up the line: each is stored in its place and none is
/// lost. A terminator then finds the line complete, unless nothing was
/// typed, and leaves it as it is for the taking.
pub proof fn lemma_typed_line_is_complete(typed: Seq<u8>, terminator: u8)
    requires
        forall|i: int| 0 <= i < typed.len() ==> is_printable(#[trigger] typed[i]),
        typed.len() <= LINE_CAPACITY,
        is_terminator(terminator),
    ensures
        line_after(Seq::empty(), typed) == typed,
        typed.len() > 0 ==> line_step(line_after(Seq::empty(), typed), terminator) == (
            typed,
            LineEvent::Submitted,
        ),
        typed.len() == 0 ==> line_step(line_after(Seq::empty(), typed), terminator) == (
            typed,
            LineEvent::Blank,
        ),
    decreases typed.len(),
{
    if typed.len() > 0 {
        let before = typed.drop_last();
        lemma_typed_line_is_complete(before, terminator);
        assert(is_printable(typed[typed.len() - 1]));
        assert(before.push(typed.last()) =~= typed);
    } else {
        assert(typed =~= Seq::<u8>::empty());
    }
}

/// An erasing byte never leaves less than nothing and never touches what
/// stays: the line after it is the line before it without its last byte,
/// or the same empty line.
pub proof fn lemma_erase_keeps_prefix(line: Seq<u8>, byte: u8)
    requires
        is_erase(byte),
    ensures
        ({
            let after = line_step(line, byte).0;
            &&& after.len() == (if line.len() > 0 {
                line.len() - 1
            } else {
                0
            })
            &&& forall|i: int| 0 <= i < after.len() ==> after[i] == line[i]
        }),
{
}

/// The bytes of the line that is being typed.
pub struct LineBuffer {
    bytes: [u8; LINE_CAPACITY],
    fill: usize,
}

impl View for LineBuffer {
    type V = Seq<u8>;

    closed spec fn view(&self) -> Seq<u8> {
        self.bytes@.subrange(0, self.fill as int)
    }
}

impl LineBuffer {
    /// The fill length is within the capacity.
    pub closed spec fn wf(&self) -> bool {
        self.fill <= LINE_CAPACITY
    }

    /// A well-formed buffer holds no more than its capacity.
    pub proof fn lemma_within_capacity(&self)
        requires
            self.wf(),
        ensures
            self@.len() <= LINE_CAPACITY,
    {
    }

    /// An empty line.
    pub fn new() -> (line: LineBuffer)
        ensures
            line.wf(),
            line@ == Seq::<u8>::empty(),
    {
        let line = LineBuffer { bytes: [0u8; LINE_CAPACITY], fill: 0 };
        assert(line@ =~= Seq::<u8>::empty());
        line
    }

    /// The number of bytes in the line.
    pub fn len(&self) -> (len: usize)
        requires
            self.wf(),
        ensures
            len == self@.len(),
    {
        self.fill
    }

    /// Takes one byte.
    pub fn accept(&mut self, byte: u8) -> (event: LineEvent)
        requires
            old(self).wf(),
        ensures
            final(self).wf(),
            (final(self)@, event) == line_step(old(self)@, byte),
    {
        if byte == CARRIAGE_RETURN || byte == LINE_FEED {
            if self.fill > 0 {
                LineEvent::Submitted
            } else {
                LineEvent::Blank
            }
        } else if byte == BACKSPACE || byte == DELETE {
            if self.fill > 0 {
                self.fill -= 1;
                assert(self@ =~= old(self)@.drop_last());
                LineEvent::Erased
            } else {
                LineEvent::Unchanged
            }
        } else if self.fill < LINE_CAPACITY {
            self.bytes[self.fill] = byte;
            self.fill += 1;
            assert(self@ =~= old(self)@.push(byte));
            LineEvent::Stored
        } else {
            LineEvent::Dropped
        }
    }

    /// Hands the line out and leaves the buffer empty.
    pub fn take(&mut self) -> (line: Vec<u8>)
        requires
            old(self).wf(),
        ensures
            final(self).wf(),
            line@ == old(self)@,
            final(self)@ == Seq::<u8>::empty(),
    {
        let all = vstd::array::array_as_slice(&self.bytes);
        let line = vstd::slice::slice_to_vec(vstd::slice::slice_subrange(all, 0, self.fill));
        self.fill = 0;
        assert(self@ =~= Seq::<u8>::empty());
        line
    }
}

} // verus!
