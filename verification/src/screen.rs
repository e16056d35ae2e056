//! The editor's screen: the text as the terminal shows it, with a mark where
//! the cursor stands.

use vstd::prelude::*;
use vstd::string::StringSliceAdditionalSpecFns;
use crate::text::{push_str, push_wire_byte, wire_byte, wire_text};

verus! {

/// Clears the terminal and puts its cursor in the upper left corner.
pub const CLEAR_SCREEN: &'static str = "\x1b[2J\x1b[H";

/// The line at the top of the editor's screen.
pub const TITLE: &'static str = "--- RYU EDITOR (CTRL+X to Exit) ---\r\n";

/// A space in inverse video: the mark that shows where the cursor stands.
pub const CURSOR_MARK: &'static str = "\x1b[7m \x1b[0m";

/// The text as it goes over the wire, with the cursor mark before the byte at
/// `cursor`, or behind the text where the cursor stands at its end. A cursor
/// outside the text leaves no mark.
pub open spec fn marked_text(text: Seq<u8>, cursor: int) -> Seq<u8> {
    if 0 <= cursor <= text.len() {
        wire_text(text.subrange(0, cursor)) + CURSOR_MARK.spec_bytes() + wire_text(
            text.subrange(cursor, text.len() as int),
        )
    } else {
        wire_text(text)
    }
}

/// The whole screen: the terminal is cleared, then come the title and the
/// marked text.
pub open spec fn screen(text: Seq<u8>, cursor: int) -> Seq<u8> {
    CLEAR_SCREEN.spec_bytes() + TITLE.spec_bytes() + marked_text(text, cursor)
}

/// What of the marked text is written once the first `upto` bytes are done.
spec fn marked_prefix(text: Seq<u8>, cursor: int, upto: int) -> Seq<u8> {
    if 0 <= cursor < upto {
        wire_text(text.subrange(0, cursor)) + CURSOR_MARK.spec_bytes() + wire_text(
            text.subrange(cursor, upto),
        )
    } else {
        wire_text(text.subrange(0, upto))
    }
}

/// The bytes that draw the editor's screen for `buf` with the cursor at
/// `cursor`.
pub fn refresh_screen(buf: &[u8], cursor: usize) -> (out: Vec<u8>)
    ensures
        out@ == screen(buf@, cursor as int),
{
    let mut out: Vec<u8> = Vec::new();
    push_str(&mut out, CLEAR_SCREEN);
    push_str(&mut out, TITLE);
    let ghost head = out@;
    let mut i: usize = 0;
    assert(buf@.subrange(0, 0) =~= Seq::<u8>::empty());
    assert(out@ =~= head + marked_prefix(buf@, cursor as int, 0));
    while i < buf.len()
        invariant
            i <= buf@.len(),
            head == CLEAR_SCREEN.spec_bytes() + TITLE.spec_bytes(),
            out@ == head + marked_prefix(buf@, cursor as int, i as int),
        decreases buf@.len() - i,
    {
        if i == cursor {
            push_str(&mut out, CURSOR_MARK);
            assert(buf@.subrange(i as int, i as int) =~= Seq::<u8>::empty());
        }
        push_wire_byte(&mut out, buf[i]);
        proof {
            let from: int = if cursor < i + 1 { cursor as int } else { 0 };
            assert(buf@.subrange(from, i + 1).drop_last() =~= buf@.subrange(from, i as int));
            assert(buf@.subrange(from, i + 1).last() == buf@[i as int]);
            assert(wire_text(buf@.subrange(from, i + 1)) == wire_text(buf@.subrange(from, i as int))
                + wire_byte(buf@[i as int]));
            assert(wire_text(Seq::<u8>::empty()) =~= Seq::<u8>::empty());
            assert(out@ =~= head + marked_prefix(buf@, cursor as int, i + 1));
        }
        i += 1;
    }
    if cursor == buf.len() {
        push_str(&mut out, CURSOR_MARK);
        assert(buf@.subrange(cursor as int, buf@.len() as int) =~= Seq::<u8>::empty());
    }
    assert(buf@.subrange(0, buf@.len() as int) =~= buf@);
    assert(out@ =~= screen(buf@, cursor as int));
    out
}

} // verus!
