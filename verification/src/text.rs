//! Lines, indentation and line breaks in a sequence of bytes.

use vstd::prelude::*;
use vstd::string::StringSliceAdditionalSpecFns;

verus! {

/// The byte that ends a line of stored text.
pub const LINE_FEED: u8 = 10;

/// The byte that, with a line feed after it, makes up a line break on the wire.
pub const CARRIAGE_RETURN: u8 = 13;

/// The byte that indentation is made of.
pub const SPACE: u8 = 32;

/// The byte that the backspace key sends.
pub const BACKSPACE: u8 = 8;

/// The byte that the delete key sends.
pub const DELETE: u8 = 127;

/// Whether the byte ends a line: carriage return or line feed.
pub open spec fn is_terminator(byte: u8) -> bool {
    byte == CARRIAGE_RETURN || byte == LINE_FEED
}

/// Whether the byte erases: backspace or delete.
pub open spec fn is_erase(byte: u8) -> bool {
    byte == BACKSPACE || byte == DELETE
}

/// A printable ASCII character: the bytes from 32 to 126, both included.
pub open spec fn is_printable(byte: u8) -> bool {
    32 <= byte <= 126
}

/// Text that holds nothing but printable characters and line feeds.
pub open spec fn is_plain_text(text: Seq<u8>) -> bool {
    forall|i: int| 0 <= i < text.len() ==> #[trigger] text[i] == LINE_FEED || is_printable(text[i])
}

/// The offset at which the line around `pos` begins: the nearest offset at or
/// before `pos` that is the start of the text or follows a line feed.
pub open spec fn line_start(text: Seq<u8>, pos: int) -> int
    decreases pos,
{
    if pos <= 0 {
        0
    } else if text[pos - 1] == LINE_FEED {
        pos
    } else {
        line_start(text, pos - 1)
    }
}

/// The offset at which the line around `pos` ends: the nearest offset at or
/// after `pos` that holds a line feed, or the length of the text.
pub open spec fn line_end(text: Seq<u8>, pos: int) -> int
    decreases text.len() - pos,
{
    if pos >= text.len() {
        text.len() as int
    } else if text[pos] == LINE_FEED {
        pos
    } else {
        line_end(text, pos + 1)
    }
}

/// The number of spaces that stand in a row from `from` on, before `to`.
pub open spec fn leading_spaces(text: Seq<u8>, from: int, to: int) -> int
    decreases to - from,
{
    if 0 <= from < to && text[from] == SPACE {
        1 + leading_spaces(text, from + 1, to)
    } else {
        0
    }
}

/// A run of `count` spaces.
pub open spec fn spaces(count: int) -> Seq<u8> {
    Seq::new(count as nat, |i: int| SPACE)
}

/// A line break as it goes over the wire.
pub open spec fn line_break() -> Seq<u8> {
    seq![CARRIAGE_RETURN, LINE_FEED]
}

/// What one stored byte becomes on the wire: a line feed becomes a line
/// break, any other byte stays.
pub open spec fn wire_byte(byte: u8) -> Seq<u8> {
    if byte == LINE_FEED {
        line_break()
    } else {
        seq![byte]
    }
}

/// The text with every line feed turned into a line break.
pub open spec fn wire_text(text: Seq<u8>) -> Seq<u8>
    decreases text.len(),
{
    if text.len() == 0 {
        Seq::empty()
    } else {
        wire_text(text.drop_last()) + wire_byte(text.last())
    }
}

/// A line without the carriage return that may stand at its end.
pub open spec fn without_carriage_return(line: Seq<u8>) -> Seq<u8> {
    if line.len() > 0 && line.last() == CARRIAGE_RETURN {
        line.drop_last()
    } else {
        line
    }
}

/// The lines of the text from `pos` on, each followed by a line break.
///
/// A line ends at a line feed, and a carriage return just before that line
/// feed belongs to the ending, not to the line. What follows the last line
/// feed is a line too, unless it is empty; a carriage return at its end
/// stays.
pub open spec fn lines_from(text: Seq<u8>, pos: int) -> Seq<u8>
    decreases text.len() - pos,
    via lines_from_decreases
{
    if pos < 0 || pos >= text.len() {
        Seq::empty()
    } else {
        let end = line_end(text, pos);
        if end < text.len() {
            without_carriage_return(text.subrange(pos, end)) + line_break() + lines_from(
                text,
                end + 1,
            )
        } else {
            text.subrange(pos, end) + line_break()
        }
    }
}

#[via_fn]
proof fn lines_from_decreases(text: Seq<u8>, pos: int) {
    if 0 <= pos < text.len() {
        lemma_line_end(text, pos);
    }
}

/// The lines of the text, each followed by a line break.
pub open spec fn broken_lines(text: Seq<u8>) -> Seq<u8> {
    lines_from(text, 0)
}

/// `line_start` lies in the text at or before `pos`, a line feed or the start
/// of the text stands before it, and no line feed lies between it and `pos`.
pub proof fn lemma_line_start(text: Seq<u8>, pos: int)
    requires
        0 <= pos <= text.len(),
    ensures
        0 <= line_start(text, pos) <= pos,
        line_start(text, pos) == 0 || text[line_start(text, pos) - 1] == LINE_FEED,
        forall|i: int| line_start(text, pos) <= i < pos ==> text[i] != LINE_FEED,
    decreases pos,
{
    if pos > 0 && text[pos - 1] != LINE_FEED {
        lemma_line_start(text, pos - 1);
    }
}

/// `line_end` lies in the text at or after `pos`, a line feed or the end of
/// the text stands at it, and no line feed lies between `pos` and it.
pub proof fn lemma_line_end(text: Seq<u8>, pos: int)
    requires
        0 <= pos <= text.len(),
    ensures
        pos <= line_end(text, pos) <= text.len(),
        line_end(text, pos) == text.len() || text[line_end(text, pos)] == LINE_FEED,
        forall|i: int| pos <= i < line_end(text, pos) ==> text[i] != LINE_FEED,
    decreases text.len() - pos,
{
    if pos < text.len() && text[pos] != LINE_FEED {
        lemma_line_end(text, pos + 1);
    }
}

/// The spaces counted from `from` all lie before `to`, each of them is a
/// space, and the count stops at `to` or at a byte that is no space.
pub proof fn lemma_leading_spaces(text: Seq<u8>, from: int, to: int)
    requires
        0 <= from <= to <= text.len(),
    ensures
        0 <= leading_spaces(text, from, to) <= to - from,
        forall|i: int| from <= i < from + leading_spaces(text, from, to) ==> text[i] == SPACE,
        from + leading_spaces(text, from, to) == to || text[from + leading_spaces(text, from, to)]
            != SPACE,
    decreases to - from,
{
    if from < to && text[from] == SPACE {
        lemma_leading_spaces(text, from + 1, to);
    }
}

/// Turning line feeds into line breaks goes through concatenation.
pub proof fn lemma_wire_text_concat(a: Seq<u8>, b: Seq<u8>)
    ensures
        wire_text(a + b) == wire_text(a) + wire_text(b),
    decreases b.len(),
{
    if b.len() == 0 {
        assert(a + b =~= a);
    } else {
        lemma_wire_text_concat(a, b.drop_last());
        assert((a + b).drop_last() =~= a + b.drop_last());
        assert((a + b).last() == b.last());
    }
}

/// Where a line feed or the start of the text stands before `start` and no
/// line feed lies between `start` and `pos`, the line around `pos` begins at
/// `start`.
pub proof fn lemma_line_start_is(text: Seq<u8>, start: int, pos: int)
    requires
        0 <= start <= pos <= text.len(),
        start == 0 || text[start - 1] == LINE_FEED,
        forall|i: int| start <= i < pos ==> text[i] != LINE_FEED,
    ensures
        line_start(text, pos) == start,
    decreases pos - start,
{
    if start < pos {
        lemma_line_start_is(text, start, pos - 1);
    }
}

/// Where `count` spaces stand from `from` on, before `to`, and what follows
/// them is no space or lies at `to`, the leading spaces are `count`.
pub proof fn lemma_leading_spaces_are(text: Seq<u8>, from: int, to: int, count: int)
    requires
        0 <= from,
        0 <= count,
        from + count <= to <= text.len(),
        forall|i: int| from <= i < from + count ==> text[i] == SPACE,
        from + count == to || text[from + count] != SPACE,
    ensures
        leading_spaces(text, from, to) == count,
    decreases count,
{
    if count > 0 {
        lemma_leading_spaces_are(text, from + 1, to, count - 1);
    }
}

/// Text without a line feed goes over the wire as it is.
pub proof fn lemma_wire_text_of_one_line(text: Seq<u8>)
    requires
        forall|i: int| 0 <= i < text.len() ==> text[i] != LINE_FEED,
    ensures
        wire_text(text) == text,
    decreases text.len(),
{
    if text.len() > 0 {
        lemma_wire_text_of_one_line(text.drop_last());
        assert(text.drop_last() + seq![text.last()] =~= text);
    }
}

/// The text with a line feed at its end, where it is not empty and has none
/// there yet.
pub open spec fn with_final_line_feed(text: Seq<u8>) -> Seq<u8> {
    if text.len() > 0 && text.last() != LINE_FEED {
        text.push(LINE_FEED)
    } else {
        text
    }
}

/// Of a text without carriage returns, the lines with their line breaks are
/// the text itself as it goes over the wire, closed by a line break where
/// its last line has none: every byte comes out, in its place, and every
/// line feed is kept.
pub proof fn lemma_broken_lines_keep_text(text: Seq<u8>)
    requires
        forall|i: int| 0 <= i < text.len() ==> text[i] != CARRIAGE_RETURN,
    ensures
        broken_lines(text) == wire_text(with_final_line_feed(text)),
{
    lemma_lines_from_keep_text(text, 0);
    assert(text.subrange(0, text.len() as int) =~= text);
    if text.len() > 0 && text.last() != LINE_FEED {
        lemma_wire_text_concat(text, seq![LINE_FEED]);
        assert(text.push(LINE_FEED) =~= text + seq![LINE_FEED]);
        lemma_wire_text_of_line_feed();
    } else {
        assert(wire_text(text) + Seq::<u8>::empty() =~= wire_text(text));
    }
}

proof fn lemma_wire_text_of_line_feed()
    ensures
        wire_text(seq![LINE_FEED]) == line_break(),
{
    let one = seq![LINE_FEED];
    assert(one.drop_last() =~= Seq::<u8>::empty());
    assert(wire_text(one.drop_last()) =~= Seq::<u8>::empty());
    assert(wire_text(one) =~= line_break());
}

proof fn lemma_lines_from_keep_text(text: Seq<u8>, pos: int)
    requires
        0 <= pos <= text.len(),
        forall|i: int| 0 <= i < text.len() ==> text[i] != CARRIAGE_RETURN,
    ensures
        lines_from(text, pos) == wire_text(text.subrange(pos, text.len() as int)) + (if pos
            < text.len() && text.last() != LINE_FEED {
            line_break()
        } else {
            Seq::empty()
        }),
    decreases text.len() - pos,
{
    let len = text.len() as int;
    if pos >= len {
        assert(text.subrange(pos, len) =~= Seq::<u8>::empty());
        assert(wire_text(text.subrange(pos, len)) =~= Seq::<u8>::empty());
        assert(lines_from(text, pos) =~= Seq::<u8>::empty());
    } else {
        let end = line_end(text, pos);
        lemma_line_end(text, pos);
        let line = text.subrange(pos, end);
        lemma_wire_text_of_one_line(line);
        if end < len {
            lemma_lines_from_keep_text(text, end + 1);
            assert(without_carriage_return(line) == line);
            let rest = text.subrange(end + 1, len);
            lemma_wire_text_of_line_feed();
            lemma_wire_text_concat(line, seq![LINE_FEED]);
            lemma_wire_text_concat(line + seq![LINE_FEED], rest);
            assert(text.subrange(pos, len) =~= line + seq![LINE_FEED] + rest);
            if end + 1 == len {
                assert(text.last() == LINE_FEED);
            }
            assert(lines_from(text, pos) =~= wire_text(text.subrange(pos, len)) + (if text.last()
                != LINE_FEED {
                line_break()
            } else {
                Seq::empty()
            }));
        } else {
            assert(text.last() == text[len - 1]);
        }
    }
}

/// The offset at which the line around `pos` begins.
pub fn find_line_start(text: &[u8], pos: usize) -> (start: usize)
    requires
        pos <= text@.len(),
    ensures
        start == line_start(text@, pos as int),
{
    let mut start: usize = pos;
    while start > 0 && text[start - 1] != LINE_FEED
        invariant
            start <= pos <= text@.len(),
            line_start(text@, pos as int) == line_start(text@, start as int),
        decreases start,
    {
        start -= 1;
    }
    start
}

/// The offset at which the line around `pos` ends.
pub fn find_line_end(text: &[u8], pos: usize) -> (end: usize)
    requires
        pos <= text@.len(),
    ensures
        end == line_end(text@, pos as int),
{
    let mut end: usize = pos;
    while end < text.len() && text[end] != LINE_FEED
        invariant
            pos <= end <= text@.len(),
            line_end(text@, pos as int) == line_end(text@, end as int),
        decreases text@.len() - end,
    {
        end += 1;
    }
    end
}

/// The number of spaces that stand in a row from `from` on, before `to`.
pub fn count_leading_spaces(text: &[u8], from: usize, to: usize) -> (count: usize)
    requires
        from <= to <= text@.len(),
    ensures
        count == leading_spaces(text@, from as int, to as int),
{
    let mut count: usize = 0;
    while from + count < to && text[from + count] == SPACE
        invariant
            from + count <= to <= text@.len(),
            leading_spaces(text@, from as int, to as int) == count + leading_spaces(
                text@,
                from + count,
                to as int,
            ),
        decreases to - from - count,
    {
        count += 1;
    }
    count
}

/// Appends the bytes of `s` to `out`.
pub fn push_str(out: &mut Vec<u8>, s: &str)
    ensures
        final(out)@ == old(out)@ + s.spec_bytes(),
{
    out.extend_from_slice(s.as_bytes());
}

/// Appends `bytes` to `out`.
pub fn push_bytes(out: &mut Vec<u8>, bytes: &[u8])
    ensures
        final(out)@ == old(out)@ + bytes@,
{
    out.extend_from_slice(bytes);
}

/// Appends one stored byte to `out` as it goes over the wire.
pub fn push_wire_byte(out: &mut Vec<u8>, byte: u8)
    ensures
        final(out)@ == old(out)@ + wire_byte(byte),
{
    if byte == LINE_FEED {
        out.push(CARRIAGE_RETURN);
        out.push(LINE_FEED);
    } else {
        out.push(byte);
    }
}

/// Appends a line break to `out`.
pub fn push_line_break(out: &mut Vec<u8>)
    ensures
        final(out)@ == old(out)@ + line_break(),
{
    out.push(CARRIAGE_RETURN);
    out.push(LINE_FEED);
}

/// Appends the lines of `text` to `out`, each followed by a line break.
pub fn push_lines(out: &mut Vec<u8>, text: &[u8])
    ensures
        final(out)@ == old(out)@ + broken_lines(text@),
{
    let ghost before = out@;
    let mut pos: usize = 0;
    assert(out@ + lines_from(text@, 0) =~= before + broken_lines(text@));
    while pos < text.len()
        invariant
            pos <= text@.len(),
            out@ + lines_from(text@, pos as int) == before + broken_lines(text@),
        decreases text@.len() - pos,
    {
        let ghost written = out@;
        let end = find_line_end(text, pos);
        proof {
            lemma_line_end(text@, pos as int);
        }
        if end < text.len() {
            let stop = if end > pos && text[end - 1] == CARRIAGE_RETURN {
                end - 1
            } else {
                end
            };
            push_bytes(out, vstd::slice::slice_subrange(text, pos, stop));
            push_line_break(out);
            assert(text@.subrange(pos as int, stop as int) =~= without_carriage_return(
                text@.subrange(pos as int, end as int),
            ));
            assert(out@ + lines_from(text@, end + 1) =~= written + lines_from(text@, pos as int));
            pos = end + 1;
        } else {
            push_bytes(out, vstd::slice::slice_subrange(text, pos, end));
            push_line_break(out);
            assert(lines_from(text@, end as int) =~= Seq::<u8>::empty());
            assert(out@ + lines_from(text@, end as int) =~= written + lines_from(
                text@,
                pos as int,
            ));
            pos = end;
        }
    }
    assert(lines_from(text@, pos as int) =~= Seq::<u8>::empty());
    assert(out@ =~= out@ + lines_from(text@, pos as int));
}

} // verus!
