//! The text editor: a buffer of plain text, a cursor into it, and the keys
//! that change them.

use vstd::prelude::*;
use crate::text::{
    count_leading_spaces, find_line_end, find_line_start, is_erase, is_plain_text, is_printable,
    is_terminator, leading_spaces, lemma_leading_spaces, lemma_leading_spaces_are,
    lemma_line_end, lemma_line_start, lemma_line_start_is, line_end, line_start, spaces,
    BACKSPACE, CARRIAGE_RETURN, DELETE, LINE_FEED, SPACE,
};

verus! {

/// How many spaces the tab key inserts.
pub const TAB_WIDTH: usize = 4;

/// The byte that opens an escape sequence.
pub const ESCAPE: u8 = 27;

/// The byte that follows the escape byte in the sequences of the arrow keys:
/// an opening bracket.
pub const BRACKET: u8 = 91;

/// The letters that end the sequences of the four arrow keys.
pub const ARROW_UP: u8 = 65;

pub const ARROW_DOWN: u8 = 66;

pub const ARROW_RIGHT: u8 = 67;

pub const ARROW_LEFT: u8 = 68;

/// The byte that leaves the editor: control and X.
pub const EXIT_KEY: u8 = 24;

/// The byte that the tab key sends.
pub const TAB: u8 = 9;

/// How far an escape sequence has come in.
#[derive(Clone, Copy, Debug, PartialEq, Eq)]
pub enum EscapeState {
    /// No sequence is under way: a byte is a key of its own.
    Idle,
    /// The escape byte came; an opening bracket is due.
    SawEscape,
    /// Escape and bracket came; the letter that names the key is due.
    SawBracket,
}

/// A direction in which the cursor moves.
#[derive(Clone, Copy, Debug, PartialEq, Eq)]
pub enum Direction {
    Up,
    Down,
    Left,
    Right,
}

/// What a byte asks of the editor, once escape sequences are told from keys.
#[derive(Clone, Copy, Debug, PartialEq, Eq)]
pub enum KeyAction {
    /// Nothing: the byte was part of a sequence, or is no key at all.
    Ignore,
    /// Put this printable character in at the cursor.
    Insert(u8),
    /// Put a tab's worth of spaces in at the cursor.
    Tab,
    /// Break the line at the cursor and indent the new line like the old.
    Newline,
    /// Take out the character before the cursor.
    Delete,
    /// Move the cursor by one step.
    MoveCursor(Direction),
    /// Draw the screen again and change nothing.
    Redraw,
    /// Leave the editor.
    Exit,
}

/// The state after a byte in a given state, and what the byte asks for.
///
/// From `Idle` a byte is a key: escape opens a sequence, the others act at
/// once or are ignored. From `SawEscape` only a bracket goes on; any other
/// byte ends the sequence and is lost. From `SawBracket` the letters `A` to
/// `D` move the cursor, any other byte only draws the screen again; either
/// way the sequence is over.
pub open spec fn key_transition(state: EscapeState, byte: u8) -> (EscapeState, KeyAction) {
    match state {
        EscapeState::Idle => {
            if byte == ESCAPE {
                (EscapeState::SawEscape, KeyAction::Ignore)
            } else if byte == EXIT_KEY {
                (EscapeState::Idle, KeyAction::Exit)
            } else if byte == TAB {
                (EscapeState::Idle, KeyAction::Tab)
            } else if is_terminator(byte) {
                (EscapeState::Idle, KeyAction::Newline)
            } else if is_erase(byte) {
                (EscapeState::Idle, KeyAction::Delete)
            } else if is_printable(byte) {
                (EscapeState::Idle, KeyAction::Insert(byte))
            } else {
                (EscapeState::Idle, KeyAction::Ignore)
            }
        },
        EscapeState::SawEscape => {
            if byte == BRACKET {
                (EscapeState::SawBracket, KeyAction::Ignore)
            } else {
                (EscapeState::Idle, KeyAction::Ignore)
            }
        },
        EscapeState::SawBracket => {
            if byte == ARROW_UP {
                (EscapeState::Idle, KeyAction::MoveCursor(Direction::Up))
            } else if byte == ARROW_DOWN {
                (EscapeState::Idle, KeyAction::MoveCursor(Direction::Down))
            } else if byte == ARROW_RIGHT {
                (EscapeState::Idle, KeyAction::MoveCursor(Direction::Right))
            } else if byte == ARROW_LEFT {
                (EscapeState::Idle, KeyAction::MoveCursor(Direction::Left))
            } else {
                (EscapeState::Idle, KeyAction::Redraw)
            }
        },
    }
}

/// One step of the escape-sequence machine.
pub fn escape_step(state: EscapeState, byte: u8) -> (step: (EscapeState, KeyAction))
    ensures
        step == key_transition(state, byte),
{
    match state {
        EscapeState::Idle => {
            let action = if byte == ESCAPE {
                return (EscapeState::SawEscape, KeyAction::Ignore);
            } else if byte == EXIT_KEY {
                KeyAction::Exit
            } else if byte == TAB {
                KeyAction::Tab
            } else if byte == CARRIAGE_RETURN || byte == LINE_FEED {
                KeyAction::Newline
            } else if byte == BACKSPACE || byte == DELETE {
                KeyAction::Delete
            } else if byte >= 32 && byte <= 126 {
                KeyAction::Insert(byte)
            } else {
                KeyAction::Ignore
            };
            (EscapeState::Idle, action)
        },
        EscapeState::SawEscape => {
            if byte == BRACKET {
                (EscapeState::SawBracket, KeyAction::Ignore)
            } else {
                (EscapeState::Idle, KeyAction::Ignore)
            }
        },
        EscapeState::SawBracket => {
            let action = if byte == ARROW_UP {
                KeyAction::MoveCursor(Direction::Up)
            } else if byte == ARROW_DOWN {
                KeyAction::MoveCursor(Direction::Down)
            } else if byte == ARROW_RIGHT {
                KeyAction::MoveCursor(Direction::Right)
            } else if byte == ARROW_LEFT {
                KeyAction::MoveCursor(Direction::Left)
            } else {
                KeyAction::Redraw
            };
            (EscapeState::Idle, action)
        },
    }
}

/// Where the cursor goes when it moves one line up or down from `pos`.
///
/// The column is the distance of `pos` from the start of its line. On the
/// first line going up, and on the last line going down, the cursor stays.
/// Otherwise it lands on the line before or after, in the same column, or at
/// the end of that line where the line is shorter.
pub open spec fn vertical_pos(text: Seq<u8>, pos: int, up: bool) -> int {
    let start = line_start(text, pos);
    let column = pos - start;
    if up {
        if start == 0 {
            pos
        } else {
            let prev_end = start - 1;
            let prev_start = line_start(text, prev_end);
            prev_start + vstd::math::min(column, prev_end - prev_start)
        }
    } else {
        let end = line_end(text, pos);
        if end >= text.len() {
            pos
        } else {
            let next_start = end + 1;
            let next_end = line_end(text, next_start);
            next_start + vstd::math::min(column, next_end - next_start)
        }
    }
}

/// A vertical move stays inside the text.
pub proof fn lemma_vertical_pos_in_text(text: Seq<u8>, pos: int, up: bool)
    requires
        0 <= pos <= text.len(),
    ensures
        0 <= vertical_pos(text, pos, up) <= text.len(),
{
    lemma_line_start(text, pos);
    lemma_line_end(text, pos);
    if up {
        if line_start(text, pos) > 0 {
            lemma_line_start(text, line_start(text, pos) - 1);
        }
    } else {
        if line_end(text, pos) < text.len() {
            lemma_line_end(text, line_end(text, pos) + 1);
        }
    }
}

/// The offset one line above or below `current_pos`, in the same column or at
/// the end of a shorter line.
pub fn find_vertical_pos(buf: &[u8], current_pos: usize, up: bool) -> (pos: usize)
    requires
        current_pos <= buf@.len(),
    ensures
        pos == vertical_pos(buf@, current_pos as int, up),
        pos <= buf@.len(),
{
    proof {
        lemma_vertical_pos_in_text(buf@, current_pos as int, up);
        lemma_line_start(buf@, current_pos as int);
        lemma_line_end(buf@, current_pos as int);
    }
    let start = find_line_start(buf, current_pos);
    let column = current_pos - start;
    if up {
        if start == 0 {
            return current_pos;
        }
        let prev_end = start - 1;
        let prev_start = find_line_start(buf, prev_end);
        proof {
            lemma_line_start(buf@, prev_end as int);
        }
        let prev_len = prev_end - prev_start;
        if column < prev_len {
            prev_start + column
        } else {
            prev_start + prev_len
        }
    } else {
        let end = find_line_end(buf, current_pos);
        if end >= buf.len() {
            return current_pos;
        }
        let next_start = end + 1;
        let next_end = find_line_end(buf, next_start);
        proof {
            lemma_line_end(buf@, next_start as int);
        }
        let next_len = next_end - next_start;
        if column < next_len {
            next_start + column
        } else {
            next_start + next_len
        }
    }
}

/// What an editor holds, as plain values.
pub struct EditorModel {
    /// The text.
    pub text: Seq<u8>,
    /// The offset of the cursor in the text.
    pub cursor: int,
}

impl EditorModel {
    /// An editor without text, the cursor at the start.
    pub open spec fn empty() -> EditorModel {
        EditorModel { text: Seq::empty(), cursor: 0 }
    }

    /// The cursor lies in the text or at its end, and the text is plain.
    pub open spec fn valid(self) -> bool {
        &&& 0 <= self.cursor <= self.text.len()
        &&& is_plain_text(self.text)
    }

    /// The text before the cursor.
    pub open spec fn before(self) -> Seq<u8> {
        self.text.subrange(0, self.cursor)
    }

    /// The text from the cursor on.
    pub open spec fn after(self) -> Seq<u8> {
        self.text.subrange(self.cursor, self.text.len() as int)
    }

    /// The editor with `run` put in at the cursor and the cursor behind it.
    pub open spec fn typed(self, run: Seq<u8>) -> EditorModel {
        EditorModel {
            text: self.before() + run + self.after(),
            cursor: self.cursor + run.len(),
        }
    }

    /// The number of spaces at the start of the cursor's line, as far as they
    /// lie before the cursor.
    pub open spec fn indent(self) -> int {
        leading_spaces(self.text, line_start(self.text, self.cursor), self.cursor)
    }

    /// After a printable character was typed.
    pub open spec fn insert(self, byte: u8) -> EditorModel {
        EditorModel { text: self.text.insert(self.cursor, byte), cursor: self.cursor + 1 }
    }

    /// After the tab key.
    pub open spec fn tab(self) -> EditorModel {
        self.typed(spaces(TAB_WIDTH as int))
    }

    /// After the return key: a line feed, then as many spaces as the line
    /// that was left has at its start.
    pub open spec fn newline(self) -> EditorModel {
        self.typed(seq![LINE_FEED] + spaces(self.indent()))
    }

    /// After the backspace key.
    pub open spec fn backspace(self) -> EditorModel {
        if self.cursor > 0 {
            EditorModel { text: self.text.remove(self.cursor - 1), cursor: self.cursor - 1 }
        } else {
            self
        }
    }

    /// After an arrow key.
    pub open spec fn moved(self, direction: Direction) -> EditorModel {
        let cursor = match direction {
            Direction::Up => vertical_pos(self.text, self.cursor, true),
            Direction::Down => vertical_pos(self.text, self.cursor, false),
            Direction::Right => if self.cursor < self.text.len() {
                self.cursor + 1
            } else {
                self.cursor
            },
            Direction::Left => if self.cursor > 0 {
                self.cursor - 1
            } else {
                self.cursor
            },
        };
        EditorModel { text: self.text, cursor }
    }
}

/// A buffer of plain text with a cursor in it.
///
/// The text grows without a bound of its own: it ends where memory does.
pub struct Editor {
    text: Vec<u8>,
    cursor: usize,
}

impl View for Editor {
    type V = EditorModel;

    closed spec fn view(&self) -> EditorModel {
        EditorModel { text: self.text@, cursor: self.cursor as int }
    }
}

impl Editor {
    /// An editor with no text.
    pub fn new() -> (editor: Editor)
        ensures
            editor@ == EditorModel::empty(),
            editor@.valid(),
    {
        let editor = Editor { text: Vec::new(), cursor: 0 };
        assert(editor@.text =~= Seq::<u8>::empty());
        editor
    }

    /// An editor over `text` with the cursor at `cursor`, where that is a
    /// valid state: where the text is plain and the cursor lies in it.
    pub fn with_text(text: Vec<u8>, cursor: usize) -> (made: Option<Editor>)
        ensures
            made is Some <==> (EditorModel { text: text@, cursor: cursor as int }).valid(),
            made is Some ==> made->0@ == (EditorModel { text: text@, cursor: cursor as int }),
    {
        if cursor > text.len() {
            return None;
        }
        let mut i: usize = 0;
        while i < text.len()
            invariant
                i <= text@.len(),
                is_plain_text(text@.subrange(0, i as int)),
            decreases text@.len() - i,
        {
            let byte = text[i];
            if !(byte == LINE_FEED || (byte >= 32 && byte <= 126)) {
                assert(!is_plain_text(text@)) by {
                    assert(!(text@[i as int] == LINE_FEED || is_printable(text@[i as int])));
                }
                return None;
            }
            assert(is_plain_text(text@.subrange(0, i + 1))) by {
                assert forall|j: int| 0 <= j < i + 1 implies #[trigger] text@.subrange(0, i + 1)[j]
                    == LINE_FEED || is_printable(text@.subrange(0, i + 1)[j]) by {
                    if j < i {
                        assert(text@.subrange(0, i as int)[j] == text@[j]);
                    }
                }
            }
            i += 1;
        }
        assert(text@.subrange(0, i as int) =~= text@);
        Some(Editor { text, cursor })
    }

    /// The text.
    pub fn text(&self) -> (text: &[u8])
        ensures
            text@ == self@.text,
    {
        self.text.as_slice()
    }

    /// The offset of the cursor in the text.
    pub fn cursor(&self) -> (cursor: usize)
        ensures
            cursor == self@.cursor,
    {
        self.cursor
    }

    /// Puts a printable character in at the cursor and moves the cursor
    /// behind it.
    pub fn insert(&mut self, byte: u8)
        requires
            old(self)@.valid(),
            is_printable(byte),
        ensures
            final(self)@ == old(self)@.insert(byte),
            final(self)@.valid(),
    {
        self.text.insert(self.cursor, byte);
        assert(self.cursor < self.text.len());
        self.cursor += 1;
    }

    /// Puts `count` spaces in at the cursor and moves the cursor behind them.
    fn insert_spaces(&mut self, count: usize)
        requires
            old(self)@.valid(),
        ensures
            final(self)@ == old(self)@.typed(spaces(count as int)),
            final(self)@.valid(),
    {
        let ghost start = self@;
        let mut done: usize = 0;
        assert(self@.text =~= start.typed(spaces(0)).text);
        while done < count
            invariant
                done <= count,
                start.valid(),
                self@ == start.typed(spaces(done as int)),
                self@.valid(),
            decreases count - done,
        {
            self.text.insert(self.cursor, SPACE);
            assert(self.cursor < self.text.len());
            self.cursor += 1;
            done += 1;
            assert(self@.text =~= start.typed(spaces(done as int)).text);
        }
    }

    /// The tab key: spaces up to the width of a tab.
    pub fn tab(&mut self)
        requires
            old(self)@.valid(),
        ensures
            final(self)@ == old(self)@.tab(),
            final(self)@.valid(),
    {
        self.insert_spaces(TAB_WIDTH);
    }

    /// The return key: breaks the line at the cursor and gives the new line
    /// the indentation of the line that was left.
    pub fn newline(&mut self)
        requires
            old(self)@.valid(),
        ensures
            final(self)@ == old(self)@.newline(),
            final(self)@.valid(),
    {
        let ghost start = self@;
        let broken_at = self.cursor;
        self.text.insert(self.cursor, LINE_FEED);
        assert(self.cursor < self.text.len());
        self.cursor += 1;
        assert(self@.text =~= start.typed(seq![LINE_FEED]).text);

        proof {
            lemma_line_start(self@.text, broken_at as int);
            lemma_same_prefix_same_line(start.text, self@.text, broken_at as int);
        }
        let line = find_line_start(self.text.as_slice(), broken_at);
        let indent = count_leading_spaces(self.text.as_slice(), line, broken_at);
        assert(indent == start.indent());

        self.insert_spaces(indent);
        assert(self@.text =~= start.newline().text);
    }

    /// The backspace key: takes out the character before the cursor. Says
    /// whether there was one.
    pub fn backspace(&mut self) -> (removed: bool)
        requires
            old(self)@.valid(),
        ensures
            removed == (old(self)@.cursor > 0),
            final(self)@ == old(self)@.backspace(),
            final(self)@.valid(),
    {
        if self.cursor > 0 {
            self.cursor -= 1;
            self.text.remove(self.cursor);
            true
        } else {
            false
        }
    }

    /// An arrow key: moves the cursor one step, or leaves it where no step
    /// can be made.
    pub fn move_cursor(&mut self, direction: Direction)
        requires
            old(self)@.valid(),
        ensures
            final(self)@ == old(self)@.moved(direction),
            final(self)@.valid(),
    {
        match direction {
            Direction::Up => {
                self.cursor = find_vertical_pos(self.text.as_slice(), self.cursor, true);
            },
            Direction::Down => {
                self.cursor = find_vertical_pos(self.text.as_slice(), self.cursor, false);
            },
            Direction::Right => {
                if self.cursor < self.text.len() {
                    self.cursor += 1;
                }
            },
            Direction::Left => {
                if self.cursor > 0 {
                    self.cursor -= 1;
                }
            },
        }
    }
}

/// A character typed at the cursor is spliced into the text there: what
/// stood before the cursor stays, the character follows, what stood from the
/// cursor on comes after it, and the cursor stands behind the character.
pub proof fn lemma_insert_splices(editor: EditorModel, byte: u8)
    requires
        0 <= editor.cursor <= editor.text.len(),
    ensures
        editor.insert(byte).cursor == editor.cursor + 1,
        editor.insert(byte).text == editor.before() + seq![byte] + editor.after(),
        editor.insert(byte) == editor.typed(seq![byte]),
{
    assert(editor.insert(byte).text =~= editor.before() + seq![byte] + editor.after());
}

/// The return key hands the indentation on. Where the cursor does not stand
/// before a space, the line that the key opens begins right behind the new
/// line feed, has as many spaces at its start as the line that was left had
/// before the cursor, and the cursor stands behind them. A line without
/// indentation gets none.
pub proof fn lemma_newline_keeps_indent(editor: EditorModel)
    requires
        editor.valid(),
        editor.cursor == editor.text.len() || editor.text[editor.cursor] != SPACE,
    ensures
        ({
            let after = editor.newline();
            let opened = editor.cursor + 1;
            &&& after.text[editor.cursor] == LINE_FEED
            &&& line_start(after.text, after.cursor) == opened
            &&& leading_spaces(after.text, opened, line_end(after.text, opened)) == editor.indent()
            &&& after.cursor == opened + editor.indent()
        }),
{
    let after = editor.newline();
    let opened = editor.cursor + 1;
    let indent = editor.indent();
    lemma_line_start(editor.text, editor.cursor);
    lemma_leading_spaces(editor.text, line_start(editor.text, editor.cursor), editor.cursor);
    assert(after.text.len() == editor.text.len() + 1 + indent);
    assert(after.text[editor.cursor] == LINE_FEED);
    assert forall|i: int| opened <= i < opened + indent implies after.text[i] == SPACE by {
        assert(after.text[i] == spaces(indent)[i - opened]);
    }
    lemma_line_start_is(after.text, opened, after.cursor);
    lemma_line_end(after.text, opened);
    let end = line_end(after.text, opened);
    if end < opened + indent {
        assert(after.text[end] == SPACE);
    }
    if opened + indent < end {
        assert(after.text[opened + indent] == editor.text[editor.cursor]);
    }
    lemma_leading_spaces_are(after.text, opened, end, indent);
}

/// Every key leaves a valid editor valid: the cursor stays in the text and
/// the text stays plain.
pub proof fn lemma_keys_keep_valid(editor: EditorModel, byte: u8, direction: Direction)
    requires
        editor.valid(),
        is_printable(byte),
    ensures
        editor.insert(byte).valid(),
        editor.tab().valid(),
        editor.newline().valid(),
        editor.backspace().valid(),
        editor.moved(direction).valid(),
{
    lemma_line_start(editor.text, editor.cursor);
    lemma_leading_spaces(editor.text, line_start(editor.text, editor.cursor), editor.cursor);
    lemma_vertical_pos_in_text(editor.text, editor.cursor, true);
    lemma_vertical_pos_in_text(editor.text, editor.cursor, false);
    lemma_typed_keeps_valid(editor, spaces(TAB_WIDTH as int));
    lemma_typed_keeps_valid(editor, seq![LINE_FEED] + spaces(editor.indent()));
}

/// Plain text typed at the cursor leaves a valid editor valid.
pub proof fn lemma_typed_keeps_valid(editor: EditorModel, run: Seq<u8>)
    requires
        editor.valid(),
        is_plain_text(run),
    ensures
        editor.typed(run).valid(),
{
    let after = editor.typed(run);
    assert forall|i: int| 0 <= i < after.text.len() implies #[trigger] after.text[i] == LINE_FEED
        || is_printable(after.text[i]) by {
        if i < editor.cursor {
            assert(after.text[i] == editor.text[i]);
        } else if i < editor.cursor + run.len() {
            assert(after.text[i] == run[i - editor.cursor]);
        } else {
            assert(after.text[i] == editor.text[i - run.len()]);
        }
    }
}

/// Two texts that agree before `pos` have the same line start and the same
/// leading spaces there.
pub proof fn lemma_same_prefix_same_line(a: Seq<u8>, b: Seq<u8>, pos: int)
    requires
        0 <= pos <= a.len(),
        pos <= b.len(),
        forall|i: int| 0 <= i < pos ==> a[i] == b[i],
    ensures
        line_start(a, pos) == line_start(b, pos),
        leading_spaces(a, line_start(a, pos), pos) == leading_spaces(b, line_start(b, pos), pos),
{
    lemma_same_line_start(a, b, pos);
    lemma_line_start(a, pos);
    lemma_same_leading_spaces(a, b, line_start(a, pos), pos);
}

proof fn lemma_same_line_start(a: Seq<u8>, b: Seq<u8>, pos: int)
    requires
        0 <= pos <= a.len(),
        pos <= b.len(),
        forall|i: int| 0 <= i < pos ==> a[i] == b[i],
    ensures
        line_start(a, pos) == line_start(b, pos),
    decreases pos,
{
    if pos > 0 && a[pos - 1] != LINE_FEED {
        lemma_same_line_start(a, b, pos - 1);
    }
}

proof fn lemma_same_leading_spaces(a: Seq<u8>, b: Seq<u8>, from: int, to: int)
    requires
        0 <= from <= to <= a.len(),
        to <= b.len(),
        forall|i: int| 0 <= i < to ==> a[i] == b[i],
    ensures
        leading_spaces(a, from, to) == leading_spaces(b, from, to),
    decreases to - from,
{
    if from < to && a[from] == SPACE {
        lemma_same_leading_spaces(a, b, from + 1, to);
    }
}

} // verus!
