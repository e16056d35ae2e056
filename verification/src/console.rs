//! The console: the byte-by-byte front of the shell and the editor.
//!
//! Every byte that the link delivers goes to exactly one of two handlers:
//! to the line reader while the shell is in charge, to the editor while the
//! editor is.

use vstd::prelude::*;
use vstd::string::StringSliceAdditionalSpecFns;
use vstd::utf8::{
    is_leading_byte_width_1, partial_valid_utf8, partial_valid_utf8_extend_ascii_block, valid_utf8,
};
use crate::command::{lemma_command_names, words, EDIT, LIST};
use crate::editor::{lemma_same_prefix_same_line, EditorModel, EscapeState, EXIT_KEY};
use crate::line::{line_step, LineBuffer, LineEvent, LINE_CAPACITY};
use crate::session::{
    after_command, after_editor_input, initial_session, lemma_command_keeps_valid,
    lemma_edit_command, lemma_exit_keeps_text, lemma_key_keeps_valid, lemma_list_command, says,
    Mode, Outcome, Reply, Session, SessionModel, SystemAction, LIST_FOOTER, LIST_HEADER,
};
use crate::text::{
    broken_lines, is_plain_text, is_printable, is_terminator, leading_spaces,
    lemma_broken_lines_keep_text, line_break, line_start, push_bytes, push_line_break, push_str,
    spaces, wire_text, with_final_line_feed, CARRIAGE_RETURN, LINE_FEED,
};

verus! {

/// What the shell writes when it is ready for a line.
pub const PROMPT: &'static str = "> ";

/// What takes a character off the terminal: back, a space over it, back.
pub const ERASE: &'static str = "\x08 \x08";

/// What a console holds, as plain values.
pub struct ConsoleModel {
    /// The state that the shell and the editor share.
    pub session: SessionModel,
    /// The line typed so far.
    pub line: Seq<u8>,
    /// How far an escape sequence has come in.
    pub escape: EscapeState,
}

impl ConsoleModel {
    /// The session is valid and the line is within its capacity. While the
    /// shell is in charge no escape sequence is under way; while the editor
    /// is, no line is.
    pub open spec fn valid(self) -> bool {
        &&& self.session.valid()
        &&& self.line.len() <= LINE_CAPACITY
        &&& self.session.mode is Shell ==> self.escape is Idle
        &&& self.session.mode is Editor ==> self.line.len() == 0
    }
}

/// A console as it starts.
pub open spec fn initial_console() -> ConsoleModel {
    ConsoleModel { session: initial_session(), line: Seq::empty(), escape: EscapeState::Idle }
}

/// What a byte does: the console after it, what it writes, and what is left
/// for the caller to do.
pub struct Turn {
    pub next: ConsoleModel,
    pub output: Seq<u8>,
    pub action: SystemAction,
}

/// What a complete line does to the session: where it is valid UTF-8 it runs
/// as a command, where it is not it is thrown away.
pub open spec fn after_line(session: SessionModel, line: Seq<u8>) -> Outcome {
    if valid_utf8(line) {
        after_command(session, line)
    } else {
        says(session, Seq::empty())
    }
}

/// What a terminator does that completes the line `console.line`.
///
/// A line break is written, the line is run and the buffer is emptied. The
/// prompt follows unless the command put the editor in charge or ends
/// execution.
pub open spec fn after_submit(console: ConsoleModel) -> Turn {
    let ran = after_line(console.session, console.line);
    let prompt = if ran.action is Continue && ran.next.mode is Shell {
        PROMPT.spec_bytes()
    } else {
        Seq::empty()
    };
    Turn {
        next: ConsoleModel { session: ran.next, line: Seq::empty(), escape: console.escape },
        output: line_break() + ran.output + prompt,
        action: ran.action,
    }
}

/// A byte that leaves `next` behind, writes `output` and asks for nothing.
pub open spec fn turn(next: ConsoleModel, output: Seq<u8>) -> Turn {
    Turn { next, output, action: SystemAction::Continue }
}

/// What the byte `byte` does to `console`.
///
/// While the editor is in charge the byte is a key of the editor. While the
/// shell is, the line reader takes it: a stored byte is echoed, an erased
/// one is wiped off the terminal, a blank line gets a line break and a new
/// prompt, and a complete line is run.
pub open spec fn after_byte(console: ConsoleModel, byte: u8) -> Turn {
    match console.session.mode {
        Mode::Editor => {
            let key = after_editor_input(console.session, console.escape, byte);
            turn(
                ConsoleModel { session: key.next, line: console.line, escape: key.escape },
                key.output,
            )
        },
        Mode::Shell => {
            let (line, event) = line_step(console.line, byte);
            let stepped = ConsoleModel { session: console.session, line, escape: console.escape };
            match event {
                LineEvent::Stored => turn(stepped, seq![byte]),
                LineEvent::Dropped => turn(stepped, Seq::empty()),
                LineEvent::Erased => turn(stepped, ERASE.spec_bytes()),
                LineEvent::Unchanged => turn(stepped, Seq::empty()),
                LineEvent::Blank => turn(stepped, line_break() + PROMPT.spec_bytes()),
                LineEvent::Submitted => after_submit(stepped),
            }
        },
    }
}

/// The console after a run of bytes, taken one by one.
pub open spec fn after_bytes(console: ConsoleModel, bytes: Seq<u8>) -> ConsoleModel
    decreases bytes.len(),
{
    if bytes.len() == 0 {
        console
    } else {
        after_byte(after_bytes(console, bytes.drop_last()), bytes.last()).next
    }
}

/// The console with `line` as the line typed so far.
pub open spec fn with_line(console: ConsoleModel, line: Seq<u8>) -> ConsoleModel {
    ConsoleModel { session: console.session, line, escape: console.escape }
}

/// The console with `session` as its session.
pub open spec fn with_session(console: ConsoleModel, session: SessionModel) -> ConsoleModel {
    ConsoleModel { session, line: console.line, escape: console.escape }
}

/// Every byte leaves a valid console valid: the cursor stays in the text,
/// the line within its capacity, and one handler and only one is in charge.
pub proof fn lemma_byte_keeps_valid(console: ConsoleModel, byte: u8)
    requires
        console.valid(),
    ensures
        after_byte(console, byte).next.valid(),
{
    match console.session.mode {
        Mode::Editor => {
            lemma_key_keeps_valid(console.session, console.escape, byte);
        },
        Mode::Shell => {
            lemma_command_keeps_valid(console.session, console.line);
        },
    }
}

/// Bytes below 128 are valid UTF-8.
pub proof fn lemma_ascii_is_utf8(bytes: Seq<u8>)
    requires
        forall|i: int| 0 <= i < bytes.len() ==> #[trigger] bytes[i] < 128,
    ensures
        valid_utf8(bytes),
{
    assert(bytes.subrange(0, 0) =~= Seq::<u8>::empty());
    assert(partial_valid_utf8(bytes, 0));
    assert forall|i: int| 0 <= 0 <= i < bytes.len() <= bytes.len() implies #[trigger]
        is_leading_byte_width_1(bytes[i]) by {
        assert(bytes[i] < 128);
    }
    partial_valid_utf8_extend_ascii_block(bytes, 0, bytes.len() as int);
    assert(bytes.subrange(0, bytes.len() as int) =~= bytes);
}

/// A line of printable characters reaches the command dispatcher as it was
/// typed. The shell is in charge and the line is empty; the characters, no
/// more of them than the line can hold, are typed and a terminator follows.
/// Then the typed bytes stand in the line, one for one, and the terminator
/// has the same effect as running exactly these bytes as a command, after a
/// line break and, where the shell stays in charge, before a new prompt.
/// Where nothing was typed that is the effect of a command without a word.
pub proof fn lemma_typed_line_runs(console: ConsoleModel, typed: Seq<u8>, terminator: u8)
    requires
        console.session.mode is Shell,
        console.line.len() == 0,
        typed.len() <= LINE_CAPACITY,
        forall|i: int| 0 <= i < typed.len() ==> is_printable(#[trigger] typed[i]),
        is_terminator(terminator),
    ensures
        after_bytes(console, typed) == with_line(console, typed),
        after_line(console.session, typed) == after_command(console.session, typed),
        after_byte(after_bytes(console, typed), terminator) == after_submit(
            with_line(console, typed),
        ),
        after_bytes(console, typed.push(terminator)) == with_session(
            console,
            after_command(console.session, typed).next,
        ),
{
    lemma_typed_line_stands(console, typed);
    assert forall|i: int| 0 <= i < typed.len() implies #[trigger] typed[i] < 128 by {
        assert(is_printable(typed[i]));
    }
    lemma_ascii_is_utf8(typed);
    assert(typed.push(terminator).drop_last() =~= typed);
    assert(console.line =~= Seq::<u8>::empty());
    if typed.len() == 0 {
        assert(words(typed) =~= Seq::<Seq<u8>>::empty());
        assert(line_break() + Seq::<u8>::empty() + PROMPT.spec_bytes() =~= line_break()
            + PROMPT.spec_bytes());
    }
}

proof fn lemma_typed_line_stands(console: ConsoleModel, typed: Seq<u8>)
    requires
        console.session.mode is Shell,
        console.line.len() == 0,
        typed.len() <= LINE_CAPACITY,
        forall|i: int| 0 <= i < typed.len() ==> is_printable(#[trigger] typed[i]),
    ensures
        after_bytes(console, typed) == with_line(console, typed),
    decreases typed.len(),
{
    if typed.len() == 0 {
        assert(console.line =~= typed);
    } else {
        let before = typed.drop_last();
        lemma_typed_line_stands(console, before);
        assert(is_printable(typed[typed.len() - 1]));
        assert(before.push(typed.last()) =~= typed);
    }
}

/// Whether no line of the text that a line feed ends begins with a space.
pub open spec fn is_unindented(text: Seq<u8>) -> bool {
    forall|i: int|
        0 <= i < text.len() && #[trigger] text[i] == LINE_FEED ==> leading_spaces(
            text,
            line_start(text, i),
            i,
        ) == 0
}

/// Plain text typed at the end of the editor's text, where no line of the
/// whole begins with a space, stands in the text as it was typed, with the
/// cursor behind it.
pub proof fn lemma_typed_text_stands(console: ConsoleModel, typed: Seq<u8>)
    requires
        console.session.mode is Editor,
        console.escape is Idle,
        console.session.editor matches Some(editor) && editor.cursor == editor.text.len(),
        is_plain_text(typed),
        is_unindented(console.session.editor->0.text + typed),
    ensures
        after_bytes(console, typed) == with_session(
            console,
            SessionModel {
                mode: Mode::Editor,
                editor: Some(
                    EditorModel {
                        text: console.session.editor->0.text + typed,
                        cursor: (console.session.editor->0.text + typed).len() as int,
                    },
                ),
            },
        ),
    decreases typed.len(),
{
    let editor = console.session.editor->0;
    if typed.len() == 0 {
        assert(editor.text + typed =~= editor.text);
    } else {
        let before = typed.drop_last();
        let key = typed.last();
        let whole = editor.text + typed;
        let held = editor.text + before;
        assert(before.push(key) =~= typed);
        assert forall|i: int| 0 <= i < held.len() implies held[i] == whole[i] by {}
        assert(is_unindented(held)) by {
            assert forall|i: int| 0 <= i < held.len() && #[trigger] held[i]
                == LINE_FEED implies leading_spaces(held, line_start(held, i), i) == 0 by {
                assert(whole[i] == LINE_FEED);
                lemma_same_prefix_same_line(held, whole, i);
            }
        }
        lemma_typed_text_stands(console, before);
        let now = EditorModel { text: held, cursor: held.len() as int };
        assert(typed[typed.len() - 1] == LINE_FEED || is_printable(typed[typed.len() - 1]));
        if key == LINE_FEED {
            assert(whole[held.len() as int] == LINE_FEED);
            lemma_same_prefix_same_line(held, whole, held.len() as int);
            assert(now.indent() == 0);
            assert(spaces(0) =~= Seq::<u8>::empty());
            assert(now.newline().text =~= whole);
        } else {
            assert(now.insert(key).text =~= whole);
        }
    }
}

/// `edit`, typed as a line while the shell is in charge and the line is
/// empty, puts the editor in charge of the text that was there, or of a new
/// and empty one.
pub proof fn lemma_edit_typed(console: ConsoleModel)
    requires
        console.session.mode is Shell,
        console.line.len() == 0,
    ensures
        after_bytes(console, EDIT.spec_bytes().push(CARRIAGE_RETURN)) == with_session(
            console,
            SessionModel {
                mode: Mode::Editor,
                editor: Some(
                    match console.session.editor {
                        Some(editor) => editor,
                        None => EditorModel::empty(),
                    },
                ),
            },
        ),
{
    lemma_command_names();
    lemma_typed_line_runs(console, EDIT.spec_bytes(), CARRIAGE_RETURN);
    lemma_edit_command(console.session);
}

/// `list`, typed as a line while the shell is in charge of a session with a
/// text, and the line is empty, writes a line break, the header, the lines
/// of the text, the footer and the prompt.
pub proof fn lemma_list_typed(console: ConsoleModel)
    requires
        console.session.mode is Shell,
        console.line.len() == 0,
        console.session.editor is Some,
    ensures
        after_byte(after_bytes(console, LIST.spec_bytes()), CARRIAGE_RETURN).output == line_break()
            + LIST_HEADER.spec_bytes() + broken_lines(console.session.editor->0.text)
            + LIST_FOOTER.spec_bytes() + PROMPT.spec_bytes(),
{
    lemma_command_names();
    lemma_typed_line_runs(console, LIST.spec_bytes(), CARRIAGE_RETURN);
    lemma_list_command(console.session);
    let ran = after_command(console.session, LIST.spec_bytes());
    assert(after_submit(with_line(console, LIST.spec_bytes())).output == line_break() + ran.output
        + PROMPT.spec_bytes());
    assert(line_break() + (LIST_HEADER.spec_bytes() + broken_lines(
        console.session.editor->0.text,
    ) + LIST_FOOTER.spec_bytes()) + PROMPT.spec_bytes() =~= line_break() + LIST_HEADER.spec_bytes()
        + broken_lines(console.session.editor->0.text) + LIST_FOOTER.spec_bytes()
        + PROMPT.spec_bytes());
}

/// The exit key, while the editor is in charge and no escape sequence is
/// under way, puts the shell in charge and leaves everything else as it
/// was.
pub proof fn lemma_exit_typed(console: ConsoleModel)
    requires
        console.session.mode is Editor,
        console.session.editor is Some,
        console.escape is Idle,
    ensures
        after_byte(console, EXIT_KEY).next == with_session(
            console,
            SessionModel { mode: Mode::Shell, editor: console.session.editor },
        ),
{
    lemma_exit_keeps_text(console.session);
}

/// What is typed into the editor is what `list` shows. The shell is in
/// charge, the line is empty and there is no text yet, or an empty one.
/// `edit` is typed, then a plain text of which no line begins with a space,
/// then the exit key, then `list`. The text then stands in the editor byte
/// for byte, and `list` writes it between its header and its footer as it
/// goes over the wire, every line feed in its place, closed by a line break
/// where the last line has none.
pub proof fn lemma_typed_text_is_listed(console: ConsoleModel, text: Seq<u8>)
    requires
        console.valid(),
        console.session.mode is Shell,
        console.line.len() == 0,
        console.session.editor matches Some(editor) ==> editor == EditorModel::empty(),
        is_plain_text(text),
        is_unindented(text),
    ensures
        ({
            let editing = after_bytes(console, EDIT.spec_bytes().push(CARRIAGE_RETURN));
            let typed = after_bytes(editing, text);
            let left = after_byte(typed, EXIT_KEY).next;
            let shown = after_byte(after_bytes(left, LIST.spec_bytes()), CARRIAGE_RETURN);
            &&& typed.session.editor == Some(EditorModel { text, cursor: text.len() as int })
            &&& left.session.editor == typed.session.editor
            &&& shown.output == line_break() + LIST_HEADER.spec_bytes() + wire_text(
                with_final_line_feed(text),
            ) + LIST_FOOTER.spec_bytes() + PROMPT.spec_bytes()
        }),
{
    let editing = after_bytes(console, EDIT.spec_bytes().push(CARRIAGE_RETURN));
    lemma_edit_typed(console);
    assert(editing.session.editor == Some(EditorModel::empty()));
    assert(Seq::<u8>::empty() + text =~= text);
    lemma_typed_text_stands(editing, text);
    let typed = after_bytes(editing, text);
    lemma_exit_typed(typed);
    let left = after_byte(typed, EXIT_KEY).next;
    lemma_list_typed(left);
    assert forall|i: int| 0 <= i < text.len() implies text[i] != CARRIAGE_RETURN by {
        assert(text[i] == LINE_FEED || is_printable(text[i]));
    }
    lemma_broken_lines_keep_text(text);
}

/// Leaving the editor and entering it again keeps the text. The editor is
/// in charge and no escape sequence is under way; the exit key is typed,
/// then `edit`. The exit key leaves text and cursor as they were and puts
/// the shell in charge; `edit` puts the editor back in charge of the same
/// text with the same cursor.
pub proof fn lemma_text_survives_leaving(console: ConsoleModel)
    requires
        console.valid(),
        console.session.mode is Editor,
        console.escape is Idle,
    ensures
        ({
            let left = after_byte(console, EXIT_KEY).next;
            let back = after_bytes(left, EDIT.spec_bytes().push(CARRIAGE_RETURN));
            &&& left.session.mode is Shell
            &&& left.session.editor == console.session.editor
            &&& back == console
        }),
{
    lemma_exit_typed(console);
    let left = after_byte(console, EXIT_KEY).next;
    lemma_edit_typed(left);
}

/// The line as text, where it is text. This is `core::str::from_utf8`: it
/// succeeds on the byte sequences that are valid UTF-8, on no others, and
/// the text it gives is made of the very bytes it was given.
#[verifier::external_body]
fn line_text<'a>(line: &'a [u8]) -> (text: Option<&'a str>)
    ensures
        text is Some <==> valid_utf8(line@),
        text matches Some(found) ==> found.spec_bytes() == line@,
{
    match core::str::from_utf8(line) {
        Ok(text) => Some(text),
        Err(_) => None,
    }
}

/// The shell and the editor behind one entrance for bytes.
pub struct Console {
    session: Session,
    line: LineBuffer,
    escape: EscapeState,
}

impl View for Console {
    type V = ConsoleModel;

    closed spec fn view(&self) -> ConsoleModel {
        ConsoleModel { session: self.session@, line: self.line@, escape: self.escape }
    }
}

impl Console {
    /// The console is in a state that its own functions can have left.
    pub closed spec fn wf(&self) -> bool {
        &&& self.line.wf()
        &&& self@.valid()
    }

    /// What a well-formed console holds is valid.
    pub proof fn lemma_wf_valid(&self)
        requires
            self.wf(),
        ensures
            self@.valid(),
    {
    }

    /// A console as it starts: the shell is in charge, nothing is typed and
    /// no text exists.
    pub fn new() -> (console: Console)
        ensures
            console.wf(),
            console@ == initial_console(),
    {
        Console { session: Session::new(), line: LineBuffer::new(), escape: EscapeState::Idle }
    }

    /// The state that the shell and the editor share.
    pub fn session(&self) -> (session: &Session)
        ensures
            session@ == self@.session,
    {
        &self.session
    }

    /// The number of bytes in the line typed so far.
    pub fn line_len(&self) -> (len: usize)
        requires
            self.wf(),
        ensures
            len == self@.line.len(),
    {
        self.line.len()
    }

    /// How far an escape sequence has come in.
    pub fn escape(&self) -> (escape: EscapeState)
        ensures
            escape == self@.escape,
    {
        self.escape
    }

    /// Takes one byte from the link and says what to write back and what to
    /// do then.
    pub fn feed(&mut self, byte: u8) -> (reply: Reply)
        requires
            old(self).wf(),
        ensures
            final(self).wf(),
            (Turn { next: final(self)@, output: reply.output@, action: reply.action })
                == after_byte(old(self)@, byte),
    {
        proof {
            self.line.lemma_within_capacity();
        }
        let mut output: Vec<u8> = Vec::new();
        let mut action = SystemAction::Continue;
        match self.session.mode() {
            Mode::Editor => {
                output = self.session.handle_editor_input(byte, &mut self.escape);
            },
            Mode::Shell => {
                match self.line.accept(byte) {
                    LineEvent::Stored => {
                        output.push(byte);
                        assert(output@ =~= seq![byte]);
                    },
                    LineEvent::Dropped => {},
                    LineEvent::Erased => {
                        push_str(&mut output, ERASE);
                    },
                    LineEvent::Unchanged => {},
                    LineEvent::Blank => {
                        push_line_break(&mut output);
                        push_str(&mut output, PROMPT);
                    },
                    LineEvent::Submitted => {
                        push_line_break(&mut output);
                        let line = self.line.take();
                        match line_text(line.as_slice()) {
                            Some(text) => {
                                let ran = self.session.handle_command(text);
                                push_bytes(&mut output, ran.output.as_slice());
                                action = ran.action;
                            },
                            None => {},
                        }
                        match action {
                            SystemAction::Continue => match self.session.mode() {
                                Mode::Shell => {
                                    push_str(&mut output, PROMPT);
                                },
                                Mode::Editor => {},
                            },
                            _ => {},
                        }
                    },
                }
                proof {
                    self.line.lemma_within_capacity();
                }
            },
        }
        assert(output@ =~= after_byte(old(self)@, byte).output);
        Reply { output, action }
    }
}

} // verus!
