//! The session: the shell's commands and the keys of the editor, over the
//! state that both share.

use vstd::prelude::*;
use vstd::string::StringSliceAdditionalSpecFns;
use crate::command::{
    classify, command_kind, lemma_command_names, next_word, words, words_from, CommandKind, EDIT,
    LIST,
};
use crate::editor::{
    escape_step, key_transition, lemma_keys_keep_valid, Direction, Editor, EditorModel,
    EscapeState, KeyAction, EXIT_KEY,
};
use crate::screen::{refresh_screen, screen};
use crate::text::{
    broken_lines, is_printable, line_break, push_bytes, push_line_break, push_lines, push_str,
    SPACE,
};

verus! {

/// The answer to `ping`.
pub const PONG: &'static str = "pong\r\n";

/// What `about` prints, line by line.
pub const ABOUT_TEXT: &'static str = r#"                                             
                         @-                       
                       **--%                      
                 #******+--#                      
              *@******@.--:            @::--. #   
          .- ********@ @*%#.       .--------..    
            --@*@  %*.---=:--+    - ---#@---      
              -@@@---@--@:#       -:-**---.       
              % .%----=-%         -@** :-         
              @@     -@--*#=%.    ***-#           
                  +#*-----***=.  #**              
                 =***-----****=:***               
                :@***---:-@****=**#               
                -%**@-%--@-@**#=                  
               @#@**%------=*****@                
             .**-*****------**%*----              
             ----=-***--*%---*@-----@             
             -------#--@---+--------              
              *---@---*####@#-----                
                 #=---#*##=-++*@                  
                  +@@     #--@                             

                RyuOS v0.1.0
                Built for RP2040 (Native USB)
                        "#;

/// Said before the device restarts.
pub const REBOOTING: &'static str = "Rebooting...\r\n";

/// Said before the device enters its bootloader.
pub const ENTERING_BOOTLOADER: &'static str = "Jumping to Bootloader...\r\n";

/// Stands above the text that `list` prints.
pub const LIST_HEADER: &'static str = "\r\n--- BUFFER CONTENTS ---\r\n";

/// Stands below the text that `list` prints.
pub const LIST_FOOTER: &'static str = "-----------------------\r\n";

/// What `list` says where no text was ever edited.
pub const LIST_EMPTY: &'static str = "Buffer is empty.\r\n";

/// What `run` says where no text was ever edited.
pub const RUN_EMPTY: &'static str = "Buffer empty. Use 'edit' first.\r\n";

/// Stands before the name of a command that does not exist.
pub const UNKNOWN_COMMAND: &'static str = "Unknown command: ";

/// Said on leaving the editor; it ends with the shell's prompt.
pub const SAVED: &'static str = "\r\n[ Saved ]\r\n> ";

/// Which of the two handlers takes the incoming bytes.
#[derive(Clone, Copy, Debug, PartialEq, Eq)]
pub enum Mode {
    /// Bytes make up command lines.
    Shell,
    /// Bytes are keys of the editor.
    Editor,
}

/// What the caller has to do once it has written a reply's output.
#[derive(Clone, Copy, Debug, PartialEq, Eq)]
pub enum SystemAction {
    /// Nothing: go on reading.
    Continue,
    /// Restart the device.
    Reboot,
    /// Enter the device's bootloader.
    Bootsel,
}

/// The answer to a command or to a byte: what to write, and what to do then.
#[derive(Debug)]
pub struct Reply {
    /// The bytes to write to the link.
    pub output: Vec<u8>,
    /// What to do after writing them.
    pub action: SystemAction,
}

/// What a session holds, as plain values.
pub struct SessionModel {
    /// The handler in charge.
    pub mode: Mode,
    /// The editor, once there was a first `edit`.
    pub editor: Option<EditorModel>,
}

impl SessionModel {
    /// The editor, where there is one, is valid, and there is one while the
    /// editor is in charge.
    pub open spec fn valid(self) -> bool {
        &&& self.editor matches Some(editor) ==> editor.valid()
        &&& self.mode is Editor ==> self.editor is Some
    }
}

/// A session as it starts: the shell is in charge and no text exists.
pub open spec fn initial_session() -> SessionModel {
    SessionModel { mode: Mode::Shell, editor: None }
}

/// What a command does: the session after it, what it writes, and what is
/// left for the caller to do.
pub struct Outcome {
    pub next: SessionModel,
    pub output: Seq<u8>,
    pub action: SystemAction,
}

/// What a key does: the session and the escape state after it, and what it
/// writes.
pub struct KeyOutcome {
    pub next: SessionModel,
    pub escape: EscapeState,
    pub output: Seq<u8>,
}

/// The words, each with a space behind it.
pub open spec fn spaced(words: Seq<Seq<u8>>) -> Seq<u8>
    decreases words.len(),
{
    if words.len() == 0 {
        Seq::empty()
    } else {
        words[0] + seq![SPACE] + spaced(words.drop_first())
    }
}

/// A command that writes `output` and changes nothing.
pub open spec fn says(session: SessionModel, output: Seq<u8>) -> Outcome {
    Outcome { next: session, output, action: SystemAction::Continue }
}

/// What the command line `line` does to `session`.
///
/// The first word of the line names the command and the other words are its
/// arguments; a line without a word does nothing.
/// - `ping` answers.
/// - `echo` writes its arguments, each with a space behind it, and a line
///   break.
/// - `about` writes the banner line by line.
/// - `reboot` and `bootsel` say what is about to happen and leave it to the
///   caller to do it.
/// - `edit` puts the editor in charge, makes the text if there is none yet,
///   and draws the screen.
/// - `list` writes the text line by line between a header and a footer, or
///   says that there is none.
/// - `run` says so where there is no text, and is silent where there is.
/// - Any other word is reported as unknown.
pub open spec fn after_command(session: SessionModel, line: Seq<u8>) -> Outcome {
    let words = words(line);
    if words.len() == 0 {
        says(session, Seq::empty())
    } else {
        match command_kind(words[0]) {
            CommandKind::Ping => says(session, PONG.spec_bytes()),
            CommandKind::Echo => says(session, spaced(words.skip(1)) + line_break()),
            CommandKind::About => says(session, broken_lines(ABOUT_TEXT.spec_bytes())),
            CommandKind::Reboot => Outcome {
                next: session,
                output: REBOOTING.spec_bytes(),
                action: SystemAction::Reboot,
            },
            CommandKind::Bootsel => Outcome {
                next: session,
                output: ENTERING_BOOTLOADER.spec_bytes(),
                action: SystemAction::Bootsel,
            },
            CommandKind::Edit => {
                let editor = match session.editor {
                    Some(editor) => editor,
                    None => EditorModel::empty(),
                };
                Outcome {
                    next: SessionModel { mode: Mode::Editor, editor: Some(editor) },
                    output: screen(editor.text, editor.cursor),
                    action: SystemAction::Continue,
                }
            },
            CommandKind::List => match session.editor {
                Some(editor) => says(
                    session,
                    LIST_HEADER.spec_bytes() + broken_lines(editor.text) + LIST_FOOTER.spec_bytes(),
                ),
                None => says(session, LIST_EMPTY.spec_bytes()),
            },
            CommandKind::Run => match session.editor {
                Some(_) => says(session, Seq::empty()),
                None => says(session, RUN_EMPTY.spec_bytes()),
            },
            CommandKind::Unknown => says(
                session,
                UNKNOWN_COMMAND.spec_bytes() + words[0] + line_break(),
            ),
        }
    }
}

/// A key that left the editor as `editor` and drew the screen again.
pub open spec fn redrawn(session: SessionModel, editor: EditorModel, escape: EscapeState)
    -> KeyOutcome {
    KeyOutcome {
        next: SessionModel { mode: session.mode, editor: Some(editor) },
        escape,
        output: screen(editor.text, editor.cursor),
    }
}

/// A key that changed nothing but, perhaps, the escape state.
pub open spec fn unseen(session: SessionModel, escape: EscapeState) -> KeyOutcome {
    KeyOutcome { next: session, escape, output: Seq::empty() }
}

/// What the byte `byte` does to `session` while the editor is in charge and
/// the escape state is `state`.
///
/// Without a text nothing happens at all. With one, the escape machine
/// makes its step; what the byte asks for is done to the editor, and the
/// screen is drawn again after every change, after every arrow key and at
/// the end of every escape sequence. Backspace at the start of the text does
/// nothing and draws nothing. The exit key puts the shell in charge, keeps
/// the text, and writes the farewell with the prompt.
pub open spec fn after_editor_input(session: SessionModel, state: EscapeState, byte: u8)
    -> KeyOutcome {
    match session.editor {
        None => unseen(session, state),
        Some(editor) => {
            let (escape, action) = key_transition(state, byte);
            match action {
                KeyAction::Ignore => unseen(session, escape),
                KeyAction::Insert(key) => redrawn(session, editor.insert(key), escape),
                KeyAction::Tab => redrawn(session, editor.tab(), escape),
                KeyAction::Newline => redrawn(session, editor.newline(), escape),
                KeyAction::Delete => if editor.cursor > 0 {
                    redrawn(session, editor.backspace(), escape)
                } else {
                    unseen(session, escape)
                },
                KeyAction::MoveCursor(direction) => redrawn(
                    session,
                    editor.moved(direction),
                    escape,
                ),
                KeyAction::Redraw => redrawn(session, editor, escape),
                KeyAction::Exit => KeyOutcome {
                    next: SessionModel { mode: Mode::Shell, editor: session.editor },
                    escape,
                    output: SAVED.spec_bytes(),
                },
            }
        },
    }
}

/// A command leaves a valid session valid.
pub proof fn lemma_command_keeps_valid(session: SessionModel, line: Seq<u8>)
    requires
        session.valid(),
    ensures
        after_command(session, line).next.valid(),
{
}

/// No command clears the text: once a session has an editor, every command
/// leaves that editor as it was, text and cursor.
pub proof fn lemma_command_keeps_text(session: SessionModel, line: Seq<u8>)
    requires
        session.editor is Some,
    ensures
        after_command(session, line).next.editor == session.editor,
{
}

/// Only `edit` changes who is in charge, and only towards the editor; and
/// only `reboot` and `bootsel` ask the caller for anything.
pub proof fn lemma_command_effects(session: SessionModel, line: Seq<u8>)
    ensures
        after_command(session, line).next.mode != session.mode ==> {
            &&& words(line).len() > 0
            &&& command_kind(words(line)[0]) is Edit
            &&& after_command(session, line).next.mode is Editor
        },
        !(after_command(session, line).action is Continue) ==> {
            &&& words(line).len() > 0
            &&& (command_kind(words(line)[0]) is Reboot || command_kind(words(line)[0]) is Bootsel)
        },
{
}

/// A key leaves a valid session valid, and only the exit key changes who is
/// in charge: between escape sequences, and towards the shell.
pub proof fn lemma_key_keeps_valid(session: SessionModel, state: EscapeState, byte: u8)
    requires
        session.valid(),
    ensures
        after_editor_input(session, state, byte).next.valid(),
        after_editor_input(session, state, byte).next.mode != session.mode ==> {
            &&& byte == EXIT_KEY
            &&& state is Idle
            &&& after_editor_input(session, state, byte).escape is Idle
            &&& after_editor_input(session, state, byte).next.mode is Shell
        },
{
    if session.editor is Some {
        let editor = session.editor->0;
        let (escape, action) = key_transition(state, byte);
        match action {
            KeyAction::Insert(key) => {
                lemma_keys_keep_valid(editor, key, Direction::Up);
            },
            KeyAction::MoveCursor(direction) => {
                lemma_keys_keep_valid(editor, SPACE, direction);
            },
            _ => {
                lemma_keys_keep_valid(editor, SPACE, Direction::Up);
            },
        }
    }
}

/// The exit key, between escape sequences, puts the shell in charge and
/// leaves the text and the cursor as they were.
pub proof fn lemma_exit_keeps_text(session: SessionModel)
    requires
        session.editor is Some,
    ensures
        after_editor_input(session, EscapeState::Idle, EXIT_KEY).next == (SessionModel {
            mode: Mode::Shell,
            editor: session.editor,
        }),
        after_editor_input(session, EscapeState::Idle, EXIT_KEY).escape is Idle,
{
}

/// A printable character typed between escape sequences is spliced into
/// the text at the cursor, and the cursor moves behind it.
pub proof fn lemma_printable_key_inserts(session: SessionModel, byte: u8)
    requires
        session.editor is Some,
        is_printable(byte),
    ensures
        after_editor_input(session, EscapeState::Idle, byte) == redrawn(
            session,
            session.editor->0.insert(byte),
            EscapeState::Idle,
        ),
{
}

/// What `edit` does as a line of its own: the editor is in charge of the
/// text that was there, or of a new and empty one, and the screen is drawn.
pub proof fn lemma_edit_command(session: SessionModel)
    ensures
        ({
            let editor = match session.editor {
                Some(editor) => editor,
                None => EditorModel::empty(),
            };
            after_command(session, EDIT.spec_bytes()) == (Outcome {
                next: SessionModel { mode: Mode::Editor, editor: Some(editor) },
                output: screen(editor.text, editor.cursor),
                action: SystemAction::Continue,
            })
        }),
{
    lemma_command_names();
}

/// What `list` does as a line of its own: it writes the lines of the text
/// between header and footer, or says that there is no text, and changes
/// nothing.
pub proof fn lemma_list_command(session: SessionModel)
    ensures
        after_command(session, LIST.spec_bytes()) == says(
            session,
            match session.editor {
                Some(editor) => LIST_HEADER.spec_bytes() + broken_lines(editor.text)
                    + LIST_FOOTER.spec_bytes(),
                None => LIST_EMPTY.spec_bytes(),
            },
        ),
{
    lemma_command_names();
}

/// The state that the shell and the editor share: which of them is in
/// charge, and the text under edit with its cursor.
///
/// One owner holds it and hands it to each handler in turn.
pub struct Session {
    mode: Mode,
    editor: Option<Editor>,
}

impl View for Session {
    type V = SessionModel;

    closed spec fn view(&self) -> SessionModel {
        SessionModel {
            mode: self.mode,
            editor: match self.editor {
                Some(editor) => Some(editor@),
                None => None,
            },
        }
    }
}

impl Session {
    /// A session as it starts.
    pub fn new() -> (session: Session)
        ensures
            session@ == initial_session(),
            session@.valid(),
    {
        Session { mode: Mode::Shell, editor: None }
    }

    /// The handler in charge.
    pub fn mode(&self) -> (mode: Mode)
        ensures
            mode == self@.mode,
    {
        self.mode
    }

    /// The editor, once there was a first `edit`.
    pub fn editor(&self) -> (editor: Option<&Editor>)
        ensures
            editor is Some == self@.editor is Some,
            editor matches Some(found) ==> self@.editor == Some(found@),
    {
        match &self.editor {
            Some(editor) => Some(editor),
            None => None,
        }
    }

    /// Runs the command line `line`.
    pub fn handle_command(&mut self, line: &str) -> (reply: Reply)
        requires
            old(self)@.valid(),
        ensures
            final(self)@.valid(),
            (Outcome { next: final(self)@, output: reply.output@, action: reply.action })
                == after_command(old(self)@, line.spec_bytes()),
    {
        let bytes = line.as_bytes();
        let mut output: Vec<u8> = Vec::new();
        let mut action = SystemAction::Continue;
        let (start, end) = match next_word(bytes, 0) {
            Some(word) => word,
            None => {
                return Reply { output, action };
            },
        };
        let name = vstd::slice::slice_subrange(bytes, start, end);
        assert(words(bytes@)[0] == name@);
        assert(words(bytes@).skip(1) =~= words_from(bytes@, end as int));
        match classify(name) {
            CommandKind::Ping => {
                push_str(&mut output, PONG);
            },
            CommandKind::Echo => {
                let mut pos: usize = end;
                loop
                    invariant
                        pos <= bytes@.len(),
                        output@ + spaced(words_from(bytes@, pos as int)) == spaced(
                            words_from(bytes@, end as int),
                        ),
                    ensures
                        output@ == spaced(words_from(bytes@, end as int)),
                    decreases bytes@.len() - pos,
                {
                    let ghost written = output@;
                    match next_word(bytes, pos) {
                        Some((from, to)) => {
                            push_bytes(&mut output, vstd::slice::slice_subrange(bytes, from, to));
                            output.push(SPACE);
                            proof {
                                let rest = words_from(bytes@, pos as int);
                                assert(rest.drop_first() =~= words_from(bytes@, to as int));
                                assert(output@ + spaced(words_from(bytes@, to as int)) =~= written
                                    + spaced(rest));
                            }
                            pos = to;
                        },
                        None => {
                            assert(output@ + spaced(words_from(bytes@, pos as int)) =~= output@);
                            break;
                        },
                    }
                }
                push_line_break(&mut output);
            },
            CommandKind::About => {
                push_lines(&mut output, ABOUT_TEXT.as_bytes());
            },
            CommandKind::Reboot => {
                push_str(&mut output, REBOOTING);
                action = SystemAction::Reboot;
            },
            CommandKind::Bootsel => {
                push_str(&mut output, ENTERING_BOOTLOADER);
                action = SystemAction::Bootsel;
            },
            CommandKind::Edit => {
                self.mode = Mode::Editor;
                if self.editor.is_none() {
                    self.editor = Some(Editor::new());
                }
                match &self.editor {
                    Some(editor) => {
                        output = refresh_screen(editor.text(), editor.cursor());
                    },
                    None => {},
                }
            },
            CommandKind::List => {
                match &self.editor {
                    Some(editor) => {
                        push_str(&mut output, LIST_HEADER);
                        push_lines(&mut output, editor.text());
                        push_str(&mut output, LIST_FOOTER);
                    },
                    None => {
                        push_str(&mut output, LIST_EMPTY);
                    },
                }
            },
            CommandKind::Run => {
                match &self.editor {
                    Some(_) => {},
                    None => {
                        push_str(&mut output, RUN_EMPTY);
                    },
                }
            },
            CommandKind::Unknown => {
                push_str(&mut output, UNKNOWN_COMMAND);
                push_bytes(&mut output, name);
                push_line_break(&mut output);
            },
        }
        assert(output@ =~= after_command(old(self)@, bytes@).output);
        Reply { output, action }
    }

    /// Takes one byte while the editor is in charge. `esc_state` is the
    /// escape state, which the caller keeps between bytes.
    pub fn handle_editor_input(&mut self, c: u8, esc_state: &mut EscapeState) -> (output: Vec<u8>)
        requires
            old(self)@.valid(),
        ensures
            final(self)@.valid(),
            (KeyOutcome { next: final(self)@, escape: *final(esc_state), output: output@ })
                == after_editor_input(old(self)@, *old(esc_state), c),
    {
        let mut output: Vec<u8> = Vec::new();
        match &mut self.editor {
            Some(editor) => {
                let (escape, action) = escape_step(*esc_state, c);
                *esc_state = escape;
                match action {
                    KeyAction::Ignore => {},
                    KeyAction::Insert(key) => {
                        editor.insert(key);
                        output = refresh_screen(editor.text(), editor.cursor());
                    },
                    KeyAction::Tab => {
                        editor.tab();
                        output = refresh_screen(editor.text(), editor.cursor());
                    },
                    KeyAction::Newline => {
                        editor.newline();
                        output = refresh_screen(editor.text(), editor.cursor());
                    },
                    KeyAction::Delete => {
                        if editor.backspace() {
                            output = refresh_screen(editor.text(), editor.cursor());
                        }
                    },
                    KeyAction::MoveCursor(direction) => {
                        editor.move_cursor(direction);
                        output = refresh_screen(editor.text(), editor.cursor());
                    },
                    KeyAction::Redraw => {
                        output = refresh_screen(editor.text(), editor.cursor());
                    },
                    KeyAction::Exit => {
                        self.mode = Mode::Shell;
                        push_str(&mut output, SAVED);
                    },
                }
            },
            None => {},
        }
        output
    }
}

} // verus!
