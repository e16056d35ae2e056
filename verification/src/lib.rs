//! An interactive shell over a byte-oriented serial link, with a full-screen
//! text editor that the shell can enter.
//!
//! The library is the input state machine only. It consumes the bytes that the
//! link delivers, one at a time, and answers each with the bytes to write back
//! and, for the two commands that end execution, with the action the caller
//! has to perform. It never touches the link itself.

pub mod text;
pub mod editor;
pub mod screen;
pub mod command;
pub mod session;
pub mod line;
pub mod console;

pub use command::CommandKind;
pub use console::Console;
pub use editor::{Direction, Editor, EscapeState, KeyAction};
pub use line::{LineBuffer, LineEvent};
pub use session::{Mode, Reply, Session, SystemAction};
