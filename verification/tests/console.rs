use ryu_shell::{Console, EscapeState, Mode, SystemAction};

const PROMPT: &[u8] = b"> ";
const SCREEN_HEAD: &[u8] = b"\x1b[2J\x1b[H--- RYU EDITOR (CTRL+X to Exit) ---\r\n";
const MARK: &[u8] = b"\x1b[7m \x1b[0m";

fn feed_all(console: &mut Console, bytes: &[u8]) -> Vec<u8> {
    let mut out = Vec::new();
    for byte in bytes {
        let reply = console.feed(*byte);
        assert_eq!(reply.action, SystemAction::Continue);
        out.extend_from_slice(&reply.output);
    }
    out
}

fn screen_of(text: &[u8], cursor: usize) -> Vec<u8> {
    let mut out = SCREEN_HEAD.to_vec();
    out.extend_from_slice(&text[..cursor].iter().fold(Vec::new(), wire));
    out.extend_from_slice(MARK);
    out.extend_from_slice(&text[cursor..].iter().fold(Vec::new(), wire));
    out
}

fn wire(mut out: Vec<u8>, byte: &u8) -> Vec<u8> {
    if *byte == b'\n' {
        out.push(b'\r');
    }
    out.push(*byte);
    out
}

fn text_of(console: &Console) -> Vec<u8> {
    console.session().editor().unwrap().text().to_vec()
}

fn cursor_of(console: &Console) -> usize {
    console.session().editor().unwrap().cursor()
}

fn editing(text: &[u8]) -> Console {
    let mut console = Console::new();
    feed_all(&mut console, b"edit\r");
    feed_all(&mut console, text);
    console
}

#[test]
fn new_console_is_an_idle_shell() {
    let console = Console::new();
    assert_eq!(console.session().mode(), Mode::Shell);
    assert!(console.session().editor().is_none());
    assert_eq!(console.line_len(), 0);
    assert_eq!(console.escape(), EscapeState::Idle);
}

#[test]
fn typed_bytes_are_echoed() {
    let mut console = Console::new();
    let reply = console.feed(b'p');
    assert_eq!(reply.output, b"p".to_vec());
    assert_eq!(reply.action, SystemAction::Continue);
    assert_eq!(console.line_len(), 1);
    assert_eq!(feed_all(&mut console, b"ing"), b"ing".to_vec());
    assert_eq!(console.line_len(), 4);
}

#[test]
fn typed_line_is_dispatched_as_typed() {
    let mut console = Console::new();
    assert_eq!(feed_all(&mut console, b"ping"), b"ping".to_vec());
    let reply = console.feed(b'\r');
    assert_eq!(reply.output, b"\r\npong\r\n> ".to_vec());
    assert_eq!(reply.action, SystemAction::Continue);
    assert_eq!(console.line_len(), 0);
}

#[test]
fn line_feed_ends_a_line_too() {
    let mut console = Console::new();
    assert_eq!(feed_all(&mut console, b"echo a b\n"), b"echo a b\r\na b \r\n> ".to_vec());
}

#[test]
fn every_printable_line_reaches_the_dispatcher() {
    for len in [1usize, 2, 17, 127, 128] {
        let mut console = Console::new();
        let mut typed = Vec::new();
        for i in 0..len {
            let byte = 33 + ((i * 7) % 94) as u8;
            typed.push(if byte == b' ' { b'_' } else { byte });
        }
        assert_eq!(feed_all(&mut console, &typed), typed);
        let reply = console.feed(b'\r');
        let mut expected = b"\r\nUnknown command: ".to_vec();
        expected.extend_from_slice(&typed);
        expected.extend_from_slice(b"\r\n> ");
        assert_eq!(reply.output, expected);
    }
}

#[test]
fn line_with_spaces_reaches_the_dispatcher_whole() {
    let mut console = Console::new();
    let out = feed_all(&mut console, b"echo ~!@ #$%  ^&*()\r");
    assert_eq!(out, b"echo ~!@ #$%  ^&*()\r\n~!@ #$% ^&*() \r\n> ".to_vec());
}

#[test]
fn blank_line_gets_a_new_prompt() {
    let mut console = Console::new();
    assert_eq!(console.feed(b'\r').output, b"\r\n> ".to_vec());
    assert_eq!(console.feed(b'\n').output, b"\r\n> ".to_vec());
    assert_eq!(console.session().mode(), Mode::Shell);
}

#[test]
fn line_of_spaces_runs_nothing() {
    let mut console = Console::new();
    assert_eq!(feed_all(&mut console, b"   \r"), b"   \r\n> ".to_vec());
    assert_eq!(console.line_len(), 0);
}

#[test]
fn backspace_erases_on_the_terminal() {
    let mut console = Console::new();
    feed_all(&mut console, b"pinh");
    assert_eq!(console.feed(8).output, b"\x08 \x08".to_vec());
    assert_eq!(console.line_len(), 3);
    assert_eq!(feed_all(&mut console, b"g\r"), b"g\r\npong\r\n> ".to_vec());
}

#[test]
fn delete_erases_like_backspace() {
    let mut console = Console::new();
    feed_all(&mut console, b"pingx");
    assert_eq!(console.feed(127).output, b"\x08 \x08".to_vec());
    assert_eq!(console.feed(b'\r').output, b"\r\npong\r\n> ".to_vec());
}

#[test]
fn backspace_on_an_empty_line_does_nothing() {
    let mut console = Console::new();
    assert_eq!(console.feed(8).output, Vec::<u8>::new());
    assert_eq!(console.feed(127).output, Vec::<u8>::new());
    assert_eq!(console.line_len(), 0);
    feed_all(&mut console, b"a");
    assert_eq!(feed_all(&mut console, &[8, 8, 8]), b"\x08 \x08".to_vec());
    assert_eq!(console.line_len(), 0);
    assert_eq!(feed_all(&mut console, b"ping\r"), b"ping\r\npong\r\n> ".to_vec());
}

#[test]
fn backspace_leaves_the_bytes_before_intact() {
    let mut console = Console::new();
    feed_all(&mut console, b"echo abcXY");
    feed_all(&mut console, &[8, 127]);
    assert_eq!(console.line_len(), 8);
    assert_eq!(console.feed(b'\r').output, b"\r\nabc \r\n> ".to_vec());
}

#[test]
fn full_line_drops_bytes_silently() {
    let mut console = Console::new();
    let mut typed = b"echo ".to_vec();
    typed.extend_from_slice(&[b'x'; 123]);
    assert_eq!(typed.len(), 128);
    assert_eq!(feed_all(&mut console, &typed), typed);
    assert_eq!(console.feed(b'y').output, Vec::<u8>::new());
    assert_eq!(console.feed(b'z').output, Vec::<u8>::new());
    assert_eq!(console.line_len(), 128);
    let mut expected = b"\r\n".to_vec();
    expected.extend_from_slice(&[b'x'; 123]);
    expected.extend_from_slice(b" \r\n> ");
    assert_eq!(console.feed(b'\r').output, expected);
    assert_eq!(console.line_len(), 0);
    assert_eq!(feed_all(&mut console, b"ping\r"), b"ping\r\npong\r\n> ".to_vec());
}

#[test]
fn line_that_is_not_text_is_dropped() {
    let mut console = Console::new();
    assert_eq!(feed_all(&mut console, &[b'p', b'i', 0xFF]), vec![b'p', b'i', 0xFF]);
    let reply = console.feed(b'\r');
    assert_eq!(reply.output, b"\r\n> ".to_vec());
    assert_eq!(reply.action, SystemAction::Continue);
    assert_eq!(console.line_len(), 0);
    assert_eq!(feed_all(&mut console, b"ping\r"), b"ping\r\npong\r\n> ".to_vec());
}

#[test]
fn broken_utf8_drops_even_a_known_command() {
    for tail in [vec![0xC3], vec![0xE2, 0x80], vec![0xC0, 0x80], vec![0xED, 0xA0, 0x80], vec![0x80]]
    {
        let mut console = Console::new();
        feed_all(&mut console, b"edit ");
        feed_all(&mut console, &tail);
        assert_eq!(console.feed(b'\r').output, b"\r\n> ".to_vec());
        assert_eq!(console.session().mode(), Mode::Shell);
        assert!(console.session().editor().is_none());
    }
}

#[test]
fn line_of_valid_utf8_runs() {
    let mut console = Console::new();
    let typed = "echo caf\u{e9}\u{3000}\u{1f600}".as_bytes();
    assert_eq!(feed_all(&mut console, typed), typed.to_vec());
    let mut expected = b"\r\n".to_vec();
    expected.extend_from_slice("caf\u{e9} \u{1f600} \r\n> ".as_bytes());
    assert_eq!(console.feed(b'\r').output, expected);
}

#[test]
fn control_bytes_are_part_of_the_line() {
    let mut console = Console::new();
    assert_eq!(feed_all(&mut console, &[27, b'[', b'A']), vec![27, b'[', b'A']);
    assert_eq!(console.escape(), EscapeState::Idle);
    assert_eq!(console.feed(b'\r').output, b"\r\nUnknown command: \x1b[A\r\n> ".to_vec());
    assert_eq!(feed_all(&mut console, &[24, b'\r']), b"\x18\r\nUnknown command: \x18\r\n> ".to_vec());
}

#[test]
fn reboot_ends_without_a_prompt() {
    let mut console = Console::new();
    feed_all(&mut console, b"reboot");
    let reply = console.feed(b'\r');
    assert_eq!(reply.output, b"\r\nRebooting...\r\n".to_vec());
    assert_eq!(reply.action, SystemAction::Reboot);
}

#[test]
fn bootsel_ends_without_a_prompt() {
    let mut console = Console::new();
    feed_all(&mut console, b"bootsel");
    let reply = console.feed(b'\n');
    assert_eq!(reply.output, b"\r\nJumping to Bootloader...\r\n".to_vec());
    assert_eq!(reply.action, SystemAction::Bootsel);
}

#[test]
fn edit_enters_the_editor_without_a_prompt() {
    let mut console = Console::new();
    feed_all(&mut console, b"edit");
    let reply = console.feed(b'\r');
    let mut expected = b"\r\n".to_vec();
    expected.extend_from_slice(&screen_of(b"", 0));
    assert_eq!(reply.output, expected);
    assert_eq!(console.session().mode(), Mode::Editor);
    assert_eq!(console.line_len(), 0);
    assert_eq!(text_of(&console), b"".to_vec());
}

#[test]
fn editor_draws_the_screen_after_every_key() {
    let mut console = editing(b"");
    assert_eq!(console.feed(b'h').output, screen_of(b"h", 1));
    assert_eq!(console.feed(b'i').output, screen_of(b"hi", 2));
    assert_eq!(console.feed(b'\r').output, screen_of(b"hi\n", 3));
    assert_eq!(console.feed(b'\t').output, screen_of(b"hi\n    ", 7));
    assert_eq!(console.feed(8).output, screen_of(b"hi\n   ", 6));
    assert_eq!(console.feed(127).output, screen_of(b"hi\n  ", 5));
    assert_eq!(console.feed(b'\n').output, screen_of(b"hi\n  \n  ", 8));
    assert_eq!(console.line_len(), 0);
}

#[test]
fn editor_backspace_at_the_start_draws_nothing() {
    let mut console = editing(b"");
    assert_eq!(console.feed(8).output, Vec::<u8>::new());
    assert_eq!(console.feed(127).output, Vec::<u8>::new());
    feed_all(&mut console, b"ab\x1b[D\x1b[D");
    assert_eq!(cursor_of(&console), 0);
    assert_eq!(console.feed(8).output, Vec::<u8>::new());
    assert_eq!(text_of(&console), b"ab".to_vec());
}

#[test]
fn editor_ignores_other_control_bytes() {
    let mut console = editing(b"ab");
    for byte in [0u8, 1, 7, 11, 12, 14, 23, 25, 26, 28, 31, 128, 200, 255] {
        assert_eq!(console.feed(byte).output, Vec::<u8>::new());
        assert_eq!(console.escape(), EscapeState::Idle);
    }
    assert_eq!(text_of(&console), b"ab".to_vec());
    assert_eq!(cursor_of(&console), 2);
    assert_eq!(console.session().mode(), Mode::Editor);
}

#[test]
fn arrow_keys_move_the_cursor() {
    let mut console = editing(b"abc\r0123456789");
    assert_eq!(cursor_of(&console), 14);
    assert_eq!(console.feed(27).output, Vec::<u8>::new());
    assert_eq!(console.escape(), EscapeState::SawEscape);
    assert_eq!(console.feed(b'[').output, Vec::<u8>::new());
    assert_eq!(console.escape(), EscapeState::SawBracket);
    assert_eq!(console.feed(b'A').output, screen_of(b"abc\n0123456789", 3));
    assert_eq!(console.escape(), EscapeState::Idle);
    assert_eq!(cursor_of(&console), 3);
    assert_eq!(feed_all(&mut console, b"\x1b[D"), screen_of(b"abc\n0123456789", 2));
    assert_eq!(feed_all(&mut console, b"\x1b[B"), screen_of(b"abc\n0123456789", 6));
    assert_eq!(feed_all(&mut console, b"\x1b[C"), screen_of(b"abc\n0123456789", 7));
    assert_eq!(feed_all(&mut console, b"\x1b[B"), screen_of(b"abc\n0123456789", 7));
    assert_eq!(text_of(&console), b"abc\n0123456789".to_vec());
}

#[test]
fn insert_happens_at_the_cursor() {
    let mut console = editing(b"ac\x1b[Db");
    assert_eq!(text_of(&console), b"abc".to_vec());
    assert_eq!(cursor_of(&console), 2);
    feed_all(&mut console, b"\x1b[D\x1b[D\x1b[D>");
    assert_eq!(text_of(&console), b">abc".to_vec());
    assert_eq!(cursor_of(&console), 1);
}

#[test]
fn escape_without_a_bracket_is_dropped_with_the_next_byte() {
    let mut console = editing(b"ab");
    assert_eq!(feed_all(&mut console, b"\x1bx"), Vec::<u8>::new());
    assert_eq!(console.escape(), EscapeState::Idle);
    assert_eq!(text_of(&console), b"ab".to_vec());
    assert_eq!(feed_all(&mut console, b"\x1b\x18"), Vec::<u8>::new());
    assert_eq!(console.session().mode(), Mode::Editor);
    assert_eq!(feed_all(&mut console, b"\x1b\x1b"), Vec::<u8>::new());
    assert_eq!(console.escape(), EscapeState::Idle);
    assert_eq!(console.feed(b'[').output, screen_of(b"ab[", 3));
}

#[test]
fn unknown_sequence_only_draws_the_screen() {
    let mut console = editing(b"ab");
    assert_eq!(feed_all(&mut console, b"\x1b[Z"), screen_of(b"ab", 2));
    assert_eq!(feed_all(&mut console, b"\x1b[\x18"), screen_of(b"ab", 2));
    assert_eq!(console.session().mode(), Mode::Editor);
    assert_eq!(console.escape(), EscapeState::Idle);
    assert_eq!(text_of(&console), b"ab".to_vec());
}

#[test]
fn exit_key_returns_to_the_shell() {
    let mut console = editing(b"ab");
    let reply = console.feed(24);
    assert_eq!(reply.output, b"\r\n[ Saved ]\r\n> ".to_vec());
    assert_eq!(reply.action, SystemAction::Continue);
    assert_eq!(console.session().mode(), Mode::Shell);
    assert_eq!(text_of(&console), b"ab".to_vec());
    assert_eq!(feed_all(&mut console, b"ping\r"), b"ping\r\npong\r\n> ".to_vec());
}

#[test]
fn leaving_and_entering_again_keeps_the_text() {
    let mut console = editing(b"first\rsecond\x1b[A");
    let text = text_of(&console);
    let cursor = cursor_of(&console);
    assert_eq!(text, b"first\nsecond".to_vec());
    assert_eq!(cursor, 5);
    console.feed(24);
    assert_eq!(text_of(&console), text);
    let out = feed_all(&mut console, b"edit\r");
    let mut expected = b"edit\r\n".to_vec();
    expected.extend_from_slice(&screen_of(&text, cursor));
    assert_eq!(out, expected);
    assert_eq!(console.session().mode(), Mode::Editor);
    assert_eq!(text_of(&console), text);
    assert_eq!(cursor_of(&console), cursor);
    feed_all(&mut console, b"!\x18");
    feed_all(&mut console, b"ping\r");
    feed_all(&mut console, b"edit\r");
    assert_eq!(text_of(&console), b"first!\nsecond".to_vec());
}

#[test]
fn typed_text_comes_back_from_list() {
    let typed = b"fn main() {\r}\r\rlet x = 1\rlast";
    let mut console = editing(typed);
    assert_eq!(text_of(&console), b"fn main() {\n}\n\nlet x = 1\nlast".to_vec());
    console.feed(24);
    let out = feed_all(&mut console, b"list\r");
    assert_eq!(
        out,
        b"list\r\n\r\n--- BUFFER CONTENTS ---\r\nfn main() {\r\n}\r\n\r\nlet x = 1\r\nlast\r\n-----------------------\r\n> "
            .to_vec()
    );
}

#[test]
fn indented_text_comes_back_with_its_indentation_handed_on() {
    let mut console = editing(b"  a\rb");
    assert_eq!(text_of(&console), b"  a\n  b".to_vec());
    console.feed(24);
    let out = feed_all(&mut console, b"list\r");
    assert_eq!(
        out,
        b"list\r\n\r\n--- BUFFER CONTENTS ---\r\n  a\r\n  b\r\n-----------------------\r\n> "
            .to_vec()
    );
}

#[test]
fn list_before_any_edit() {
    let mut console = Console::new();
    assert_eq!(feed_all(&mut console, b"list\r"), b"list\r\nBuffer is empty.\r\n> ".to_vec());
    assert_eq!(
        feed_all(&mut console, b"run\r"),
        b"run\r\nBuffer empty. Use 'edit' first.\r\n> ".to_vec()
    );
}

#[test]
fn run_with_a_text_writes_only_the_prompt() {
    let mut console = editing(b"x\x18");
    assert_eq!(feed_all(&mut console, b"run\r"), b"run\r\n> ".to_vec());
}

#[test]
fn about_through_the_console() {
    let mut console = Console::new();
    let out = feed_all(&mut console, b"about\r");
    assert!(out.starts_with(b"about\r\n                                             \r\n"));
    assert!(out.ends_with(b"                Built for RP2040 (Native USB)\r\n                        \r\n> "));
    assert_eq!(out.len(), 5 + 2 + 1201 + 2);
}

#[test]
fn editor_takes_terminators_as_keys_not_as_lines() {
    let mut console = editing(b"ping\r");
    assert_eq!(console.session().mode(), Mode::Editor);
    assert_eq!(text_of(&console), b"ping\n".to_vec());
    assert_eq!(console.line_len(), 0);
}

#[test]
fn text_grows_past_the_line_capacity() {
    let mut console = editing(&[b'x'; 300]);
    assert_eq!(text_of(&console).len(), 300);
    assert_eq!(cursor_of(&console), 300);
    feed_all(&mut console, b"\r");
    assert_eq!(text_of(&console).len(), 301);
}
