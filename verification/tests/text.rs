use ryu_shell::text::{
    count_leading_spaces, find_line_end, find_line_start, push_bytes, push_line_break, push_lines,
    push_str, push_wire_byte,
};

fn lines_of(text: &[u8]) -> Vec<u8> {
    let mut out = Vec::new();
    push_lines(&mut out, text);
    out
}

fn std_lines_of(text: &str) -> Vec<u8> {
    let mut out = Vec::new();
    for line in text.lines() {
        out.extend_from_slice(line.as_bytes());
        out.extend_from_slice(b"\r\n");
    }
    out
}

#[test]
fn line_start_is_behind_the_nearest_line_feed_before() {
    let text = b"ab\ncd\n\nef";
    let expected = [0, 0, 0, 3, 3, 3, 6, 7, 7, 7];
    for pos in 0..=text.len() {
        assert_eq!(find_line_start(text, pos), expected[pos]);
    }
    assert_eq!(find_line_start(b"", 0), 0);
}

#[test]
fn line_end_is_at_the_nearest_line_feed_after() {
    let text = b"ab\ncd\n\nef";
    let expected = [2, 2, 2, 5, 5, 5, 6, 9, 9, 9];
    for pos in 0..=text.len() {
        assert_eq!(find_line_end(text, pos), expected[pos]);
    }
    assert_eq!(find_line_end(b"", 0), 0);
}

#[test]
fn leading_spaces_stop_at_the_first_other_byte_or_at_the_limit() {
    assert_eq!(count_leading_spaces(b"   ab  ", 0, 7), 3);
    assert_eq!(count_leading_spaces(b"   ab  ", 1, 7), 2);
    assert_eq!(count_leading_spaces(b"   ab  ", 0, 2), 2);
    assert_eq!(count_leading_spaces(b"   ab  ", 3, 7), 0);
    assert_eq!(count_leading_spaces(b"   ab  ", 5, 7), 2);
    assert_eq!(count_leading_spaces(b"   ab  ", 7, 7), 0);
    assert_eq!(count_leading_spaces(b"\t ", 0, 2), 0);
    assert_eq!(count_leading_spaces(b"", 0, 0), 0);
}

#[test]
fn push_functions_append() {
    let mut out = b"x".to_vec();
    push_str(&mut out, "ab");
    push_bytes(&mut out, b"cd");
    push_line_break(&mut out);
    push_wire_byte(&mut out, b'e');
    push_wire_byte(&mut out, b'\n');
    push_wire_byte(&mut out, b'\r');
    assert_eq!(out, b"xabcd\r\ne\r\n\r".to_vec());
}

#[test]
fn push_str_writes_utf8() {
    let mut out = Vec::new();
    push_str(&mut out, "\u{e9}\u{4e2d}");
    assert_eq!(out, vec![0xC3, 0xA9, 0xE4, 0xB8, 0xAD]);
}

#[test]
fn lines_get_line_breaks() {
    assert_eq!(lines_of(b""), b"".to_vec());
    assert_eq!(lines_of(b"a"), b"a\r\n".to_vec());
    assert_eq!(lines_of(b"a\n"), b"a\r\n".to_vec());
    assert_eq!(lines_of(b"a\nb"), b"a\r\nb\r\n".to_vec());
    assert_eq!(lines_of(b"\n"), b"\r\n".to_vec());
    assert_eq!(lines_of(b"\n\n"), b"\r\n\r\n".to_vec());
    assert_eq!(lines_of(b"a\n\nb\n"), b"a\r\n\r\nb\r\n".to_vec());
}

#[test]
fn carriage_return_before_a_line_feed_belongs_to_the_ending() {
    assert_eq!(lines_of(b"a\r\nb"), b"a\r\nb\r\n".to_vec());
    assert_eq!(lines_of(b"a\r\n"), b"a\r\n".to_vec());
    assert_eq!(lines_of(b"\r\n"), b"\r\n".to_vec());
    assert_eq!(lines_of(b"a\r\r\nb"), b"a\r\r\nb\r\n".to_vec());
}

#[test]
fn carriage_return_elsewhere_stays() {
    assert_eq!(lines_of(b"a\rb"), b"a\rb\r\n".to_vec());
    assert_eq!(lines_of(b"a\r"), b"a\r\r\n".to_vec());
    assert_eq!(lines_of(b"\r"), b"\r\r\n".to_vec());
    assert_eq!(lines_of(b"a\n\r"), b"a\r\n\r\r\n".to_vec());
}

#[test]
fn push_lines_appends_to_what_is_there() {
    let mut out = b"> ".to_vec();
    push_lines(&mut out, b"a\nb");
    assert_eq!(out, b"> a\r\nb\r\n".to_vec());
}

#[test]
fn lines_are_those_of_std() {
    let texts = [
        "",
        "\n",
        "\r",
        "\r\n",
        "\n\r",
        "a",
        "a\n",
        "a\r\n",
        "a\r",
        "a\nb",
        "a\r\nb\r\n",
        "a\n\nb",
        "a\r\r\nb",
        "\r\n\r\n",
        "  x\n    y\n",
        "caf\u{e9}\n\u{4e2d}\u{6587}\r\n",
    ];
    for text in texts {
        assert_eq!(lines_of(text.as_bytes()), std_lines_of(text), "{:?}", text);
    }
}
