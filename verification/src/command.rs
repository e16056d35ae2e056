//! Command lines: how a line falls into words, and which command a word names.

use vstd::prelude::*;
use vstd::string::StringSliceAdditionalSpecFns;
use vstd::utf8::{
    char_is_scalar, decode_first_scalar, decode_utf8_first_scalar, encode_scalar,
    is_char_boundary, is_char_boundary_iff_not_is_continuation_byte, is_continuation_byte,
    length_of_first_scalar, take_first_scalar, valid_first_scalar, valid_utf8, valid_utf8_split, has_width_1_encoding, has_width_2_encoding,
    has_width_3_encoding, has_width_4_encoding, is_ascii_chars_encode_utf8,
    last_continuation_byte, leading_byte_width_1, leading_byte_width_2, leading_byte_width_3,
    leading_byte_width_4, second_last_continuation_byte,
};

verus! {

/// The names of the commands. They are told apart byte by byte, so case
/// counts.
pub const PING: &'static str = "ping";

pub const ECHO: &'static str = "echo";

pub const ABOUT: &'static str = "about";

pub const REBOOT: &'static str = "reboot";

pub const BOOTSEL: &'static str = "bootsel";

pub const EDIT: &'static str = "edit";

pub const LIST: &'static str = "list";

pub const RUN: &'static str = "run";

/// The command that a word names.
#[derive(Clone, Copy, Debug, PartialEq, Eq)]
pub enum CommandKind {
    Ping,
    Echo,
    About,
    Reboot,
    Bootsel,
    Edit,
    List,
    Run,
    /// The word is no command's name.
    Unknown,
}

/// Three bytes that encode a white-space character in UTF-8: U+1680,
/// U+2000 to U+200A, U+2028, U+2029, U+202F, U+205F or U+3000.
pub open spec fn is_wide_space(first: u8, second: u8, third: u8) -> bool {
    ||| first == 0xE1 && second == 0x9A && third == 0x80
    ||| first == 0xE2 && second == 0x80 && (0x80 <= third <= 0x8A || third == 0xA8 || third == 0xA9
        || third == 0xAF)
    ||| first == 0xE2 && second == 0x81 && third == 0x9F
    ||| first == 0xE3 && second == 0x80 && third == 0x80
}

/// The length of the white-space character whose UTF-8 encoding begins at
/// `pos`, or 0 where none begins there.
///
/// White space is what Unicode calls so: the ASCII bytes 9 to 13 and 32, the
/// two-byte U+0085 and U+00A0, and the three-byte characters of
/// `is_wide_space`.
pub open spec fn whitespace_len(line: Seq<u8>, pos: int) -> int {
    if pos < 0 || pos >= line.len() {
        0
    } else if 9 <= line[pos] <= 13 || line[pos] == 32 {
        1
    } else if pos + 1 < line.len() && line[pos] == 0xC2 && (line[pos + 1] == 0x85 || line[pos + 1]
        == 0xA0) {
        2
    } else if pos + 2 < line.len() && is_wide_space(line[pos], line[pos + 1], line[pos + 2]) {
        3
    } else {
        0
    }
}

/// The first offset at or after `pos` at which no white space begins.
pub open spec fn skip_whitespace(line: Seq<u8>, pos: int) -> int
    decreases line.len() - pos,
{
    if whitespace_len(line, pos) > 0 {
        skip_whitespace(line, pos + whitespace_len(line, pos))
    } else {
        pos
    }
}

/// The first offset at or after `pos` at which white space begins or the
/// line ends.
pub open spec fn word_end(line: Seq<u8>, pos: int) -> int
    decreases line.len() - pos,
{
    if pos >= line.len() || whitespace_len(line, pos) > 0 {
        pos
    } else {
        word_end(line, pos + 1)
    }
}

/// The words of the line from `pos` on: the longest runs of bytes that hold
/// no white space, in their order.
pub open spec fn words_from(line: Seq<u8>, pos: int) -> Seq<Seq<u8>>
    decreases line.len() - pos,
    via words_from_decreases
{
    let start = skip_whitespace(line, pos);
    if pos < 0 || start >= line.len() {
        Seq::empty()
    } else {
        let end = word_end(line, start);
        seq![line.subrange(start, end)] + words_from(line, end)
    }
}

#[via_fn]
proof fn words_from_decreases(line: Seq<u8>, pos: int) {
    if pos >= 0 {
        lemma_skip_whitespace(line, pos);
        if skip_whitespace(line, pos) < line.len() {
            lemma_word_end(line, skip_whitespace(line, pos));
        }
    }
}

/// The words of the line.
pub open spec fn words(line: Seq<u8>) -> Seq<Seq<u8>> {
    words_from(line, 0)
}

/// The command that `name` names.
pub open spec fn command_kind(name: Seq<u8>) -> CommandKind {
    if name == PING.spec_bytes() {
        CommandKind::Ping
    } else if name == ECHO.spec_bytes() {
        CommandKind::Echo
    } else if name == ABOUT.spec_bytes() {
        CommandKind::About
    } else if name == REBOOT.spec_bytes() {
        CommandKind::Reboot
    } else if name == BOOTSEL.spec_bytes() {
        CommandKind::Bootsel
    } else if name == EDIT.spec_bytes() {
        CommandKind::Edit
    } else if name == LIST.spec_bytes() {
        CommandKind::List
    } else if name == RUN.spec_bytes() {
        CommandKind::Run
    } else {
        CommandKind::Unknown
    }
}

/// Skipping white space never goes back, never leaves the line, and stops
/// where no white space begins.
pub proof fn lemma_skip_whitespace(line: Seq<u8>, pos: int)
    requires
        0 <= pos,
    ensures
        pos <= skip_whitespace(line, pos),
        pos <= line.len() ==> skip_whitespace(line, pos) <= line.len(),
        whitespace_len(line, skip_whitespace(line, pos)) == 0,
    decreases line.len() - pos,
{
    if whitespace_len(line, pos) > 0 {
        lemma_skip_whitespace(line, pos + whitespace_len(line, pos));
    }
}

/// A word that begins in the line is not empty, ends in the line, holds no
/// byte at which white space begins, and ends at white space or with the
/// line.
pub proof fn lemma_word_end(line: Seq<u8>, pos: int)
    requires
        0 <= pos <= line.len(),
    ensures
        pos <= word_end(line, pos) <= line.len(),
        pos < line.len() && whitespace_len(line, pos) == 0 ==> pos < word_end(line, pos),
        forall|i: int| pos <= i < word_end(line, pos) ==> whitespace_len(line, i) == 0,
        word_end(line, pos) == line.len() || whitespace_len(line, word_end(line, pos)) > 0,
    decreases line.len() - pos,
{
    if pos < line.len() && whitespace_len(line, pos) == 0 {
        lemma_word_end(line, pos + 1);
    }
}

/// Whether the scalar value is one of the characters that Unicode lists as
/// white space.
pub open spec fn is_white_space(code: u32) -> bool {
    ||| 0x09 <= code <= 0x0D
    ||| code == 0x20
    ||| code == 0x85
    ||| code == 0xA0
    ||| code == 0x1680
    ||| 0x2000 <= code <= 0x200A
    ||| code == 0x2028
    ||| code == 0x2029
    ||| code == 0x202F
    ||| code == 0x205F
    ||| code == 0x3000
}

/// The bytes that count as white space are the UTF-8 encodings of the
/// white-space characters and of no others: at the start of a character's
/// encoding, white space is found, in the character's full length, exactly
/// where the character is white space.
pub proof fn lemma_white_space_encoding(c: char)
    ensures
        whitespace_len(encode_scalar(c as u32), 0) == (if is_white_space(c as u32) {
            encode_scalar(c as u32).len() as int
        } else {
            0
        }),
{
    let code = c as u32;
    char_is_scalar(c);
    if has_width_1_encoding(code) {
        lemma_one_byte(code);
    } else if has_width_2_encoding(code) {
        lemma_two_bytes(code);
    } else if has_width_3_encoding(code) {
        lemma_three_bytes(code);
    } else {
        lemma_four_bytes(code);
    }
}

/// In text, white space is found at the white-space characters and nowhere
/// else. At an offset of a line that is valid UTF-8, white space begins
/// exactly where a character begins that is white space, and it is as long
/// as that character's encoding.
pub proof fn lemma_white_space_in_text(line: Seq<u8>, pos: int)
    requires
        valid_utf8(line),
        0 <= pos < line.len(),
    ensures
        ({
            let rest = line.subrange(pos, line.len() as int);
            let found = decode_first_scalar(rest) as char;
            &&& whitespace_len(line, pos) > 0 <==> is_char_boundary(line, pos) && is_white_space(
                found as u32,
            )
            &&& whitespace_len(line, pos) > 0 ==> whitespace_len(line, pos)
                == length_of_first_scalar(rest)
        }),
{
    let rest = line.subrange(pos, line.len() as int);
    is_char_boundary_iff_not_is_continuation_byte(line, pos);
    if is_char_boundary(line, pos) {
        valid_utf8_split(line, pos);
        assert(valid_first_scalar(rest));
        decode_utf8_first_scalar(rest);
        let found = decode_first_scalar(rest) as char;
        let encoded = encode_scalar(found as u32);
        lemma_white_space_encoding(found);
        assert(encoded == take_first_scalar(rest));
        assert(encoded.len() == length_of_first_scalar(rest));
        assert forall|i: int| 0 <= i < encoded.len() implies encoded[i] == line[pos + i] by {
            assert(encoded[i] == rest[i]);
        }
        assert(whitespace_len(line, pos) == whitespace_len(encoded, 0));
    } else {
        assert(is_continuation_byte(line[pos]));
    }
}

proof fn lemma_one_byte(code: u32)
    by (bit_vector)
    requires
        has_width_1_encoding(code),
    ensures
        leading_byte_width_1(code) as u32 == code,
{
}

proof fn lemma_two_bytes(code: u32)
    by (bit_vector)
    requires
        has_width_2_encoding(code),
    ensures
        leading_byte_width_2(code) >= 0xC0,
        (leading_byte_width_2(code) == 0xC2 && last_continuation_byte(code) == 0x85) <==> code
            == 0x85,
        (leading_byte_width_2(code) == 0xC2 && last_continuation_byte(code) == 0xA0) <==> code
            == 0xA0,
{
}

proof fn lemma_three_bytes(code: u32)
    by (bit_vector)
    requires
        has_width_3_encoding(code),
    ensures
        leading_byte_width_3(code) >= 0xE0,
        is_wide_space(
            leading_byte_width_3(code),
            second_last_continuation_byte(code),
            last_continuation_byte(code),
        ) <==> is_white_space(code),
{
}

proof fn lemma_four_bytes(code: u32)
    by (bit_vector)
    requires
        has_width_4_encoding(code),
    ensures
        leading_byte_width_4(code) >= 0xF0,
{
}

/// A word of visible ASCII characters: it is not empty, and none of its
/// bytes is a space or lies outside the printable range.
pub open spec fn is_visible_word(word: Seq<u8>) -> bool {
    &&& word.len() > 0
    &&& forall|i: int| 0 <= i < word.len() ==> 33 <= #[trigger] word[i] <= 126
}

/// A line that is a word of visible ASCII characters is one word.
pub proof fn lemma_single_word(line: Seq<u8>)
    requires
        is_visible_word(line),
    ensures
        words(line) == seq![line],
{
    let len = line.len() as int;
    assert(whitespace_len(line, 0) == 0);
    lemma_word_end(line, 0);
    let end = word_end(line, 0);
    if end < len {
        assert(33 <= line[end] <= 126);
    }
    assert(whitespace_len(line, len) == 0);
    assert(words_from(line, len) =~= Seq::<Seq<u8>>::empty());
    assert(line.subrange(0, len) =~= line);
    assert(words(line) =~= seq![line]);
}

/// Each command's name is a word of at most seven visible ASCII characters,
/// is one word as a line, and names its own command and no other.
pub proof fn lemma_command_names()
    ensures
        is_visible_word(PING.spec_bytes()) && PING.spec_bytes().len() <= 7,
        is_visible_word(ECHO.spec_bytes()) && ECHO.spec_bytes().len() <= 7,
        is_visible_word(ABOUT.spec_bytes()) && ABOUT.spec_bytes().len() <= 7,
        is_visible_word(REBOOT.spec_bytes()) && REBOOT.spec_bytes().len() <= 7,
        is_visible_word(BOOTSEL.spec_bytes()) && BOOTSEL.spec_bytes().len() <= 7,
        is_visible_word(EDIT.spec_bytes()) && EDIT.spec_bytes().len() <= 7,
        is_visible_word(LIST.spec_bytes()) && LIST.spec_bytes().len() <= 7,
        is_visible_word(RUN.spec_bytes()) && RUN.spec_bytes().len() <= 7,
        words(PING.spec_bytes()) == seq![PING.spec_bytes()],
        words(ECHO.spec_bytes()) == seq![ECHO.spec_bytes()],
        words(ABOUT.spec_bytes()) == seq![ABOUT.spec_bytes()],
        words(REBOOT.spec_bytes()) == seq![REBOOT.spec_bytes()],
        words(BOOTSEL.spec_bytes()) == seq![BOOTSEL.spec_bytes()],
        words(EDIT.spec_bytes()) == seq![EDIT.spec_bytes()],
        words(LIST.spec_bytes()) == seq![LIST.spec_bytes()],
        words(RUN.spec_bytes()) == seq![RUN.spec_bytes()],
        command_kind(PING.spec_bytes()) == CommandKind::Ping,
        command_kind(ECHO.spec_bytes()) == CommandKind::Echo,
        command_kind(ABOUT.spec_bytes()) == CommandKind::About,
        command_kind(REBOOT.spec_bytes()) == CommandKind::Reboot,
        command_kind(BOOTSEL.spec_bytes()) == CommandKind::Bootsel,
        command_kind(EDIT.spec_bytes()) == CommandKind::Edit,
        command_kind(LIST.spec_bytes()) == CommandKind::List,
        command_kind(RUN.spec_bytes()) == CommandKind::Run,
{
    reveal_strlit("ping");
    reveal_strlit("echo");
    reveal_strlit("about");
    reveal_strlit("reboot");
    reveal_strlit("bootsel");
    reveal_strlit("edit");
    reveal_strlit("list");
    reveal_strlit("run");
    is_ascii_chars_encode_utf8(PING@);
    is_ascii_chars_encode_utf8(ECHO@);
    is_ascii_chars_encode_utf8(ABOUT@);
    is_ascii_chars_encode_utf8(REBOOT@);
    is_ascii_chars_encode_utf8(BOOTSEL@);
    is_ascii_chars_encode_utf8(EDIT@);
    is_ascii_chars_encode_utf8(LIST@);
    is_ascii_chars_encode_utf8(RUN@);
    lemma_single_word(PING.spec_bytes());
    lemma_single_word(ECHO.spec_bytes());
    lemma_single_word(ABOUT.spec_bytes());
    lemma_single_word(REBOOT.spec_bytes());
    lemma_single_word(BOOTSEL.spec_bytes());
    lemma_single_word(EDIT.spec_bytes());
    lemma_single_word(LIST.spec_bytes());
    lemma_single_word(RUN.spec_bytes());
}

/// The length of the white-space character that begins at `pos`, or 0.
pub fn whitespace_at(line: &[u8], pos: usize) -> (len: usize)
    ensures
        len == whitespace_len(line@, pos as int),
{
    if pos >= line.len() {
        return 0;
    }
    let first = line[pos];
    if (first >= 9 && first <= 13) || first == 32 {
        return 1;
    }
    let left = line.len() - pos;
    if left >= 2 && first == 0xC2 {
        let second = line[pos + 1];
        if second == 0x85 || second == 0xA0 {
            return 2;
        }
    }
    if left >= 3 {
        let second = line[pos + 1];
        let third = line[pos + 2];
        let wide = (first == 0xE1 && second == 0x9A && third == 0x80) || (first == 0xE2 && second
            == 0x80 && ((third >= 0x80 && third <= 0x8A) || third == 0xA8 || third == 0xA9 || third
            == 0xAF)) || (first == 0xE2 && second == 0x81 && third == 0x9F) || (first == 0xE3
            && second == 0x80 && third == 0x80);
        if wide {
            return 3;
        }
    }
    0
}

/// The next word at or after `from`: where it begins and where it ends, or
/// nothing where only white space is left.
pub fn next_word(line: &[u8], from: usize) -> (word: Option<(usize, usize)>)
    requires
        from <= line@.len(),
    ensures
        word is None <==> words_from(line@, from as int).len() == 0,
        word matches Some((start, end)) ==> {
            &&& from <= start < end <= line@.len()
            &&& start == skip_whitespace(line@, from as int)
            &&& end == word_end(line@, start as int)
            &&& words_from(line@, from as int) == seq![line@.subrange(start as int, end as int)]
                + words_from(line@, end as int)
        },
{
    let mut start: usize = from;
    loop
        invariant
            from <= start <= line@.len(),
            skip_whitespace(line@, from as int) == skip_whitespace(line@, start as int),
        ensures
            from <= start <= line@.len(),
            start == skip_whitespace(line@, from as int),
            whitespace_len(line@, start as int) == 0,
        decreases line@.len() - start,
    {
        let len = whitespace_at(line, start);
        if len == 0 {
            break;
        }
        assert(start + len <= line.len());
        start += len;
    }
    if start >= line.len() {
        return None;
    }
    let mut end: usize = start + 1;
    proof {
        lemma_word_end(line@, start as int);
    }
    while end < line.len() && whitespace_at(line, end) == 0
        invariant
            start < end <= line@.len(),
            word_end(line@, start as int) == word_end(line@, end as int),
        decreases line@.len() - end,
    {
        end += 1;
    }
    assert(words_from(line@, from as int).len() > 0);
    Some((start, end))
}

/// Whether two slices hold the same bytes.
pub fn same_bytes(a: &[u8], b: &[u8]) -> (same: bool)
    ensures
        same == (a@ == b@),
{
    if a.len() != b.len() {
        return false;
    }
    let mut i: usize = 0;
    while i < a.len()
        invariant
            i <= a@.len(),
            a@.len() == b@.len(),
            a@.subrange(0, i as int) == b@.subrange(0, i as int),
        decreases a@.len() - i,
    {
        if a[i] != b[i] {
            return false;
        }
        assert(a@.subrange(0, i + 1) =~= a@.subrange(0, i as int).push(a@[i as int]));
        assert(b@.subrange(0, i + 1) =~= b@.subrange(0, i as int).push(b@[i as int]));
        i += 1;
    }
    assert(a@ =~= a@.subrange(0, i as int));
    assert(b@ =~= b@.subrange(0, i as int));
    true
}

/// The command that `name` names.
pub fn classify(name: &[u8]) -> (kind: CommandKind)
    ensures
        kind == command_kind(name@),
{
    if same_bytes(name, PING.as_bytes()) {
        CommandKind::Ping
    } else if same_bytes(name, ECHO.as_bytes()) {
        CommandKind::Echo
    } else if same_bytes(name, ABOUT.as_bytes()) {
        CommandKind::About
    } else if same_bytes(name, REBOOT.as_bytes()) {
        CommandKind::Reboot
    } else if same_bytes(name, BOOTSEL.as_bytes()) {
        CommandKind::Bootsel
    } else if same_bytes(name, EDIT.as_bytes()) {
        CommandKind::Edit
    } else if same_bytes(name, LIST.as_bytes()) {
        CommandKind::List
    } else if same_bytes(name, RUN.as_bytes()) {
        CommandKind::Run
    } else {
        CommandKind::Unknown
    }
}

} // verus!
