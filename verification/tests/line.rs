use ryu_shell::line::LINE_CAPACITY;
use ryu_shell::{LineBuffer, LineEvent};

#[test]
fn capacity_is_128() {
    assert_eq!(LINE_CAPACITY, 128);
}

#[test]
fn bytes_are_stored_in_order() {
    let mut line = LineBuffer::new();
    assert_eq!(line.len(), 0);
    assert_eq!(line.accept(b'a'), LineEvent::Stored);
    assert_eq!(line.accept(b' '), LineEvent::Stored);
    assert_eq!(line.accept(0), LineEvent::Stored);
    assert_eq!(line.accept(0xFF), LineEvent::Stored);
    assert_eq!(line.accept(9), LineEvent::Stored);
    assert_eq!(line.accept(27), LineEvent::Stored);
    assert_eq!(line.len(), 6);
    assert_eq!(line.take(), vec![b'a', b' ', 0, 0xFF, 9, 27]);
    assert_eq!(line.len(), 0);
}

#[test]
fn terminator_on_an_empty_line_is_blank() {
    let mut line = LineBuffer::new();
    assert_eq!(line.accept(13), LineEvent::Blank);
    assert_eq!(line.accept(10), LineEvent::Blank);
    assert_eq!(line.len(), 0);
}

#[test]
fn terminator_completes_the_line_and_leaves_it() {
    let mut line = LineBuffer::new();
    line.accept(b'h');
    line.accept(b'i');
    assert_eq!(line.accept(13), LineEvent::Submitted);
    assert_eq!(line.len(), 2);
    assert_eq!(line.accept(10), LineEvent::Submitted);
    assert_eq!(line.take(), b"hi".to_vec());
    assert_eq!(line.accept(10), LineEvent::Blank);
}

#[test]
fn erase_takes_the_last_byte() {
    let mut line = LineBuffer::new();
    line.accept(b'a');
    line.accept(b'b');
    line.accept(b'c');
    assert_eq!(line.accept(8), LineEvent::Erased);
    assert_eq!(line.len(), 2);
    assert_eq!(line.accept(127), LineEvent::Erased);
    assert_eq!(line.len(), 1);
    line.accept(b'z');
    assert_eq!(line.take(), b"az".to_vec());
}

#[test]
fn erase_on_an_empty_line_changes_nothing() {
    let mut line = LineBuffer::new();
    assert_eq!(line.accept(8), LineEvent::Unchanged);
    assert_eq!(line.accept(127), LineEvent::Unchanged);
    assert_eq!(line.len(), 0);
    line.accept(b'a');
    assert_eq!(line.accept(8), LineEvent::Erased);
    assert_eq!(line.accept(8), LineEvent::Unchanged);
    assert_eq!(line.len(), 0);
    assert_eq!(line.take(), Vec::<u8>::new());
}

#[test]
fn full_line_drops_what_comes() {
    let mut line = LineBuffer::new();
    for i in 0..128u32 {
        assert_eq!(line.accept(b'a' + (i % 26) as u8), LineEvent::Stored);
    }
    assert_eq!(line.len(), 128);
    assert_eq!(line.accept(b'!'), LineEvent::Dropped);
    assert_eq!(line.accept(b'?'), LineEvent::Dropped);
    assert_eq!(line.len(), 128);
    assert_eq!(line.accept(8), LineEvent::Erased);
    assert_eq!(line.accept(b'#'), LineEvent::Stored);
    assert_eq!(line.accept(b'#'), LineEvent::Dropped);
    let taken = line.take();
    assert_eq!(taken.len(), 128);
    for i in 0..127usize {
        assert_eq!(taken[i], b'a' + (i % 26) as u8);
    }
    assert_eq!(taken[127], b'#');
}

#[test]
fn take_empties_the_buffer_for_the_next_line() {
    let mut line = LineBuffer::new();
    line.accept(b'x');
    line.accept(b'y');
    assert_eq!(line.take(), b"xy".to_vec());
    line.accept(b'z');
    assert_eq!(line.take(), b"z".to_vec());
    assert_eq!(line.take(), Vec::<u8>::new());
}
