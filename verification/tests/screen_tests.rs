use atengine::{MemSink, Screen, Sink, BLANK};

fn fresh(w: u16, h: u16) -> Screen<MemSink> {
    Screen::init_with_size_and_writer((w, h), MemSink::new()).unwrap()
}

#[test]
fn create_blank_grid() {
    for (w, h) in [(1u16, 1u16), (4, 3), (10, 10), (1, 7)] {
        let screen = fresh(w, h);
        assert_eq!(screen.size(), (w, h));
        let cells = screen.buffer();
        assert_eq!(cells.len(), w as usize * h as usize);
        assert!(cells.iter().all(|&c| c == BLANK));
        assert_eq!(BLANK, b' ');
    }
}

#[test]
fn create_zero_sized() {
    let screen = fresh(0, 5);
    assert_eq!(screen.buffer().len(), 0);
}

#[test]
fn fill_rect_basic() {
    let mut screen = fresh(4, 3);
    screen.draw_square_byte((1, 1), (2, 2), b'X');
    let expected = [*b"    ", *b" XX ", *b" XX "].concat();
    assert_eq!(screen.buffer(), expected.as_slice());
}

#[test]
fn fill_idempotent() {
    let mut once = fresh(6, 4);
    once.draw_square_byte((2, 1), (3, 2), b'#');
    let mut twice = fresh(6, 4);
    twice.draw_square_byte((2, 1), (3, 2), b'#');
    twice.draw_square_byte((2, 1), (3, 2), b'#');
    assert_eq!(once.buffer(), twice.buffer());
}

#[test]
fn fill_clips_to_grid() {
    let mut screen = fresh(3, 3);
    screen.draw_square_byte((2, 2), (5, 5), b'Z');
    let expected = [*b"   ", *b"   ", *b"  Z"].concat();
    assert_eq!(screen.buffer(), expected.as_slice());

    let mut off = fresh(3, 3);
    off.draw_square_byte((7, 9), (2, 2), b'Z');
    assert!(off.buffer().iter().all(|&c| c == b' '));
}

#[test]
fn blit_correctness() {
    let mut screen = fresh(10, 10);
    let source = [b'A'; 9];
    screen.draw_square_bytes((2, 2), (3, 3), &source);
    for y in 0..10u16 {
        for x in 0..10u16 {
            let cell = screen.buffer()[y as usize * 10 + x as usize];
            if (2..5).contains(&x) && (2..5).contains(&y) {
                assert_eq!(cell, b'A', "cell ({x},{y}) should be A");
            } else {
                assert_eq!(cell, b' ', "cell ({x},{y}) should be untouched");
            }
        }
    }
}

#[test]
fn blit_short_source_skips_missing() {
    let mut screen = fresh(4, 4);
    screen.draw_square_byte((0, 0), (4, 4), b'.');
    // Only 5 of the 3*2 = 6 entries exist: the last cell keeps its value.
    screen.draw_square_bytes((1, 1), (3, 2), b"abcde");
    let expected = [*b"....", *b".abc", *b".de.", *b"...."].concat();
    assert_eq!(screen.buffer(), expected.as_slice());
}

#[test]
fn blit_clips_to_grid() {
    let mut screen = fresh(3, 2);
    // A 3x3 source placed at (1, 1): only its top-left 2x1 corner lands.
    screen.draw_square_bytes((1, 1), (3, 3), b"123456789");
    let expected = [*b"   ", *b" 12"].concat();
    assert_eq!(screen.buffer(), expected.as_slice());
}

#[test]
fn flush_writes_whole_grid() {
    let mut screen = fresh(3, 2);
    screen.draw_square_byte((0, 0), (3, 1), b'o');
    screen.finish().unwrap();
    // The sink got the full frame, row-major, and the grid is unchanged.
    assert_eq!(screen.writer().data().as_slice(), b"ooo   ");
    assert_eq!(screen.buffer(), b"ooo   ");
    // A second flush appends the (updated) frame after the first.
    screen.draw_square_byte((0, 1), (3, 1), b'u');
    screen.finish().unwrap();
    assert_eq!(screen.writer().data().as_slice(), b"ooo   ooouuu");
}

#[test]
fn buffer_mut_edits_cells() {
    let mut screen = fresh(2, 2);
    screen.buffer_mut()[3] = b'Q';
    assert_eq!(screen.buffer(), b"   Q");
}

#[test]
fn mem_sink_accumulates() {
    let mut sink = MemSink::new();
    assert!(sink.data().is_empty());
    sink.write_all(b"ab").unwrap();
    sink.write_all(b"c").unwrap();
    assert_eq!(sink.data().as_slice(), b"abc");
}
