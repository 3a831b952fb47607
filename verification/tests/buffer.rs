use zhazba::buffer::{Buffer, BufferInner, BufferManager};
use zhazba::rope::{
    rope_chars, rope_from_str, rope_insert, rope_len_bytes, rope_len_chars, rope_len_lines,
    rope_line, rope_line_to_byte, rope_to_string, slice_char_to_byte, slice_len_bytes,
    slice_len_chars,
};

fn buf(text: &str) -> BufferInner {
    BufferInner::from_contents("file.txt".to_string(), text)
}

#[test]
fn rope_counts_lines_bytes_and_chars() {
    let r = rope_from_str("héllo\r\nworld\rx\u{2028}");
    assert_eq!(rope_len_chars(&r), 15);
    assert_eq!(rope_len_bytes(&r), 18);
    // CR LF, CR and LS each end a line
    assert_eq!(rope_len_lines(&r), 4);
    assert_eq!(rope_line_to_byte(&r, 1), 8);
    assert_eq!(rope_line_to_byte(&r, 2), 14);
    let line = rope_line(&r, 0);
    assert_eq!(slice_len_chars(&line), 7);
    assert_eq!(slice_len_bytes(&line), 8);
    assert_eq!(slice_char_to_byte(&line, 2), 3);
    assert_eq!(rope_chars(&r).len(), 15);
    assert_eq!(rope_to_string(&r), "héllo\r\nworld\rx\u{2028}");
}

#[test]
fn rope_insert_places_text_at_char_index() {
    let mut r = rope_from_str("ab");
    rope_insert(&mut r, 1, "XY");
    assert_eq!(rope_to_string(&r), "aXYb");
}

#[test]
fn from_contents_starts_unchanged_at_origin() {
    let b = buf("abc");
    assert_eq!(b.file, "file.txt");
    assert!(!b.changed);
    assert_eq!(b.pos, (0, 0));
    assert_eq!(b.v_pos, (0, 0));
    assert_eq!(rope_to_string(&b.content), "abc");
}

#[test]
fn pos_to_idx_on_ascii_lines() {
    let b = buf("Hello\nworld");
    assert_eq!(b.pos_to_idx((2, 0)), 2);
    // the column is clamped to the line's length in bytes, line break included
    assert_eq!(b.pos_to_idx((10, 0)), 6);
    // the last line names the end of the text
    assert_eq!(b.pos_to_idx((0, 1)), 11);
    assert_eq!(b.pos_to_idx((3, 7)), 11);
}

#[test]
fn pos_to_idx_counts_bytes() {
    let b = buf("héllo\nx");
    assert_eq!(b.pos_to_idx((2, 0)), 3);
    assert_eq!(b.pos_to_idx((0, 1)), 8);
}

#[test]
fn insert_index_refuses_what_would_overrun() {
    let b = buf("héllo\nx");
    // the clamped column (7 bytes) is past the line's 6 characters
    assert_eq!(b.insert_index((9, 0)), None);
    // the end in bytes (8) is past the 7 characters
    assert_eq!(b.insert_index((0, 1)), None);
    assert_eq!(b.insert_index((1, 0)), Some(1));
    let ascii = buf("ab\ncd");
    assert_eq!(ascii.insert_index((0, 1)), Some(5));
}

#[test]
fn insert_marks_changed_and_places_text() {
    let mut b = buf("ab\ncd");
    b.insert((1, 0), "X");
    assert!(b.changed);
    assert_eq!(rope_to_string(&b.content), "aXb\ncd");
    b.insert((0, 1), "!");
    assert_eq!(rope_to_string(&b.content), "aXb\ncd!");
}

#[test]
fn save_doubles_a_final_line_feed() {
    assert_eq!(buf("a\n").save_contents(), "a\n\n");
    assert_eq!(buf("a").save_contents(), "a");
    assert_eq!(buf("").save_contents(), "");
}

#[test]
fn manager_starts_empty_without_current() {
    let m = BufferManager::new();
    assert_eq!(m.len(), 0);
    assert_eq!(m.current_idx, usize::MAX);
}

#[test]
fn manager_sets_index_and_pushes_in_front() {
    let mut m = BufferManager::new();
    m.push_front(Buffer::new(buf("one")));
    m.push_front(Buffer::new(buf("two")));
    assert_eq!(m.len(), 2);
    assert_eq!(rope_to_string(&m.buffers[0].0.content), "two");
    m.set_buffer_idx(1);
    assert_eq!(m.current_idx, 1);
    m.set_buffer_idx(1);
    assert_eq!(m.current_idx, 1);
    assert!(m.check_insert((0, 0)));
    m.insert_into_current((0, 0), "x");
    // on the last line every column names the end of the text
    assert_eq!(rope_to_string(&m.buffers[1].0.content), "onex");
    assert_eq!(rope_to_string(&m.buffers[0].0.content), "two");
}

#[test]
fn manager_without_current_ignores_typing() {
    let mut m = BufferManager::new();
    m.push_front(Buffer::new(buf("one")));
    assert!(m.check_insert((5, 5)));
    m.insert_into_current((0, 0), "x");
    assert_eq!(rope_to_string(&m.buffers[0].0.content), "one");
}
