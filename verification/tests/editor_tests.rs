use ultranano::editor::Editor;

#[test]
fn test_grapheme_len_ascii() {
    assert_eq!(Editor::grapheme_len("hello"), 5);
    assert_eq!(Editor::grapheme_len(""), 0);
}

#[test]
fn test_grapheme_len_unicode() {
    // Each emoji is one grapheme cluster
    assert_eq!(Editor::grapheme_len("👨‍👩‍👧‍👦"), 1); // Family emoji (ZWJ sequence)
    assert_eq!(Editor::grapheme_len("🇺🇸"), 1); // Flag emoji (regional indicators)
    assert_eq!(Editor::grapheme_len("café"), 4); // e with combining acute accent is 1 grapheme
    assert_eq!(Editor::grapheme_len("naïve"), 5);
}

#[test]
fn test_grapheme_to_byte_index_ascii() {
    assert_eq!(Editor::grapheme_to_byte_index("hello", 0), Some(0));
    assert_eq!(Editor::grapheme_to_byte_index("hello", 3), Some(3));
    assert_eq!(Editor::grapheme_to_byte_index("hello", 5), Some(5)); // End of string
    assert_eq!(Editor::grapheme_to_byte_index("hello", 6), None); // Out of bounds
}

#[test]
fn test_grapheme_to_byte_index_unicode() {
    // "héllo" - é is 2 bytes
    let s = "héllo";
    assert_eq!(Editor::grapheme_to_byte_index(s, 0), Some(0)); // h
    assert_eq!(Editor::grapheme_to_byte_index(s, 1), Some(1)); // é starts at byte 1
    assert_eq!(Editor::grapheme_to_byte_index(s, 2), Some(3)); // l starts at byte 3
    assert_eq!(Editor::grapheme_to_byte_index(s, 5), Some(6)); // End of string
}

#[test]
fn test_byte_to_grapheme_index() {
    let s = "héllo"; // h=byte 0, é=bytes 1-2, l=byte 3, l=byte 4, o=byte 5
    // byte_to_grapheme_index counts graphemes that START BEFORE the byte position
    assert_eq!(Editor::byte_to_grapheme_index(s, 0), 0); // Nothing before byte 0
    assert_eq!(Editor::byte_to_grapheme_index(s, 1), 1); // 'h' starts before byte 1
    assert_eq!(Editor::byte_to_grapheme_index(s, 2), 2); // 'h' and 'é' start before byte 2
    assert_eq!(Editor::byte_to_grapheme_index(s, 3), 2); // 'h' and 'é' start before byte 3
    assert_eq!(Editor::byte_to_grapheme_index(s, 4), 3); // 'h', 'é', 'l' start before byte 4
}

#[test]
fn test_insert_char_ascii() {
    let mut editor = Editor::new();
    editor.insert_char('a');
    editor.insert_char('b');
    editor.insert_char('c');
    assert_eq!(editor.buffer[0], "abc");
    assert_eq!(editor.cursor_col, 3);
}

#[test]
fn test_insert_char_unicode() {
    let mut editor = Editor::new();
    editor.insert_char('h');
    editor.insert_char('é');
    editor.insert_char('l');
    editor.insert_char('l');
    editor.insert_char('o');
    assert_eq!(editor.buffer[0], "héllo");
    assert_eq!(editor.cursor_col, 5); // 5 graphemes
}

#[test]
fn test_insert_char_emoji() {
    let mut editor = Editor::new();
    editor.insert_char('a');
    editor.insert_char('🎉');
    editor.insert_char('b');
    assert_eq!(editor.buffer[0], "a🎉b");
    assert_eq!(editor.cursor_col, 3); // 3 graphemes
}

#[test]
fn test_cursor_movement_unicode() {
    let mut editor = Editor::new();
    editor.buffer[0] = "a🎉b".to_string();
    editor.cursor_col = 0;

    editor.cursor_right();
    assert_eq!(editor.cursor_col, 1); // After 'a'

    editor.cursor_right();
    assert_eq!(editor.cursor_col, 2); // After emoji

    editor.cursor_right();
    assert_eq!(editor.cursor_col, 3); // After 'b'

    editor.cursor_left();
    assert_eq!(editor.cursor_col, 2); // Back before 'b'

    editor.cursor_left();
    assert_eq!(editor.cursor_col, 1); // Back before emoji
}

#[test]
fn test_backspace_unicode() {
    let mut editor = Editor::new();
    editor.buffer[0] = "a🎉b".to_string();
    editor.cursor_col = 3;

    editor.backspace(); // Delete 'b'
    assert_eq!(editor.buffer[0], "a🎉");
    assert_eq!(editor.cursor_col, 2);

    editor.backspace(); // Delete emoji
    assert_eq!(editor.buffer[0], "a");
    assert_eq!(editor.cursor_col, 1);
}

#[test]
fn test_delete_char_unicode() {
    let mut editor = Editor::new();
    editor.buffer[0] = "a🎉b".to_string();
    editor.cursor_col = 0;

    editor.delete_char(); // Delete 'a'
    assert_eq!(editor.buffer[0], "🎉b");
    assert_eq!(editor.cursor_col, 0);

    editor.delete_char(); // Delete emoji
    assert_eq!(editor.buffer[0], "b");
    assert_eq!(editor.cursor_col, 0);
}

#[test]
fn test_insert_newline_unicode() {
    let mut editor = Editor::new();
    editor.buffer[0] = "a🎉b".to_string();
    editor.cursor_col = 2; // After emoji

    editor.insert_newline();
    assert_eq!(editor.buffer.len(), 2);
    assert_eq!(editor.buffer[0], "a🎉");
    assert_eq!(editor.buffer[1], "b");
    assert_eq!(editor.cursor_row, 1);
    assert_eq!(editor.cursor_col, 0);
}

#[test]
fn test_find_unicode() {
    let mut editor = Editor::new();
    editor.buffer = vec!["hello".to_string(), "wörld".to_string(), "test".to_string()];
    editor.cursor_row = 0;
    editor.cursor_col = 0;

    editor.find("ö");
    assert_eq!(editor.cursor_row, 1);
    assert_eq!(editor.cursor_col, 1); // Grapheme position of ö
}

#[test]
fn test_cut_paste() {
    let mut editor = Editor::new();
    editor.buffer = vec!["line1".to_string(), "line2".to_string(), "line3".to_string()];
    editor.cursor_row = 1;

    editor.cut_line();
    assert_eq!(editor.buffer.len(), 2);
    assert_eq!(editor.cut_buffer, Some("line2".to_string()));

    editor.paste();
    assert_eq!(editor.buffer.len(), 3);
    assert_eq!(editor.buffer[1], "line2");
}

#[test]
fn test_cursor_end_unicode() {
    let mut editor = Editor::new();
    editor.buffer[0] = "a🎉b".to_string();
    editor.cursor_col = 0;

    editor.cursor_end();
    assert_eq!(editor.cursor_col, 3); // 3 graphemes
}

#[test]
fn test_clamp_cursor_col() {
    let mut editor = Editor::new();
    editor.buffer[0] = "ab".to_string();
    editor.cursor_col = 10; // Out of bounds

    editor.clamp_cursor_col();
    assert_eq!(editor.cursor_col, 2);
}

#[test]
fn test_get_line_one_indexed() {
    let mut e = Editor::new();
    e.buffer = vec!["alpha".to_string(), "beta".to_string()];
    assert_eq!(e.get_line(1), Some("alpha"));
    assert_eq!(e.get_line(2), Some("beta"));
    assert_eq!(e.get_line(0), None); // 0 is out of range
    assert_eq!(e.get_line(3), None); // past end
}

#[test]
fn test_line_count() {
    let mut e = Editor::new();
    e.buffer = vec!["a".to_string(), "b".to_string(), "c".to_string()];
    assert_eq!(e.line_count(), 3);
}

#[test]
fn test_set_line_one_indexed() {
    let mut e = Editor::new();
    e.buffer = vec!["hello".to_string(), "world".to_string()];
    e.set_line(1, "goodbye".to_string());
    assert_eq!(e.buffer[0], "goodbye");
    e.set_line(0, "noop".to_string()); // out of range — no-op
    assert_eq!(e.buffer[0], "goodbye");
}

#[test]
fn test_insert_line_one_indexed() {
    let mut e = Editor::new();
    e.buffer = vec!["a".to_string(), "c".to_string()];
    e.insert_line(2, "b".to_string()); // insert before line 2
    assert_eq!(e.buffer, vec!["a", "b", "c"]);
    e.insert_line(0, "noop".to_string()); // out of range — no-op
    assert_eq!(e.buffer, vec!["a", "b", "c"]);
}

#[test]
fn test_delete_line_one_indexed() {
    let mut e = Editor::new();
    e.buffer = vec!["a".to_string(), "b".to_string(), "c".to_string()];
    e.delete_line(2);
    assert_eq!(e.buffer, vec!["a", "c"]);
    e.delete_line(0); // out of range — no-op
    assert_eq!(e.buffer, vec!["a", "c"]);
}
