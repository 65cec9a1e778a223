use ultranano::editor::{Editor, PromptMode};
use ultranano::input::{handle_input, Action, InputEvent, Key, KeyInput};
use ultranano::render::{layout, prompt_text, status_text};
use ultranano::session::{finish_write, save_with_message, step, AfterWrite, StepOutcome};
use ultranano::text::{cluster_start_byte, clusters_starting_before, fit_count, truncate_to_width};

fn lines(v: &[&str]) -> Vec<String> {
    v.iter().map(|s| s.to_string()).collect()
}

fn key(code: Key) -> InputEvent {
    InputEvent::Key(KeyInput { code, control: false })
}

fn ctrl(c: char) -> InputEvent {
    InputEvent::Key(KeyInput { code: Key::Char(c), control: true })
}

/// Runs one turn; a requested write gets `res`. Returns whether the session
/// ends, and the path and text of the write asked for, if any.
fn turn(e: &mut Editor, a: Action, res: Result<(), String>) -> (bool, Option<(String, String)>) {
    match step(e, a, 24) {
        StepOutcome::Continue => (false, None),
        StepOutcome::Exit => (true, None),
        StepOutcome::Write(req) => {
            let exit = finish_write(e, &req, res);
            (exit, Some((req.path, req.text)))
        }
    }
}

fn ok_turn(e: &mut Editor, a: Action) -> bool {
    turn(e, a, Ok(())).0
}

#[test]
fn load_splits_lines_like_str_lines() {
    let mut e = Editor::new();
    e.load_file("f.txt", "a\r\nb\nc\n");
    assert_eq!(e.buffer, vec!["a", "b", "c"]);
    assert_eq!(e.get_filename(), Some("f.txt"));
    assert!(!e.is_dirty());
    e.load_file("f.txt", "");
    assert_eq!(e.buffer, vec![""]);
    e.load_file("f.txt", "x\r");
    assert_eq!(e.buffer, vec!["x\r"]);
    e.load_file("f.txt", "\n\n");
    assert_eq!(e.buffer, vec!["", ""]);
}

#[test]
fn save_without_filename_only_says_so() {
    let mut e = Editor::new();
    let r = e.save();
    assert_eq!(r, None);
    assert_eq!(e.message.as_deref(), Some("No filename — use Ctrl+S to set one"));
}

#[test]
fn save_as_writes_lines_with_newlines() {
    let mut e = Editor::new();
    e.buffer = lines(&["one", "two"]);
    e.dirty = true;
    let (p, t) = e.save_as("out.txt");
    assert_eq!((p.as_str(), t.as_str()), ("out.txt", "one\ntwo\n"));
    assert!(e.is_dirty());
    let r = e.finish_save_as(&p, Ok(()));
    assert!(r.is_ok());
    assert_eq!(e.get_filename(), Some("out.txt"));
    assert!(e.has_custom_filename());
    assert!(!e.is_dirty());
    assert_eq!(e.message.as_deref(), Some("Saved: out.txt"));
}

#[test]
fn failed_save_changes_nothing() {
    let mut e = Editor::new();
    e.set_filename("a.txt");
    e.dirty = true;
    let (p, t) = e.save().unwrap();
    assert_eq!((p.as_str(), t.as_str()), ("a.txt", "\n"));
    let r = e.finish_save(&p, Err("disk full".to_string()));
    assert_eq!(r, Err("disk full".to_string()));
    assert!(e.is_dirty());
    assert_eq!(e.message, None);
    let ok = save_with_message(&mut e, &p, Err("disk full".to_string()));
    assert!(!ok);
    assert_eq!(e.message.as_deref(), Some("Error saving: disk full"));
}

#[test]
fn save_then_load_gives_the_buffer_back() {
    let mut e = Editor::new();
    e.buffer = lines(&["alpha", "", "gamma"]);
    let (_p, text) = e.save_as("x");
    let mut f = Editor::new();
    f.load_file("x", &text);
    assert_eq!(f.buffer, e.buffer);
}

#[test]
fn set_line_drops_line_breaks() {
    let mut e = Editor::new();
    e.set_line(1, "a\nb\r\nc".to_string());
    assert_eq!(e.get_line(1), Some("abc"));
    assert!(e.is_dirty());
    e.set_line(5, "zzz".to_string());
    assert_eq!(e.line_count(), 1);
}

#[test]
fn insert_line_past_end_appends_and_keeps_cursor_line() {
    let mut e = Editor::new();
    e.buffer = lines(&["a", "b"]);
    e.cursor_row = 1;
    e.insert_line(9, "z".to_string());
    assert_eq!(e.buffer, vec!["a", "b", "z"]);
    e.insert_line(1, "top".to_string());
    assert_eq!(e.buffer, vec!["top", "a", "b", "z"]);
    assert_eq!(e.cursor_row, 2);
    assert_eq!(e.get_line(e.cursor_row + 1), Some("b"));
}

#[test]
fn delete_line_keeps_one_line() {
    let mut e = Editor::new();
    e.buffer = lines(&["only"]);
    e.delete_line(1);
    assert_eq!(e.buffer, vec!["only"]);
    e.buffer = lines(&["a", "b", "c"]);
    e.cursor_row = 2;
    e.cursor_col = 1;
    e.delete_line(3);
    assert_eq!(e.buffer, vec!["a", "b"]);
    assert_eq!(e.cursor_row, 1);
}

#[test]
fn newline_then_backspace_restores_the_line() {
    let mut e = Editor::new();
    e.buffer = lines(&["héllo wörld"]);
    e.cursor_col = 6;
    e.insert_newline();
    assert_eq!(e.buffer, vec!["héllo ", "wörld"]);
    e.backspace();
    assert_eq!(e.buffer, vec!["héllo wörld"]);
    assert_eq!(e.cursor_row, 0);
    assert_eq!(e.cursor_col, 6);
}

#[test]
fn backspace_at_line_start_joins_lines() {
    let mut e = Editor::new();
    e.buffer = lines(&["ab", "cd"]);
    e.cursor_row = 1;
    e.cursor_col = 0;
    e.backspace();
    assert_eq!(e.buffer, vec!["abcd"]);
    assert_eq!((e.cursor_row, e.cursor_col), (0, 2));
}

#[test]
fn cut_last_line_and_cut_only_line() {
    let mut e = Editor::new();
    e.buffer = lines(&["a", "b"]);
    e.cursor_row = 1;
    e.cut_line();
    assert_eq!(e.buffer, vec!["a"]);
    assert_eq!(e.cursor_row, 0);
    e.cut_line();
    assert_eq!(e.buffer, vec![""]);
    assert_eq!(e.cut_buffer.as_deref(), Some("a"));
    let mut f = Editor::new();
    f.paste();
    assert_eq!(f.buffer, vec![""]);
    assert!(!f.is_dirty());
}

#[test]
fn cursor_moves_across_lines() {
    let mut e = Editor::new();
    e.buffer = lines(&["ab", "xyz"]);
    e.cursor_col = 2;
    e.cursor_right();
    assert_eq!((e.cursor_row, e.cursor_col), (1, 0));
    e.cursor_left();
    assert_eq!((e.cursor_row, e.cursor_col), (0, 2));
    e.cursor_down();
    e.cursor_end();
    assert_eq!(e.cursor_col, 3);
    e.cursor_up();
    assert_eq!((e.cursor_row, e.cursor_col), (0, 2));
    e.cursor_home();
    assert_eq!(e.cursor_col, 0);
    e.page_down(10);
    assert_eq!(e.cursor_row, 1);
    e.page_up(10);
    assert_eq!(e.cursor_row, 0);
}

#[test]
fn find_wraps_and_reports_missing() {
    let mut e = Editor::new();
    e.buffer = lines(&["foo bar", "baz", "qux"]);
    e.cursor_row = 1;
    e.cursor_col = 1;
    e.find("foo");
    assert_eq!((e.cursor_row, e.cursor_col), (0, 0));
    assert_eq!(e.message.as_deref(), Some("Search wrapped: foo"));
    e.find("nothing");
    assert_eq!((e.cursor_row, e.cursor_col), (0, 0));
    assert_eq!(e.message.as_deref(), Some("Not found: nothing"));
    e.message = None;
    e.cursor_col = 1;
    e.find("ba");
    assert_eq!((e.cursor_row, e.cursor_col), (0, 4));
    assert_eq!(e.message, None);
}

#[test]
fn prompts_collect_and_erase_input() {
    let mut e = Editor::new();
    e.set_filename("a.txt");
    e.start_save_as_prompt();
    assert!(e.prompt_mode == PromptMode::SaveAs("a.txt".to_string()));
    e.prompt_insert_char('x');
    assert!(e.prompt_mode == PromptMode::SaveAs("a.txtx".to_string()));
    e.prompt_backspace();
    e.prompt_backspace();
    assert!(e.prompt_mode == PromptMode::SaveAs("a.tx".to_string()));
    e.start_find_prompt();
    e.prompt_backspace();
    assert!(e.prompt_mode == PromptMode::Find(String::new()));
    e.start_save_as_and_exit_prompt();
    assert!(e.pending_exit);
    e.prompt_cancel();
    assert!(!e.pending_exit);
    assert!(e.prompt_mode == PromptMode::Inactive);
    e.start_confirm_exit_prompt();
    e.prompt_insert_char('q');
    assert!(e.prompt_mode == PromptMode::ConfirmExit);
}

#[test]
fn prompt_submit_saves_or_searches() {
    let mut e = Editor::new();
    e.buffer = lines(&["one", "two"]);
    e.start_save_as_prompt();
    for c in "n.txt".chars() {
        e.prompt_insert_char(c);
    }
    let (done, req) = e.prompt_submit();
    assert!(done);
    let (p, t) = req.unwrap();
    assert_eq!((p.as_str(), t.as_str()), ("n.txt", "one\ntwo\n"));
    assert!(e.prompt_mode == PromptMode::Inactive);
    e.finish_prompt_save(&p, Ok(()));
    assert_eq!(e.message.as_deref(), Some("Saved: n.txt"));
    assert_eq!(e.get_filename(), Some("n.txt"));

    e.start_save_as_and_exit_prompt();
    let (done, req) = e.prompt_submit();
    assert!(done);
    let (p, _t) = req.unwrap();
    assert_eq!(p, "n.txt");
    e.finish_prompt_save(&p, Err("denied".to_string()));
    assert_eq!(e.message.as_deref(), Some("Error saving: denied"));
    assert!(!e.pending_exit);

    e.start_find_prompt();
    e.prompt_insert_char('t');
    e.prompt_insert_char('w');
    assert_eq!(e.prompt_submit(), (true, None));
    assert_eq!((e.cursor_row, e.cursor_col), (1, 0));
    assert_eq!(e.prompt_submit(), (false, None));
    e.start_confirm_exit_prompt();
    assert_eq!(e.prompt_submit(), (false, None));
    assert!(e.prompt_mode == PromptMode::ConfirmExit);
}

#[test]
fn render_state_scrolls_to_the_cursor() {
    let mut e = Editor::new();
    e.buffer = lines(&["0", "1", "2", "3", "4", "5"]);
    e.cursor_row = 5;
    let s = e.render_state(3, 80);
    assert_eq!(s.row_offset, 3);
    assert_eq!(s.cursor_row, 5);
    e.cursor_row = 1;
    let s = e.render_state(3, 80);
    assert_eq!(s.row_offset, 1);
    assert_eq!(s.lines.len(), 6);
}

#[test]
fn truncation_counts_columns() {
    assert_eq!(truncate_to_width("日本語", 4), "日本");
    assert_eq!(truncate_to_width("日本語", 5), "日本");
    assert_eq!(truncate_to_width("hello", 3), "hel");
    assert_eq!(truncate_to_width("a🎉b", 3), "a🎉");
    assert_eq!(truncate_to_width("abc", 0), "");
}

#[test]
fn grapheme_indices_round_trip() {
    let s = "a🇺🇸é́b";
    for k in 0..=4 {
        let b = Editor::grapheme_to_byte_index(s, k).unwrap();
        assert_eq!(Editor::byte_to_grapheme_index(s, b), k);
    }
    assert_eq!(Editor::grapheme_to_byte_index(s, 2), Some(9));
}

#[test]
fn key_bindings() {
    let none = PromptMode::Inactive;
    assert_eq!(handle_input(ctrl('x'), &none), Action::Exit);
    assert_eq!(handle_input(ctrl('S'), &none), Action::SaveAs);
    assert_eq!(handle_input(ctrl('w'), &none), Action::Find);
    assert_eq!(handle_input(ctrl('k'), &none), Action::Cut);
    assert_eq!(handle_input(ctrl('u'), &none), Action::Paste);
    assert_eq!(handle_input(ctrl('q'), &none), Action::Ignore);
    assert_eq!(handle_input(key(Key::Char('q')), &none), Action::Insert('q'));
    assert_eq!(handle_input(key(Key::Tab), &none), Action::Insert('\t'));
    assert_eq!(handle_input(key(Key::Enter), &none), Action::Newline);
    assert_eq!(handle_input(key(Key::Esc), &none), Action::DismissHelp);
    assert_eq!(handle_input(ctrl('h'), &none), Action::Help);
    assert_eq!(handle_input(ctrl('H'), &none), Action::Help);
    assert_eq!(handle_input(InputEvent::Other, &none), Action::Ignore);
    let find = PromptMode::Find(String::new());
    assert_eq!(handle_input(key(Key::Char('z')), &find), Action::PromptInsert('z'));
    assert_eq!(handle_input(key(Key::Enter), &find), Action::PromptSubmit);
    assert_eq!(handle_input(key(Key::Esc), &find), Action::PromptCancel);
    assert_eq!(handle_input(key(Key::Up), &find), Action::Ignore);
    let confirm = PromptMode::ConfirmExit;
    assert_eq!(handle_input(key(Key::Char('Y')), &confirm), Action::SaveAndExit);
    assert_eq!(handle_input(key(Key::Enter), &confirm), Action::SaveAndExit);
    assert_eq!(handle_input(key(Key::Char('n')), &confirm), Action::ExitConfirmed);
    assert_eq!(handle_input(key(Key::Esc), &confirm), Action::PromptCancel);
}

#[test]
fn exit_asks_before_dropping_changes() {
    let mut e = Editor::new();
    assert_eq!(turn(&mut e, Action::Exit, Ok(())), (true, None));
    e.insert_char('a');
    assert_eq!(turn(&mut e, Action::Exit, Ok(())), (false, None));
    assert!(e.prompt_mode == PromptMode::ConfirmExit);
    // No file name yet: saving and exiting asks for one first.
    assert_eq!(turn(&mut e, Action::SaveAndExit, Ok(())), (false, None));
    assert!(e.pending_exit);
    assert!(e.prompt_mode == PromptMode::SaveAs(String::new()));
    ok_turn(&mut e, Action::PromptInsert('f'));
    let (exit, req) = turn(&mut e, Action::PromptSubmit, Ok(()));
    assert!(exit);
    assert_eq!(req, Some(("f".to_string(), "a\n".to_string())));
    assert!(!e.is_dirty());
    assert!(ok_turn(&mut e, Action::ExitConfirmed));
}

#[test]
fn step_edits_and_clears_the_message() {
    let mut e = Editor::new();
    e.message = Some("old".to_string());
    assert!(!ok_turn(&mut e, Action::Insert('x')));
    assert_eq!(e.message, None);
    assert_eq!(e.buffer, vec!["x"]);
    ok_turn(&mut e, Action::Newline);
    ok_turn(&mut e, Action::Backspace);
    assert_eq!(e.buffer, vec!["x"]);
    e.set_filename("f");
    let (exit, req) = turn(&mut e, Action::SaveAs, Ok(()));
    assert!(!exit);
    assert_eq!(req, Some(("f".to_string(), "x\n".to_string())));
    assert_eq!(e.message.as_deref(), Some("Saved: f"));
}

#[test]
fn layout_of_a_frame() {
    let mut e = Editor::new();
    e.buffer = lines(&["日本語テキスト", "two", "three"]);
    e.cursor_col = 2;
    let s = e.render_state(2, 6);
    let f = layout(&s, 6, 3);
    assert_eq!(f.lines, vec!["日本>", "two"]);
    assert_eq!(f.status, None);
    assert_eq!((f.cursor_x, f.cursor_y), (4, 0));

    e.start_find_prompt();
    e.prompt_insert_char('q');
    let s = e.render_state(2, 80);
    let f = layout(&s, 20, 3);
    assert_eq!(f.status.as_deref(), Some("Find: q"));
    assert_eq!((f.cursor_x, f.cursor_y), (7, 2));
    let f = layout(&s, 4, 3);
    assert_eq!(f.status.as_deref(), Some("Find"));
    assert_eq!(f.cursor_x, 3);

    e.start_confirm_exit_prompt();
    let s = e.render_state(2, 80);
    let f = layout(&s, 40, 3);
    assert_eq!(f.status.as_deref(), Some("Save changes? (Y/n): "));
    assert_eq!((f.cursor_x, f.cursor_y), (20, 2));

    e.prompt_cancel();
    e.message = Some("hello there".to_string());
    let s = e.render_state(2, 80);
    let f = layout(&s, 5, 3);
    assert_eq!(f.status.as_deref(), Some("hello"));
}

#[test]
fn prompt_and_status_texts() {
    assert_eq!(prompt_text(&PromptMode::SaveAs("a".to_string())).as_deref(), Some("Save as: a"));
    assert_eq!(prompt_text(&PromptMode::ConfirmExit), None);
    assert_eq!(status_text(&PromptMode::Find("b".to_string())).as_deref(), Some("Find: b"));
    assert_eq!(status_text(&PromptMode::Inactive), None);
}

#[test]
fn long_lines_scroll_sideways_with_markers() {
    let mut e = Editor::new();
    e.buffer = lines(&["abcdefghijklmnop", "xy"]);
    let f = layout(&e.render_state(5, 10), 10, 6);
    assert_eq!(f.lines, vec!["abcdefghi>", "xy"]);
    assert_eq!((f.cursor_x, f.cursor_y), (0, 0));

    e.cursor_end();
    let s = e.render_state(5, 10);
    assert_eq!(e.col_offset, 9);
    let f = layout(&s, 10, 6);
    assert_eq!(f.lines, vec!["<jklmnop", "<"]);
    assert_eq!(f.cursor_x, 8);
    assert!(f.cursor_x < 10);

    e.cursor_col = 2;
    let f = layout(&e.render_state(5, 10), 10, 6);
    assert_eq!(e.col_offset, 2);
    assert_eq!(f.lines, vec!["<cdefghij>", "<"]);
    assert_eq!(f.cursor_x, 1);

    e.cursor_home();
    let f = layout(&e.render_state(5, 10), 10, 6);
    assert_eq!(e.col_offset, 0);
    assert_eq!(f.lines[0], "abcdefghi>");
}

#[test]
fn wide_characters_scroll_by_columns() {
    let mut e = Editor::new();
    e.buffer = lines(&["日本語テキストです"]);
    e.cursor_end();
    let f = layout(&e.render_state(5, 8), 8, 6);
    assert!(f.cursor_x < 8);
    assert!(f.lines[0].starts_with('<'));
    assert_eq!(f.lines[0], "<です");
    assert_eq!(f.cursor_x, 5);
}

#[test]
fn help_pages_cycle_and_close() {
    let mut e = Editor::new();
    e.message = Some("hi".to_string());
    assert!(!ok_turn(&mut e, Action::Help));
    assert_eq!(e.help_page, Some(0));
    let f = layout(&e.render_state(2, 80), 80, 3);
    assert_eq!(
        f.status.as_deref(),
        Some("^X Exit  ^S Save  ^W Find  ^K Cut  ^U Paste  ^H More")
    );
    ok_turn(&mut e, Action::Help);
    assert_eq!(e.help_page, Some(1));
    let f = layout(&e.render_state(2, 80), 80, 3);
    assert_eq!(
        f.status.as_deref(),
        Some("Arrows Move  PgUp/PgDn Page  Home/End Line  Esc Close")
    );
    ok_turn(&mut e, Action::Help);
    assert_eq!(e.help_page, None);
    let f = layout(&e.render_state(2, 80), 80, 3);
    assert_eq!(f.status.as_deref(), Some("hi"));
    ok_turn(&mut e, Action::Help);
    let a = handle_input(key(Key::Esc), &e.prompt_mode);
    ok_turn(&mut e, a);
    assert_eq!(e.help_page, None);
}

#[test]
fn cluster_functions_on_given_clusters() {
    let gs = lines(&["a", "é", "日"]);
    assert_eq!(cluster_start_byte(&gs, 2), Some(3));
    assert_eq!(cluster_start_byte(&gs, 3), Some(6));
    assert_eq!(cluster_start_byte(&gs, 4), None);
    assert_eq!(clusters_starting_before(&gs, 3), 2);
    assert_eq!(clusters_starting_before(&gs, 4), 3);
    assert_eq!(clusters_starting_before(&gs, 100), 3);
    assert_eq!(fit_count(&gs, 0, 3), 2);
    assert_eq!(fit_count(&gs, 1, 3), 2);
    assert_eq!(Editor::byte_to_grapheme_index("héllo", 100), 5);
}

#[test]
fn declining_to_save_writes_nothing() {
    let mut e = Editor::new();
    e.set_filename("keep.txt");
    e.insert_char('a');
    assert_eq!(turn(&mut e, Action::Exit, Ok(())), (false, None));
    let a = handle_input(key(Key::Char('n')), &e.prompt_mode);
    assert_eq!(a, Action::ExitConfirmed);
    assert!(matches!(step(&mut e, a, 24), StepOutcome::Exit));
    assert!(e.is_dirty());
    assert!(e.prompt_mode == PromptMode::ConfirmExit);
}

#[test]
fn save_and_exit_stays_when_the_write_fails() {
    let mut e = Editor::new();
    e.set_filename("f.txt");
    e.insert_char('z');
    match step(&mut e, Action::SaveAndExit, 24) {
        StepOutcome::Write(req) => {
            assert_eq!(req.path, "f.txt");
            assert_eq!(req.text, "z\n");
            assert_eq!(req.after, AfterWrite::ReportThenExit);
            assert!(e.is_dirty());
            assert!(!finish_write(&mut e, &req, Err("no space".to_string())));
            assert!(e.is_dirty());
            assert_eq!(e.message.as_deref(), Some("Error saving: no space"));
            assert!(finish_write(&mut e, &req, Ok(())));
            assert!(!e.is_dirty());
            assert_eq!(e.message.as_deref(), Some("Saved: f.txt"));
        }
        _ => panic!("a write was expected"),
    }
}

#[test]
fn save_as_prompt_with_empty_path_writes_nothing() {
    let mut e = Editor::new();
    e.insert_char('q');
    e.start_save_as_and_exit_prompt();
    let (exit, req) = turn(&mut e, Action::PromptSubmit, Ok(()));
    assert!(!exit);
    assert_eq!(req, None);
    assert!(!e.pending_exit);
    assert!(e.is_dirty());
    assert_eq!(e.get_filename(), None);
    assert!(e.prompt_mode == PromptMode::Inactive);
}

#[test]
fn saving_without_a_file_name_of_the_users_asks_for_one() {
    let mut e = Editor::new();
    e.load_file("f.txt", "abc\n");
    let (exit, req) = turn(&mut e, Action::SaveAs, Ok(()));
    assert!(!exit);
    assert_eq!(req, None);
    assert!(e.prompt_mode == PromptMode::SaveAs("f.txt".to_string()));
}
