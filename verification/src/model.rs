//! The abstract editor: the mathematical state that the editor's contracts
//! speak of, and what each operation does to it.

use vstd::prelude::*;

use crate::text::{
    boundary, first_match, grapheme_clusters, join_lines, scrolled_col_offset, starts_before_chars,
    text_lines, without_line_breaks,
};

verus! {

/// The abstract prompt.
pub enum PromptView {
    Inactive,
    SaveAs(Seq<char>),
    Find(Seq<char>),
    ConfirmExit,
}

/// Number of help pages.
pub const HELP_PAGES: usize = 2;

/// The view of an optional string.
pub open spec fn opt_view(o: Option<String>) -> Option<Seq<char>> {
    match o {
        Some(s) => Some(s@),
        None => None,
    }
}

/// The view of an optional string slice.
pub open spec fn opt_str_view(o: Option<&str>) -> Option<Seq<char>> {
    match o {
        Some(s) => Some(s@),
        None => None,
    }
}

/// The abstract render state.
pub struct RenderView {
    pub lines: Seq<Seq<char>>,
    pub row_offset: int,
    pub cursor_row: int,
    pub cursor_col: int,
    pub prompt_mode: PromptView,
    pub message: Option<Seq<char>>,
    pub col_offset: int,
    pub help_page: Option<usize>,
}

/// The abstract editor.
pub struct EditorState {
    pub buffer: Seq<Seq<char>>,
    pub cursor_row: int,
    pub cursor_col: int,
    pub row_offset: int,
    pub filename: Option<Seq<char>>,
    pub custom_filename: bool,
    pub dirty: bool,
    pub cut_buffer: Option<Seq<char>>,
    pub message: Option<Seq<char>>,
    pub prompt_mode: PromptView,
    pub pending_exit: bool,
    /// First grapheme cluster drawn of each line.
    pub col_offset: int,
    /// The help page shown, if any.
    pub help_page: Option<usize>,
}


// ---------------------------------------------------------------------------
// Messages
// ---------------------------------------------------------------------------

pub open spec fn saved_message(path: Seq<char>) -> Seq<char> {
    "Saved: "@ + path
}

pub open spec fn no_filename_message() -> Seq<char> {
    "No filename — use Ctrl+S to set one"@
}

pub open spec fn error_saving_message(e: Seq<char>) -> Seq<char> {
    "Error saving: "@ + e
}

pub open spec fn wrapped_message(q: Seq<char>) -> Seq<char> {
    "Search wrapped: "@ + q
}

pub open spec fn not_found_message(q: Seq<char>) -> Seq<char> {
    "Not found: "@ + q
}

/// The text written to disk for a buffer: its lines, each ended by `'\n'`.
pub open spec fn file_text(b: Seq<Seq<char>>) -> Seq<char> {
    join_lines(b).push('\n')
}

pub open spec fn min(a: int, b: int) -> int {
    if a <= b {
        a
    } else {
        b
    }
}

// ---------------------------------------------------------------------------
// The operations on the abstract editor
// ---------------------------------------------------------------------------

impl EditorState {
    /// At least one line, and the cursor on one of them.
    pub open spec fn wf(self) -> bool {
        &&& self.buffer.len() >= 1
        &&& 0 <= self.cursor_row < self.buffer.len()
    }

    /// The line under the cursor.
    pub open spec fn line(self) -> Seq<char> {
        self.buffer[self.cursor_row]
    }

    /// Number of grapheme clusters on line `r` (0 past the end).
    pub open spec fn line_len(self, r: int) -> int {
        if 0 <= r < self.buffer.len() {
            grapheme_clusters(self.buffer[r]).len() as int
        } else {
            0
        }
    }

    pub open spec fn new_state() -> EditorState {
        EditorState {
            buffer: seq![Seq::<char>::empty()],
            cursor_row: 0,
            cursor_col: 0,
            row_offset: 0,
            filename: None,
            custom_filename: false,
            dirty: false,
            cut_buffer: None,
            message: None,
            prompt_mode: PromptView::Inactive,
            pending_exit: false,
            col_offset: 0,
            help_page: None,
        }
    }

    pub open spec fn load_file(self, path: Seq<char>, content: Seq<char>) -> EditorState {
        EditorState {
            buffer: if content.len() == 0 {
                seq![Seq::<char>::empty()]
            } else {
                text_lines(content)
            },
            filename: Some(path),
            dirty: false,
            ..self
        }
    }

    /// The state after the file was written under `path`.
    pub open spec fn saved_as(self, path: Seq<char>) -> EditorState {
        EditorState {
            filename: Some(path),
            custom_filename: true,
            dirty: false,
            message: Some(saved_message(path)),
            ..self
        }
    }

    pub open spec fn with_message(self, m: Seq<char>) -> EditorState {
        EditorState { message: Some(m), ..self }
    }

    pub open spec fn set_filename(self, path: Seq<char>) -> EditorState {
        EditorState { filename: Some(path), custom_filename: true, ..self }
    }

    /// 1-indexed line `n`.
    pub open spec fn get_line(self, n: int) -> Option<Seq<char>> {
        if 1 <= n <= self.buffer.len() {
            Some(self.buffer[n - 1])
        } else {
            None
        }
    }

    pub open spec fn set_line(self, n: int, text: Seq<char>) -> EditorState {
        if 1 <= n <= self.buffer.len() {
            EditorState {
                buffer: self.buffer.update(n - 1, without_line_breaks(text)),
                dirty: true,
                ..self
            }
        } else {
            self
        }
    }

    pub open spec fn insert_line(self, n: int, text: Seq<char>) -> EditorState {
        if n == 0 {
            self
        } else {
            let idx = min(n - 1, self.buffer.len() as int);
            EditorState {
                buffer: self.buffer.insert(idx, text),
                cursor_row: if idx <= self.cursor_row {
                    self.cursor_row + 1
                } else {
                    self.cursor_row
                },
                dirty: true,
                ..self
            }
        }
    }

    pub open spec fn clamp_cursor_col(self) -> EditorState {
        EditorState {
            cursor_col: min(self.cursor_col, self.line_len(self.cursor_row)),
            ..self
        }
    }

    pub open spec fn delete_line(self, n: int) -> EditorState {
        if n == 0 || self.buffer.len() <= 1 || n - 1 >= self.buffer.len() {
            self
        } else {
            let idx = n - 1;
            let b = self.buffer.remove(idx);
            let row = if self.cursor_row >= b.len() {
                b.len() - 1
            } else if idx < self.cursor_row {
                self.cursor_row - 1
            } else {
                self.cursor_row
            };
            EditorState { buffer: b, cursor_row: row, dirty: true, ..self }.clamp_cursor_col()
        }
    }

    pub open spec fn start_confirm_exit_prompt(self) -> EditorState {
        EditorState { prompt_mode: PromptView::ConfirmExit, ..self }
    }

    pub open spec fn start_save_as_prompt(self) -> EditorState {
        EditorState {
            prompt_mode: PromptView::SaveAs(
                match self.filename {
                    Some(f) => f,
                    None => Seq::empty(),
                },
            ),
            ..self
        }
    }

    pub open spec fn start_save_as_and_exit_prompt(self) -> EditorState {
        EditorState { pending_exit: true, ..self }.start_save_as_prompt()
    }

    pub open spec fn clear_message(self) -> EditorState {
        EditorState { message: None, ..self }
    }

    pub open spec fn start_find_prompt(self) -> EditorState {
        EditorState { prompt_mode: PromptView::Find(Seq::empty()), ..self }
    }

    pub open spec fn prompt_insert_char(self, c: char) -> EditorState {
        match self.prompt_mode {
            PromptView::SaveAs(i) => EditorState {
                prompt_mode: PromptView::SaveAs(i.push(c)),
                ..self
            },
            PromptView::Find(i) => EditorState { prompt_mode: PromptView::Find(i.push(c)), ..self },
            _ => self,
        }
    }

    pub open spec fn prompt_backspace(self) -> EditorState {
        match self.prompt_mode {
            PromptView::SaveAs(i) => EditorState {
                prompt_mode: PromptView::SaveAs(
                    if i.len() > 0 {
                        i.drop_last()
                    } else {
                        i
                    },
                ),
                ..self
            },
            PromptView::Find(i) => EditorState {
                prompt_mode: PromptView::Find(
                    if i.len() > 0 {
                        i.drop_last()
                    } else {
                        i
                    },
                ),
                ..self
            },
            _ => self,
        }
    }

    pub open spec fn prompt_cancel(self) -> EditorState {
        EditorState { prompt_mode: PromptView::Inactive, pending_exit: false, ..self }
    }

    pub open spec fn insert_char(self, c: char) -> EditorState {
        let line = self.line();
        if self.cursor_col <= grapheme_clusters(line).len() {
            EditorState {
                buffer: self.buffer.update(
                    self.cursor_row,
                    line.insert(boundary(line, self.cursor_col), c),
                ),
                cursor_col: self.cursor_col + 1,
                dirty: true,
                ..self
            }
        } else {
            self
        }
    }

    pub open spec fn insert_newline(self) -> EditorState {
        let line = self.line();
        let row = self.cursor_row;
        let o = boundary(line, self.cursor_col);
        let before = if self.cursor_col <= grapheme_clusters(line).len() {
            line.subrange(0, o)
        } else {
            line
        };
        let after = if self.cursor_col <= grapheme_clusters(line).len() {
            line.subrange(o, line.len() as int)
        } else {
            Seq::empty()
        };
        EditorState {
            buffer: self.buffer.update(row, before).insert(row + 1, after),
            cursor_row: row + 1,
            cursor_col: 0,
            dirty: true,
            ..self
        }
    }

    /// Line `line` without grapheme cluster `k`.
    pub open spec fn without_cluster(line: Seq<char>, k: int) -> Seq<char> {
        line.subrange(0, boundary(line, k)) + line.subrange(
            boundary(line, k + 1),
            line.len() as int,
        )
    }

    pub open spec fn delete_char(self) -> EditorState {
        let line = self.line();
        if self.cursor_col < grapheme_clusters(line).len() {
            EditorState {
                buffer: self.buffer.update(
                    self.cursor_row,
                    Self::without_cluster(line, self.cursor_col),
                ),
                dirty: true,
                ..self
            }
        } else {
            self
        }
    }

    pub open spec fn backspace(self) -> EditorState {
        let row = self.cursor_row;
        if self.cursor_col > 0 {
            let k = self.cursor_col - 1;
            let line = self.line();
            if k < grapheme_clusters(line).len() {
                EditorState {
                    buffer: self.buffer.update(row, Self::without_cluster(line, k)),
                    cursor_col: k,
                    dirty: true,
                    ..self
                }
            } else {
                EditorState { cursor_col: k, ..self }
            }
        } else if row > 0 {
            let prev = self.buffer[row - 1];
            EditorState {
                buffer: self.buffer.remove(row).update(row - 1, prev + self.buffer[row]),
                cursor_row: row - 1,
                cursor_col: grapheme_clusters(prev).len() as int,
                dirty: true,
                ..self
            }
        } else {
            self
        }
    }

    pub open spec fn cursor_up(self) -> EditorState {
        if self.cursor_row > 0 {
            EditorState { cursor_row: self.cursor_row - 1, ..self }.clamp_cursor_col()
        } else {
            self
        }
    }

    pub open spec fn cursor_down(self) -> EditorState {
        if self.cursor_row < self.buffer.len() - 1 {
            EditorState { cursor_row: self.cursor_row + 1, ..self }.clamp_cursor_col()
        } else {
            self
        }
    }

    pub open spec fn cursor_left(self) -> EditorState {
        if self.cursor_col > 0 {
            EditorState { cursor_col: self.cursor_col - 1, ..self }
        } else if self.cursor_row > 0 {
            EditorState {
                cursor_row: self.cursor_row - 1,
                cursor_col: self.line_len(self.cursor_row - 1),
                ..self
            }
        } else {
            self
        }
    }

    pub open spec fn cursor_right(self) -> EditorState {
        if self.cursor_col < self.line_len(self.cursor_row) {
            EditorState { cursor_col: self.cursor_col + 1, ..self }
        } else if self.cursor_row < self.buffer.len() - 1 {
            EditorState { cursor_row: self.cursor_row + 1, cursor_col: 0, ..self }
        } else {
            self
        }
    }

    pub open spec fn page_up(self, rows: int) -> EditorState {
        EditorState {
            cursor_row: if self.cursor_row >= rows {
                self.cursor_row - rows
            } else {
                0
            },
            ..self
        }.clamp_cursor_col()
    }

    pub open spec fn page_down(self, rows: int) -> EditorState {
        EditorState {
            cursor_row: min(self.cursor_row + rows, self.buffer.len() - 1),
            ..self
        }.clamp_cursor_col()
    }

    pub open spec fn cursor_home(self) -> EditorState {
        EditorState { cursor_col: 0, ..self }
    }

    pub open spec fn cursor_end(self) -> EditorState {
        EditorState { cursor_col: self.line_len(self.cursor_row), ..self }
    }

    pub open spec fn cut_line(self) -> EditorState {
        let row = self.cursor_row;
        let n = self.buffer.len();
        EditorState {
            cut_buffer: Some(self.buffer[row]),
            buffer: if n > 1 {
                self.buffer.remove(row)
            } else {
                self.buffer.update(0, Seq::empty())
            },
            cursor_row: if n > 1 && row >= n - 1 {
                n - 2
            } else {
                row
            },
            cursor_col: 0,
            dirty: true,
            ..self
        }
    }

    pub open spec fn paste(self) -> EditorState {
        match self.cut_buffer {
            Some(t) => EditorState {
                buffer: self.buffer.insert(self.cursor_row, t),
                cursor_row: self.cursor_row + 1,
                cursor_col: 0,
                dirty: true,
                ..self
            },
            None => self,
        }
    }

    /// Char offset in the cursor's line at which a search starts.
    pub open spec fn search_start(self) -> int {
        if self.cursor_col <= grapheme_clusters(self.line()).len() {
            boundary(self.line(), self.cursor_col)
        } else {
            0
        }
    }

    /// The first match of `q` at or after row `r`, on the cursor's row only
    /// from the cursor on: its row and char position.
    pub open spec fn find_forward(self, q: Seq<char>, r: int) -> Option<(int, int)>
        decreases self.buffer.len() - r,
    {
        if r < 0 || r >= self.buffer.len() {
            None
        } else {
            let start = if r == self.cursor_row {
                self.search_start()
            } else {
                0
            };
            match first_match(self.buffer[r], q, start) {
                Some(p) => Some((r, p)),
                None => self.find_forward(q, r + 1),
            }
        }
    }

    /// The first match of `q` in rows `r` up to the cursor's row.
    pub open spec fn find_wrapped(self, q: Seq<char>, r: int) -> Option<(int, int)>
        decreases self.cursor_row + 1 - r,
    {
        if r < 0 || r > self.cursor_row || r >= self.buffer.len() {
            None
        } else {
            match first_match(self.buffer[r], q, 0) {
                Some(p) => Some((r, p)),
                None => self.find_wrapped(q, r + 1),
            }
        }
    }

    /// The cursor on the grapheme cluster of row `r` holding char `p`.
    pub open spec fn cursor_at(self, r: int, p: int) -> EditorState {
        EditorState {
            cursor_row: r,
            cursor_col: starts_before_chars(grapheme_clusters(self.buffer[r]), 0, p) as int,
            ..self
        }
    }

    pub open spec fn find(self, q: Seq<char>) -> EditorState {
        match self.find_forward(q, self.cursor_row) {
            Some((r, p)) => self.cursor_at(r, p),
            None => match self.find_wrapped(q, 0) {
                Some((r, p)) => self.cursor_at(r, p).with_message(wrapped_message(q)),
                None => self.with_message(not_found_message(q)),
            },
        }
    }

    /// The scroll offset after making room for the cursor in `visible` rows.
    /// The line under the cursor, empty where the cursor is past the buffer.
    pub open spec fn cursor_line(self) -> Seq<char> {
        if 0 <= self.cursor_row < self.buffer.len() {
            self.buffer[self.cursor_row]
        } else {
            Seq::empty()
        }
    }

    /// The scroll offsets after making room for the cursor in `visible` rows
    /// and `cols` columns.
    pub open spec fn scrolled(self, visible: int, cols: int) -> EditorState {
        EditorState {
            row_offset: if self.cursor_row < self.row_offset {
                self.cursor_row
            } else if visible > 0 && self.cursor_row >= self.row_offset + visible {
                self.cursor_row - visible + 1
            } else {
                self.row_offset
            },
            col_offset: scrolled_col_offset(
                grapheme_clusters(self.cursor_line()),
                self.col_offset,
                self.cursor_col,
                cols,
            ),
            ..self
        }
    }

    /// Opens the help at its first page, turns to the next page, or closes it
    /// after the last.
    pub open spec fn toggle_help(self) -> EditorState {
        EditorState {
            help_page: match self.help_page {
                None => Some(0usize),
                Some(p) => if p + 1 < HELP_PAGES {
                    Some((p + 1) as usize)
                } else {
                    None
                },
            },
            ..self
        }
    }

    pub open spec fn dismiss_help(self) -> EditorState {
        EditorState { help_page: None, ..self }
    }

    pub open spec fn render_view(self) -> RenderView {
        RenderView {
            lines: self.buffer,
            row_offset: self.row_offset,
            cursor_row: self.cursor_row,
            cursor_col: self.cursor_col,
            prompt_mode: self.prompt_mode,
            message: self.message,
            col_offset: self.col_offset,
            help_page: self.help_page,
        }
    }
}


/// A write request as plain values: the path and the text.
pub open spec fn request_view(r: Option<(String, String)>) -> Option<(Seq<char>, Seq<char>)> {
    match r {
        Some((p, t)) => Some((p@, t@)),
        None => None,
    }
}

/// The state after writing the buffer under the file name `path`, where the
/// write returned `res`: on success the buffer is clean and the message says
/// so; on failure nothing changes.
pub open spec fn after_save(m: EditorState, path: Seq<char>, res: Result<(), String>) -> EditorState {
    match res {
        Ok(_) => EditorState { dirty: false, message: Some(saved_message(path)), ..m },
        Err(_) => m,
    }
}

/// The state after writing the buffer under `path` chosen by the user, where
/// the write returned `res`: on success `path` becomes the file name.
pub open spec fn after_save_as(m: EditorState, path: Seq<char>, res: Result<(), String>) -> EditorState {
    match res {
        Ok(_) => m.saved_as(path),
        Err(_) => m,
    }
}

/// The state after the write that submitting the save-as prompt asked for:
/// a failure is reported and cancels a pending exit.
pub open spec fn after_prompt_save(
    m: EditorState,
    path: Seq<char>,
    res: Result<(), String>,
) -> EditorState {
    match res {
        Ok(_) => m.saved_as(path),
        Err(e) => EditorState {
            message: Some(error_saving_message(e@)),
            pending_exit: false,
            ..m
        },
    }
}

/// The state after a save under the file name whose failure is reported in
/// the message.
pub open spec fn after_reported_save(
    m: EditorState,
    path: Seq<char>,
    res: Result<(), String>,
) -> EditorState {
    match res {
        Ok(_) => after_save(m, path, res),
        Err(e) => m.with_message(error_saving_message(e@)),
    }
}

/// What submitting the prompt of `m` does: the new state, whether a prompt
/// that takes input was open, and the write it asks for (path and text).
pub open spec fn prompt_submit_result(m: EditorState) -> (
    EditorState,
    bool,
    Option<(Seq<char>, Seq<char>)>,
) {
    match m.prompt_mode {
        PromptView::SaveAs(input) => {
            let closed = m.close_prompt();
            let path = m.submit_path(input);
            if path.len() > 0 {
                (closed, true, Some((path, file_text(m.buffer))))
            } else {
                (EditorState { pending_exit: false, ..closed }, true, None)
            }
        },
        PromptView::Find(q) => (
            if q.len() > 0 {
                m.close_prompt().find(q)
            } else {
                m.close_prompt()
            },
            true,
            None,
        ),
        _ => (m, false, None),
    }
}

impl EditorState {
    /// The path that submitting the save-as prompt with `input` saves to.
    pub open spec fn submit_path(self, input: Seq<char>) -> Seq<char> {
        if input.len() == 0 {
            match self.filename {
                Some(f) => f,
                None => Seq::empty(),
            }
        } else {
            input
        }
    }

    pub open spec fn close_prompt(self) -> EditorState {
        EditorState { prompt_mode: PromptView::Inactive, ..self }
    }
}

} // verus!
