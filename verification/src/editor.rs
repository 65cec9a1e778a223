//! The editor: a buffer of lines, a cursor counted in grapheme
//! clusters, a scroll offset, the file name, a cut buffer, a status message
//! and the prompt that is open.

use vstd::prelude::*;
use vstd::string::*;

use crate::model::{
    after_prompt_save, after_save, after_save_as, file_text, no_filename_message, opt_str_view,
    opt_view, prompt_submit_result, request_view, EditorState, PromptView, RenderView, HELP_PAGES,
};
use crate::text::{
    boundary, boundary_of, byte_len, chars_of, cluster_start_byte, clusters_starting_before,
    cursor_fits_at, find_from, grapheme_clusters, grapheme_index_of_char, graphemes,
    join_with_newlines, lemma_flatten_len_ge, lemma_starts_before_boundary,
    lemma_starts_before_end, lemma_utf8_len_ge, lemma_views_insert, lemma_views_remove,
    lemma_views_update, lines_of, pop_char, push_char, remove_line_breaks, scroll_start,
    starts_before_bytes, utf8_len, views,
};

verus! {

// ---------------------------------------------------------------------------
// Types
// ---------------------------------------------------------------------------

/// The prompt open on the bottom line, with what has been typed into it.
#[derive(Clone, PartialEq)]
pub enum PromptMode {
    Inactive,
    SaveAs(String),
    Find(String),
    ConfirmExit,
}

/// What a frame is drawn from.
pub struct RenderState {
    pub lines: Vec<String>,
    pub row_offset: usize,
    pub cursor_row: usize,
    pub cursor_col: usize,
    pub prompt_mode: PromptMode,
    pub message: Option<String>,
    /// First grapheme cluster drawn of each line.
    pub col_offset: usize,
    /// The help page shown, if any.
    pub help_page: Option<usize>,
}

/// The editor. `cursor_col` counts grapheme clusters, not bytes.
pub struct Editor {
    pub buffer: Vec<String>,
    pub cursor_row: usize,
    pub cursor_col: usize,
    pub row_offset: usize,
    pub filename: Option<String>,
    /// Set once the user has chosen the file name.
    pub custom_filename: bool,
    pub dirty: bool,
    pub cut_buffer: Option<String>,
    pub message: Option<String>,
    pub prompt_mode: PromptMode,
    /// Exit after the next successful save.
    pub pending_exit: bool,
    /// First grapheme cluster drawn of each line.
    pub col_offset: usize,
    /// The help page shown, if any.
    pub help_page: Option<usize>,
}

// ---------------------------------------------------------------------------
// Views
// ---------------------------------------------------------------------------

impl View for PromptMode {
    type V = PromptView;

    open spec fn view(&self) -> PromptView {
        match self {
            PromptMode::Inactive => PromptView::Inactive,
            PromptMode::SaveAs(s) => PromptView::SaveAs(s@),
            PromptMode::Find(s) => PromptView::Find(s@),
            PromptMode::ConfirmExit => PromptView::ConfirmExit,
        }
    }
}

impl View for RenderState {
    type V = RenderView;

    open spec fn view(&self) -> RenderView {
        RenderView {
            lines: views(self.lines@),
            row_offset: self.row_offset as int,
            cursor_row: self.cursor_row as int,
            cursor_col: self.cursor_col as int,
            prompt_mode: self.prompt_mode@,
            message: opt_view(self.message),
            col_offset: self.col_offset as int,
            help_page: self.help_page,
        }
    }
}

impl View for Editor {
    type V = EditorState;

    open spec fn view(&self) -> EditorState {
        EditorState {
            buffer: views(self.buffer@),
            cursor_row: self.cursor_row as int,
            cursor_col: self.cursor_col as int,
            row_offset: self.row_offset as int,
            filename: opt_view(self.filename),
            custom_filename: self.custom_filename,
            dirty: self.dirty,
            cut_buffer: opt_view(self.cut_buffer),
            message: opt_view(self.message),
            prompt_mode: self.prompt_mode@,
            pending_exit: self.pending_exit,
            col_offset: self.col_offset as int,
            help_page: self.help_page,
        }
    }
}

// ---------------------------------------------------------------------------
// Copies
// ---------------------------------------------------------------------------

impl PromptMode {
    /// A copy of the prompt.
    pub(crate) fn duplicate(&self) -> (r: PromptMode)
        ensures
            r@ == self@,
    {
        match self {
            PromptMode::Inactive => PromptMode::Inactive,
            PromptMode::SaveAs(s) => PromptMode::SaveAs(s.clone()),
            PromptMode::Find(s) => PromptMode::Find(s.clone()),
            PromptMode::ConfirmExit => PromptMode::ConfirmExit,
        }
    }
}

fn clone_opt(o: &Option<String>) -> (r: Option<String>)
    ensures
        opt_view(r) == opt_view(*o),
{
    match o {
        Some(s) => Some(s.clone()),
        None => None,
    }
}

fn clone_lines(v: &Vec<String>) -> (r: Vec<String>)
    ensures
        views(r@) == views(v@),
{
    let mut r: Vec<String> = Vec::new();
    let mut i: usize = 0;
    while i < v.len()
        invariant
            i <= v@.len(),
            views(r@) == views(v@).take(i as int),
        decreases v@.len() - i,
    {
        let c = v[i].clone();
        let ghost r0 = views(r@);
        assert(c@ == v@[i as int]@);
        r.push(c);
        assert(views(r@) =~= r0.push(c@));
        assert(views(v@).take(i + 1) =~= views(v@).take(i as int).push(v@[i as int]@));
        i = i + 1;
    }
    assert(views(v@).take(v@.len() as int) =~= views(v@));
    r
}

// ---------------------------------------------------------------------------
// The editor
// ---------------------------------------------------------------------------

impl Editor {
    /// Number of grapheme clusters in `s`.
    pub fn grapheme_len(s: &str) -> (n: usize)
        ensures
            n == grapheme_clusters(s@).len(),
            grapheme_clusters(s@).flatten() == s@,
            forall|i: int|
                0 <= i < grapheme_clusters(s@).len() ==> (#[trigger] grapheme_clusters(s@)[i]).len()
                    > 0,
    {
        let gs = graphemes(s);
        proof {
            assert forall|i: int| 0 <= i < grapheme_clusters(s@).len() implies (
            #[trigger] grapheme_clusters(s@)[i]).len() > 0 by {
                assert(views(gs@)[i] == gs@[i]@);
            }
        }
        gs.len()
    }

    /// Byte index at which grapheme cluster `k` of `s` starts; the length of `s`
    /// in bytes for `k` equal to the number of clusters; `None` past that.
    pub fn grapheme_to_byte_index(s: &str, k: usize) -> (r: Option<usize>)
        ensures
            k <= grapheme_clusters(s@).len() ==> r is Some && r->0 == utf8_len(
                grapheme_clusters(s@).take(k as int).flatten(),
            ),
            k > grapheme_clusters(s@).len() ==> r is None,
            k <= grapheme_clusters(s@).len() ==> starts_before_bytes(
                grapheme_clusters(s@),
                0,
                r->0 as int,
            ) == k,
            grapheme_clusters(s@).flatten() == s@,
    {
        let gs = graphemes(s);
        proof {
            if k <= gs.len() {
                lemma_starts_before_boundary(views(gs@), 0, k as int);
            }
        }
        cluster_start_byte(&gs, k)
    }

    /// Number of grapheme clusters of `s` that start before byte `pos`; all
    /// of them for `pos` at or past the end of `s`.
    pub fn byte_to_grapheme_index(s: &str, pos: usize) -> (n: usize)
        ensures
            n == starts_before_bytes(grapheme_clusters(s@), 0, pos as int),
            pos >= utf8_len(s@) ==> n == grapheme_clusters(s@).len(),
    {
        let gs = graphemes(s);
        proof {
            if pos >= utf8_len(s@) {
                lemma_starts_before_end(views(gs@), pos as int);
            }
        }
        clusters_starting_before(&gs, pos)
    }

    pub fn new() -> (e: Editor)
        ensures
            e@ == EditorState::new_state(),
            e@.wf(),
    {
        let mut buffer: Vec<String> = Vec::new();
        buffer.push(String::new());
        let e = Editor {
            buffer,
            cursor_row: 0,
            cursor_col: 0,
            row_offset: 0,
            filename: None,
            custom_filename: false,
            dirty: false,
            cut_buffer: None,
            message: None,
            prompt_mode: PromptMode::Inactive,
            pending_exit: false,
            col_offset: 0,
            help_page: None,
        };
        assert(e@.buffer =~= seq![Seq::<char>::empty()]);
        e
    }

    /// Takes `content`, the text of the file `path`, as the buffer.
    pub fn load_file(&mut self, path: &str, content: &str)
        ensures
            final(self)@ == old(self)@.load_file(path@, content@),
    {
        if content.unicode_len() == 0 {
            let mut b: Vec<String> = Vec::new();
            b.push(String::new());
            assert(views(b@) =~= seq![Seq::<char>::empty()]);
            self.buffer = b;
        } else {
            self.buffer = lines_of(content);
        }
        self.filename = Some(String::from_str(path));
        self.dirty = false;
    }

    pub fn has_custom_filename(&self) -> (b: bool)
        ensures
            b == self@.custom_filename,
    {
        self.custom_filename
    }

    pub fn get_filename(&self) -> (r: Option<&str>)
        ensures
            opt_str_view(r) == self@.filename,
    {
        match &self.filename {
            Some(f) => Some(f.as_str()),
            None => None,
        }
    }

    pub fn is_dirty(&self) -> (b: bool)
        ensures
            b == self@.dirty,
    {
        self.dirty
    }

    pub fn set_filename(&mut self, path: &str)
        ensures
            final(self)@ == old(self)@.set_filename(path@),
    {
        self.filename = Some(String::from_str(path));
        self.custom_filename = true;
    }

    /// Line `n`, counting from 1.
    pub fn get_line(&self, n: usize) -> (r: Option<&str>)
        ensures
            opt_str_view(r) == self@.get_line(n as int),
    {
        if n == 0 {
            return None;
        }
        if n - 1 < self.buffer.len() {
            Some(self.buffer[n - 1].as_str())
        } else {
            None
        }
    }

    pub fn line_count(&self) -> (n: usize)
        ensures
            n == self@.buffer.len(),
    {
        self.buffer.len()
    }

    /// Replaces line `n` (counting from 1) by `text` without its line breaks;
    /// nothing happens where there is no line `n`.
    pub fn set_line(&mut self, n: usize, text: String)
        ensures
            final(self)@ == old(self)@.set_line(n as int, text@),
            old(self)@.wf() ==> final(self)@.wf(),
    {
        if n == 0 {
            return;
        }
        if n - 1 < self.buffer.len() {
            let t = remove_line_breaks(text.as_str());
            proof {
                lemma_views_update(self.buffer@, n - 1, t);
            }
            self.buffer.set(n - 1, t);
            self.dirty = true;
        }
    }

    /// Inserts `text` before line `n` (counting from 1), or after the last
    /// line where `n` is past it; nothing happens for `n == 0`.
    pub fn insert_line(&mut self, n: usize, text: String)
        requires
            old(self)@.wf(),
        ensures
            final(self)@ == old(self)@.insert_line(n as int, text@),
            final(self)@.wf(),
    {
        if n == 0 {
            return;
        }
        let idx = if n - 1 <= self.buffer.len() {
            n - 1
        } else {
            self.buffer.len()
        };
        proof {
            lemma_views_insert(self.buffer@, idx as int, text);
        }
        self.buffer.insert(idx, text);
        if idx <= self.cursor_row {
            self.cursor_row = self.cursor_row + 1;
        }
        self.dirty = true;
    }

    /// Deletes line `n` (counting from 1); nothing happens where there is no
    /// such line or where it is the only one.
    pub fn delete_line(&mut self, n: usize)
        requires
            old(self)@.wf(),
        ensures
            final(self)@ == old(self)@.delete_line(n as int),
            final(self)@.wf(),
    {
        if n == 0 || self.buffer.len() <= 1 {
            return;
        }
        let idx = n - 1;
        if idx < self.buffer.len() {
            proof {
                lemma_views_remove(self.buffer@, idx as int);
            }
            self.buffer.remove(idx);
            if self.cursor_row >= self.buffer.len() {
                self.cursor_row = self.buffer.len() - 1;
            } else if idx < self.cursor_row {
                self.cursor_row = self.cursor_row - 1;
            }
            self.dirty = true;
            self.clamp_cursor_col();
        }
    }

    pub fn start_confirm_exit_prompt(&mut self)
        ensures
            final(self)@ == old(self)@.start_confirm_exit_prompt(),
    {
        self.prompt_mode = PromptMode::ConfirmExit;
    }

    pub fn start_save_as_and_exit_prompt(&mut self)
        ensures
            final(self)@ == old(self)@.start_save_as_and_exit_prompt(),
    {
        self.pending_exit = true;
        self.start_save_as_prompt();
    }

    pub fn clear_message(&mut self)
        ensures
            final(self)@ == old(self)@.clear_message(),
    {
        self.message = None;
    }

    /// Opens the save-as prompt, filled with the current file name.
    pub fn start_save_as_prompt(&mut self)
        ensures
            final(self)@ == old(self)@.start_save_as_prompt(),
    {
        let default = match self.get_filename() {
            Some(f) => String::from_str(f),
            None => String::new(),
        };
        self.prompt_mode = PromptMode::SaveAs(default);
    }

    pub fn start_find_prompt(&mut self)
        ensures
            final(self)@ == old(self)@.start_find_prompt(),
    {
        self.prompt_mode = PromptMode::Find(String::new());
    }

    pub fn prompt_insert_char(&mut self, c: char)
        ensures
            final(self)@ == old(self)@.prompt_insert_char(c),
    {
        match &mut self.prompt_mode {
            PromptMode::SaveAs(input) => push_char(input, c),
            PromptMode::Find(input) => push_char(input, c),
            PromptMode::Inactive | PromptMode::ConfirmExit => {},
        }
    }

    pub fn prompt_backspace(&mut self)
        ensures
            final(self)@ == old(self)@.prompt_backspace(),
    {
        match &mut self.prompt_mode {
            PromptMode::SaveAs(input) => {
                pop_char(input);
            },
            PromptMode::Find(input) => {
                pop_char(input);
            },
            PromptMode::Inactive | PromptMode::ConfirmExit => {},
        }
    }

    pub fn prompt_cancel(&mut self)
        ensures
            final(self)@ == old(self)@.prompt_cancel(),
    {
        self.prompt_mode = PromptMode::Inactive;
        self.pending_exit = false;
    }

    /// Inserts `c` at the cursor and moves the cursor one cluster on.
    pub fn insert_char(&mut self, c: char)
        requires
            old(self)@.wf(),
        ensures
            final(self)@ == old(self)@.insert_char(c),
            final(self)@.wf(),
    {
        let row = self.cursor_row;
        let line = self.buffer[row].clone();
        let gs = graphemes(line.as_str());
        if self.cursor_col <= gs.len() {
            let o = boundary_of(line.as_str(), &gs, self.cursor_col);
            let n = line.as_str().unicode_len();
            let mut new_line = String::from_str(line.as_str().substring_char(0, o));
            push_char(&mut new_line, c);
            new_line.append(line.as_str().substring_char(o, n));
            let new_bytes = byte_len(new_line.as_str());
            proof {
                assert(new_line@ =~= line@.insert(o as int, c));
                lemma_views_update(self.buffer@, row as int, new_line);
                lemma_flatten_len_ge(views(gs@));
                lemma_utf8_len_ge(new_line@);
                assert(self.cursor_col + 1 <= new_bytes);
            }
            self.buffer.set(row, new_line);
            self.cursor_col = self.cursor_col + 1;
            self.dirty = true;
        }
    }

    /// Splits the line at the cursor; the cursor goes to the start of the new
    /// line.
    pub fn insert_newline(&mut self)
        requires
            old(self)@.wf(),
        ensures
            final(self)@ == old(self)@.insert_newline(),
            final(self)@.wf(),
            final(self)@.buffer[old(self)@.cursor_row] + final(self)@.buffer[old(self)@.cursor_row
                + 1] == old(self)@.line(),
    {
        let row = self.cursor_row;
        let line = self.buffer[row].clone();
        let gs = graphemes(line.as_str());
        let ghost o = boundary(line@, self.cursor_col as int);
        let (before, after) = if self.cursor_col <= gs.len() {
            let o = boundary_of(line.as_str(), &gs, self.cursor_col);
            let n = line.as_str().unicode_len();
            (
                String::from_str(line.as_str().substring_char(0, o)),
                String::from_str(line.as_str().substring_char(o, n)),
            )
        } else {
            (line.clone(), String::new())
        };
        proof {
            assert(before@ + after@ =~= line@);
            lemma_views_update(self.buffer@, row as int, before);
            lemma_views_insert(self.buffer@.update(row as int, before), row + 1, after);
        }
        let len = self.buffer.len();
        assert(row < len);
        self.buffer.set(row, before);
        self.buffer.insert(row + 1, after);
        self.cursor_row = row + 1;
        self.cursor_col = 0;
        self.dirty = true;
    }

    /// Line `line` without its grapheme cluster `k`.
    fn cut_cluster(line: &String, k: usize) -> (r: Option<String>)
        ensures
            k < grapheme_clusters(line@).len() ==> (r matches Some(t) && t@
                == EditorState::without_cluster(line@, k as int)),
            k >= grapheme_clusters(line@).len() ==> r is None,
    {
        let gs = graphemes(line.as_str());
        if k < gs.len() {
            let o1 = boundary_of(line.as_str(), &gs, k);
            let o2 = boundary_of(line.as_str(), &gs, k + 1);
            let n = line.as_str().unicode_len();
            let mut t = String::from_str(line.as_str().substring_char(0, o1));
            t.append(line.as_str().substring_char(o2, n));
            Some(t)
        } else {
            None
        }
    }

    /// Deletes the grapheme cluster under the cursor.
    pub fn delete_char(&mut self)
        requires
            old(self)@.wf(),
        ensures
            final(self)@ == old(self)@.delete_char(),
            final(self)@.wf(),
    {
        let row = self.cursor_row;
        match Self::cut_cluster(&self.buffer[row], self.cursor_col) {
            Some(t) => {
                proof {
                    lemma_views_update(self.buffer@, row as int, t);
                }
                self.buffer.set(row, t);
                self.dirty = true;
            },
            None => {},
        }
    }

    /// Deletes the grapheme cluster before the cursor, or joins the line to
    /// the previous one at its start.
    pub fn backspace(&mut self)
        requires
            old(self)@.wf(),
        ensures
            final(self)@ == old(self)@.backspace(),
            final(self)@.wf(),
    {
        let row = self.cursor_row;
        if self.cursor_col > 0 {
            self.cursor_col = self.cursor_col - 1;
            match Self::cut_cluster(&self.buffer[row], self.cursor_col) {
                Some(t) => {
                    proof {
                        lemma_views_update(self.buffer@, row as int, t);
                    }
                    self.buffer.set(row, t);
                    self.dirty = true;
                },
                None => {},
            }
        } else if row > 0 {
            proof {
                lemma_views_remove(self.buffer@, row as int);
            }
            let current = self.buffer.remove(row);
            let prev_len = Self::grapheme_len(self.buffer[row - 1].as_str());
            let mut joined = self.buffer[row - 1].clone();
            joined.append(current.as_str());
            proof {
                lemma_views_update(self.buffer@, row - 1, joined);
            }
            self.buffer.set(row - 1, joined);
            self.cursor_row = row - 1;
            self.cursor_col = prev_len;
            self.dirty = true;
        }
    }

    pub fn cursor_up(&mut self)
        requires
            old(self)@.wf(),
        ensures
            final(self)@ == old(self)@.cursor_up(),
            final(self)@.wf(),
    {
        if self.cursor_row > 0 {
            self.cursor_row = self.cursor_row - 1;
            self.clamp_cursor_col();
        }
    }

    pub fn cursor_down(&mut self)
        requires
            old(self)@.wf(),
        ensures
            final(self)@ == old(self)@.cursor_down(),
            final(self)@.wf(),
    {
        if self.cursor_row < self.buffer.len() - 1 {
            self.cursor_row = self.cursor_row + 1;
            self.clamp_cursor_col();
        }
    }

    /// Number of grapheme clusters on line `row` (0 past the end).
    fn line_len_at(&self, row: usize) -> (n: usize)
        ensures
            n == self@.line_len(row as int),
    {
        if row < self.buffer.len() {
            Self::grapheme_len(self.buffer[row].as_str())
        } else {
            0
        }
    }

    pub fn cursor_left(&mut self)
        requires
            old(self)@.wf(),
        ensures
            final(self)@ == old(self)@.cursor_left(),
            final(self)@.wf(),
    {
        if self.cursor_col > 0 {
            self.cursor_col = self.cursor_col - 1;
        } else if self.cursor_row > 0 {
            self.cursor_row = self.cursor_row - 1;
            self.cursor_col = self.line_len_at(self.cursor_row);
        }
    }

    pub fn cursor_right(&mut self)
        requires
            old(self)@.wf(),
        ensures
            final(self)@ == old(self)@.cursor_right(),
            final(self)@.wf(),
    {
        let line_len = self.line_len_at(self.cursor_row);
        if self.cursor_col < line_len {
            self.cursor_col = self.cursor_col + 1;
        } else if self.cursor_row < self.buffer.len() - 1 {
            self.cursor_row = self.cursor_row + 1;
            self.cursor_col = 0;
        }
    }

    pub fn page_up(&mut self, rows: usize)
        requires
            old(self)@.wf(),
        ensures
            final(self)@ == old(self)@.page_up(rows as int),
            final(self)@.wf(),
    {
        self.cursor_row = self.cursor_row.saturating_sub(rows);
        self.clamp_cursor_col();
    }

    pub fn page_down(&mut self, rows: usize)
        requires
            old(self)@.wf(),
            old(self).cursor_row + rows <= usize::MAX,
        ensures
            final(self)@ == old(self)@.page_down(rows as int),
            final(self)@.wf(),
    {
        let target = self.cursor_row + rows;
        let last = self.buffer.len() - 1;
        self.cursor_row = if target <= last {
            target
        } else {
            last
        };
        self.clamp_cursor_col();
    }

    pub fn cursor_home(&mut self)
        ensures
            final(self)@ == old(self)@.cursor_home(),
    {
        self.cursor_col = 0;
    }

    pub fn cursor_end(&mut self)
        ensures
            final(self)@ == old(self)@.cursor_end(),
    {
        self.cursor_col = self.line_len_at(self.cursor_row);
    }

    /// Moves the cursor back onto its line where it stands past the end.
    pub fn clamp_cursor_col(&mut self)
        ensures
            final(self)@ == old(self)@.clamp_cursor_col(),
    {
        let line_len = self.line_len_at(self.cursor_row);
        if line_len < self.cursor_col {
            self.cursor_col = line_len;
        }
    }

    /// Moves the cursor's line into the cut buffer (the last line is
    /// emptied instead).
    pub fn cut_line(&mut self)
        requires
            old(self)@.wf(),
        ensures
            final(self)@ == old(self)@.cut_line(),
            final(self)@.wf(),
    {
        let row = self.cursor_row;
        self.cut_buffer = Some(self.buffer[row].clone());
        if self.buffer.len() > 1 {
            proof {
                lemma_views_remove(self.buffer@, row as int);
            }
            self.buffer.remove(row);
            if self.cursor_row >= self.buffer.len() {
                self.cursor_row = self.buffer.len() - 1;
            }
        } else {
            let empty = String::new();
            proof {
                lemma_views_update(self.buffer@, 0, empty);
            }
            self.buffer.set(0, empty);
        }
        self.cursor_col = 0;
        self.dirty = true;
    }

    /// Inserts the cut line above the cursor's line.
    pub fn paste(&mut self)
        requires
            old(self)@.wf(),
        ensures
            final(self)@ == old(self)@.paste(),
            final(self)@.wf(),
    {
        match &self.cut_buffer {
            Some(text) => {
                let t = text.clone();
                proof {
                    lemma_views_insert(self.buffer@, self.cursor_row as int, t);
                }
                self.buffer.insert(self.cursor_row, t);
                assert(self.cursor_row < self.buffer.len());
                self.cursor_row = self.cursor_row + 1;
                self.cursor_col = 0;
                self.dirty = true;
            },
            None => {},
        }
    }

    /// Scrolls so that the cursor is among `visible_rows` rows and left of
    /// the last of `cols` columns, and takes a snapshot to draw from.
    pub fn render_state(&mut self, visible_rows: usize, cols: u16) -> (r: RenderState)
        ensures
            final(self)@ == old(self)@.scrolled(visible_rows as int, cols as int),
            r@ == final(self)@.render_view(),
    {
        let ghost m = self@;
        if self.cursor_row < self.row_offset {
            self.row_offset = self.cursor_row;
        } else if visible_rows > 0 && self.cursor_row - self.row_offset >= visible_rows {
            self.row_offset = self.cursor_row - visible_rows + 1;
        }
        proof {
            reveal_strlit("");
        }
        let gs = if self.cursor_row < self.buffer.len() {
            graphemes(self.buffer[self.cursor_row].as_str())
        } else {
            assert(""@ =~= Seq::<char>::empty());
            graphemes("")
        };
        let ghost g = views(gs@);
        assert(g == grapheme_clusters(m.cursor_line()));
        let n = gs.len();
        let c = if self.cursor_col <= n {
            self.cursor_col
        } else {
            n
        };
        if c < self.col_offset {
            self.col_offset = c;
        } else {
            let mut s = self.col_offset;
            while s < c && !cursor_fits_at(&gs, s, c, cols)
                invariant
                    s <= c <= gs@.len(),
                    g == views(gs@),
                    scroll_start(g, m.col_offset, c as int, cols as int) == scroll_start(
                        g,
                        s as int,
                        c as int,
                        cols as int,
                    ),
                decreases c - s,
            {
                s = s + 1;
            }
            self.col_offset = s;
        }
        RenderState {
            lines: clone_lines(&self.buffer),
            row_offset: self.row_offset,
            cursor_row: self.cursor_row,
            cursor_col: self.cursor_col,
            prompt_mode: self.prompt_mode.duplicate(),
            message: clone_opt(&self.message),
            col_offset: self.col_offset,
            help_page: self.help_page,
        }
    }

    /// Opens the help at its first page, turns to the next page, or closes
    /// it after the last.
    pub fn toggle_help(&mut self)
        ensures
            final(self)@ == old(self)@.toggle_help(),
    {
        self.help_page = match self.help_page {
            None => Some(0),
            Some(p) => if p < HELP_PAGES - 1 {
                Some(p + 1)
            } else {
                None
            },
        };
    }

    pub fn dismiss_help(&mut self)
        ensures
            final(self)@ == old(self)@.dismiss_help(),
    {
        self.help_page = None;
    }
}

/// `prefix` followed by `s`.
fn prefixed(prefix: &str, s: &str) -> (r: String)
    ensures
        r@ == prefix@ + s@,
{
    let mut r = String::from_str(prefix);
    r.append(s);
    r
}

impl Editor {
    /// The text written to disk: the lines, each ended by a newline.
    fn file_content(&self) -> (r: String)
        ensures
            r@ == file_text(self@.buffer),
    {
        let mut r = join_with_newlines(&self.buffer);
        push_char(&mut r, '\n');
        r
    }

    /// Char offset in the cursor's line at which a search starts.
    fn search_start(&self) -> (o: usize)
        requires
            self@.wf(),
        ensures
            o == self@.search_start(),
    {
        let line = self.buffer[self.cursor_row].as_str();
        let gs = graphemes(line);
        if self.cursor_col <= gs.len() {
            boundary_of(line, &gs, self.cursor_col)
        } else {
            0
        }
    }

    /// Moves the cursor to the next occurrence of `query`, from the cursor
    /// to the end of the buffer, then from the top back to the cursor's line.
    pub fn find(&mut self, query: &str)
        requires
            old(self)@.wf(),
        ensures
            final(self)@ == old(self)@.find(query@),
            final(self)@.wf(),
    {
        let ghost m = self@;
        let qc = chars_of(query);
        let row0 = self.cursor_row;
        let start0 = self.search_start();
        let mut r = row0;
        while r < self.buffer.len()
            invariant
                self@ == m,
                m == old(self)@,
                m.wf(),
                row0 == m.cursor_row,
                row0 <= r <= m.buffer.len(),
                qc@ == query@,
                start0 == m.search_start(),
                m.find_forward(query@, row0 as int) == m.find_forward(query@, r as int),
            decreases m.buffer.len() - r,
        {
            let lc = chars_of(self.buffer[r].as_str());
            let start = if r == row0 {
                start0
            } else {
                0
            };
            assert(lc@ == m.buffer[r as int]);
            match find_from(&lc, &qc, start) {
                Some(p) => {
                    assert(m.find_forward(query@, r as int) == Some((r as int, p as int)));
                    let col = grapheme_index_of_char(self.buffer[r].as_str(), p);
                    self.cursor_row = r;
                    self.cursor_col = col;
                    return;
                },
                None => {},
            }
            r = r + 1;
        }
        let mut r: usize = 0;
        while r <= row0 && r < self.buffer.len()
            invariant
                self@ == m,
                m == old(self)@,
                m.wf(),
                row0 == m.cursor_row,
                r <= row0 + 1,
                qc@ == query@,
                m.find_forward(query@, row0 as int) is None,
                m.find_wrapped(query@, 0) == m.find_wrapped(query@, r as int),
            decreases row0 + 1 - r,
        {
            let lc = chars_of(self.buffer[r].as_str());
            assert(lc@ == m.buffer[r as int]);
            match find_from(&lc, &qc, 0) {
                Some(p) => {
                    assert(m.find_wrapped(query@, r as int) == Some((r as int, p as int)));
                    let col = grapheme_index_of_char(self.buffer[r].as_str(), p);
                    self.cursor_row = r;
                    self.cursor_col = col;
                    self.message = Some(prefixed("Search wrapped: ", query));
                    return;
                },
                None => {},
            }
            r = r + 1;
        }
        self.message = Some(prefixed("Not found: ", query));
    }

    /// Asks to write the buffer under the file name: returns the path and the
    /// text to write, or, where there is no file name, says so in the message
    /// and asks for no write. `finish_save` takes the outcome of the write.
    pub fn save(&mut self) -> (req: Option<(String, String)>)
        ensures
            request_view(req) == match old(self)@.filename {
                None => None,
                Some(path) => Some((path, file_text(old(self)@.buffer))),
            },
            final(self)@ == match old(self)@.filename {
                None => old(self)@.with_message(no_filename_message()),
                Some(_) => old(self)@,
            },
    {
        match &self.filename {
            Some(path) => Some((path.clone(), self.file_content())),
            None => {
                self.message = Some(String::from_str("No filename — use Ctrl+S to set one"));
                None
            },
        }
    }

    /// Takes the outcome `res` of writing the buffer under the file name
    /// `path`: on success the buffer is clean and the message says so.
    /// Returns `res`.
    pub fn finish_save(&mut self, path: &str, res: Result<(), String>) -> (r: Result<(), String>)
        ensures
            r == res,
            final(self)@ == after_save(old(self)@, path@, res),
    {
        if res.is_ok() {
            self.dirty = false;
            self.message = Some(prefixed("Saved: ", path));
        }
        res
    }

    /// Asks to write the buffer under `path`: returns the path and the text.
    /// `finish_save_as` takes the outcome of the write.
    pub fn save_as(&self, path: &str) -> (req: (String, String))
        ensures
            req.0@ == path@,
            req.1@ == file_text(self@.buffer),
    {
        (String::from_str(path), self.file_content())
    }

    /// Takes the outcome `res` of writing the buffer under `path`: on success
    /// `path` becomes the file name, the buffer is clean and the message says
    /// so. Returns `res`.
    pub fn finish_save_as(&mut self, path: &str, res: Result<(), String>) -> (r: Result<(), String>)
        ensures
            r == res,
            final(self)@ == after_save_as(old(self)@, path@, res),
    {
        if res.is_ok() {
            self.filename = Some(String::from_str(path));
            self.custom_filename = true;
            self.dirty = false;
            self.message = Some(prefixed("Saved: ", path));
        }
        res
    }

    /// Submits the open prompt: asks to save under the typed path (or the
    /// current file name), or searches for the typed text. Returns whether a
    /// prompt that takes input was open, and the write asked for (path and
    /// text), which `finish_prompt_save` completes.
    pub fn prompt_submit(&mut self) -> (r: (bool, Option<(String, String)>))
        requires
            old(self)@.wf(),
        ensures
            final(self)@.wf(),
            (final(self)@, r.0, request_view(r.1)) == prompt_submit_result(old(self)@),
    {
        match self.prompt_mode.duplicate() {
            PromptMode::SaveAs(input) => {
                self.prompt_mode = PromptMode::Inactive;
                let path = if input.as_str().unicode_len() == 0 {
                    match self.get_filename() {
                        Some(f) => String::from_str(f),
                        None => String::new(),
                    }
                } else {
                    input
                };
                if path.as_str().unicode_len() > 0 {
                    let req = self.save_as(path.as_str());
                    (true, Some(req))
                } else {
                    self.pending_exit = false;
                    (true, None)
                }
            },
            PromptMode::Find(query) => {
                self.prompt_mode = PromptMode::Inactive;
                if query.as_str().unicode_len() > 0 {
                    self.find(query.as_str());
                }
                (true, None)
            },
            PromptMode::Inactive | PromptMode::ConfirmExit => (false, None),
        }
    }

    /// Takes the outcome `res` of the write that submitting the save-as
    /// prompt asked for, under `path`: success as for `finish_save_as`; a
    /// failure is reported in the message and cancels a pending exit.
    pub fn finish_prompt_save(&mut self, path: &str, res: Result<(), String>)
        ensures
            final(self)@ == after_prompt_save(old(self)@, path@, res),
    {
        match res {
            Ok(()) => {
                self.finish_save_as(path, Ok(()));
            },
            Err(e) => {
                self.message = Some(prefixed("Error saving: ", e.as_str()));
                self.pending_exit = false;
            },
        }
    }
}

} // verus!
