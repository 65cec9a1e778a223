//! Properties of the editor that span its operations.

use vstd::prelude::*;

use crate::model::{file_text, not_found_message, wrapped_message, EditorState, PromptView};
use crate::input::{input_action, Action, InputEvent, Key, KeyInput};
use crate::model::RenderView;
use crate::render::{cursor_line, frame_cursor_x, frame_cursor_y, frame_lines};
use crate::session::{stepped, write_finished, StepView};
use crate::text::{
    lemma_boundary_split, lemma_flatten_extend,
    boundary, cursor_fits, display_width, first_match, scroll_start, fitting_clusters, grapheme_clusters, join_lines, matches_at,
    shown_line, split_newlines, starts_before_chars, strip_cr, text_lines, width_sum,
    without_line_breaks,
};

verus! {

/// Writing line `n` and reading it back gives the text without its line
/// breaks; the other lines and their number stay as they were.
pub proof fn law_set_line_then_get_line(m: EditorState, n: int, text: Seq<char>, k: int)
    requires
        1 <= n <= m.buffer.len(),
        k != n,
    ensures
        m.set_line(n, text).get_line(n) == Some(without_line_breaks(text)),
        m.set_line(n, text).get_line(k) == m.get_line(k),
        m.set_line(n, text).buffer.len() == m.buffer.len(),
{
}

/// Line number 0 names no line: setting, inserting or deleting it changes
/// nothing.
pub proof fn law_line_zero_is_no_line(m: EditorState, text: Seq<char>)
    ensures
        m.get_line(0) is None,
        m.set_line(0, text) == m,
        m.insert_line(0, text) == m,
        m.delete_line(0) == m,
{
}

/// Inserting before line `n` (at most one past the last line) makes the text
/// line `n`, moves the lines from `n` on down by one, and keeps the cursor
/// on the line it was on.
pub proof fn law_insert_line(m: EditorState, n: int, text: Seq<char>, k: int)
    requires
        m.wf(),
        1 <= n <= m.buffer.len() + 1,
        1 <= k <= m.buffer.len(),
    ensures
        m.insert_line(n, text).get_line(n) == Some(text),
        m.insert_line(n, text).buffer.len() == m.buffer.len() + 1,
        m.insert_line(n, text).get_line(if k < n { k } else { k + 1 }) == m.get_line(k),
        m.insert_line(n, text).line() == m.line(),
        m.insert_line(n, text).wf(),
{
}

/// Inserting past the end appends the text as the last line.
pub proof fn law_insert_line_past_end(m: EditorState, n: int, text: Seq<char>)
    requires
        m.wf(),
        n > m.buffer.len() + 1,
    ensures
        m.insert_line(n, text) == m.insert_line(m.buffer.len() + 1int, text),
        m.insert_line(n, text).get_line(m.buffer.len() + 1int) == Some(text),
{
}

/// Deleting an existing line `n` of several removes exactly that line; the
/// cursor stays on its line where another line was deleted; the buffer never
/// loses its last line.
pub proof fn law_delete_line(m: EditorState, n: int, k: int)
    requires
        m.wf(),
        1 <= n <= m.buffer.len(),
        1 <= k < m.buffer.len(),
    ensures
        m.buffer.len() > 1 ==> m.delete_line(n).buffer.len() == m.buffer.len() - 1,
        m.buffer.len() > 1 ==> m.delete_line(n).get_line(k) == m.get_line(
            if k < n { k } else { k + 1 },
        ),
        m.buffer.len() > 1 && n - 1 != m.cursor_row ==> m.delete_line(n).line() == m.line(),
        m.buffer.len() == 1 ==> m.delete_line(n) == m,
        m.delete_line(n).wf(),
{
}

/// Cutting a line that is not the last and pasting it back restores the
/// buffer and the cursor's row.
pub proof fn law_cut_then_paste(m: EditorState)
    requires
        m.wf(),
        m.cursor_row + 1 < m.buffer.len(),
    ensures
        m.cut_line().paste().buffer == m.buffer,
        m.cut_line().paste().cursor_row == m.cursor_row + 1,
        m.cut_line().cut_buffer == Some(m.line()),
{
    assert(m.cut_line().paste().buffer =~= m.buffer);
}

/// Splitting a line and joining it again with backspace restores the buffer
/// and the cursor's row.
pub proof fn law_newline_then_backspace(m: EditorState)
    requires
        m.wf(),
    ensures
        m.insert_newline().backspace().buffer == m.buffer,
        m.insert_newline().backspace().cursor_row == m.cursor_row,
{
    let line = m.line();
    let a = m.insert_newline();
    assert(a.buffer[m.cursor_row] + a.buffer[m.cursor_row + 1] =~= line);
    assert(a.backspace().buffer =~= m.buffer);
}

/// Moving right then left returns to the same place, except at the very end
/// of the buffer.
pub proof fn law_right_then_left(m: EditorState)
    requires
        m.wf(),
        0 <= m.cursor_col,
        m.cursor_col < m.line_len(m.cursor_row) || (m.cursor_col == m.line_len(m.cursor_row)
            && m.cursor_row < m.buffer.len() - 1),
    ensures
        m.cursor_right().cursor_left() == m,
{
}

/// Moving left then right returns to the same place, except at the very
/// start of the buffer or beyond the end of a line.
pub proof fn law_left_then_right(m: EditorState)
    requires
        m.wf(),
        (0 < m.cursor_col <= m.line_len(m.cursor_row)) || (m.cursor_col == 0 && m.cursor_row
            > 0),
    ensures
        m.cursor_left().cursor_right() == m,
{
}

/// A character typed into a prompt and erased again leaves the prompt as it
/// was.
pub proof fn law_prompt_type_then_erase(m: EditorState, c: char)
    ensures
        m.prompt_insert_char(c).prompt_backspace() == m,
{
    match m.prompt_mode {
        PromptView::SaveAs(i) => assert(i.push(c).drop_last() =~= i),
        PromptView::Find(i) => assert(i.push(c).drop_last() =~= i),
        _ => {},
    }
}

/// After scrolling for `visible` rows the cursor's row is on screen; a
/// cursor already on screen does not scroll vertically.
pub proof fn law_scroll_shows_cursor(m: EditorState, visible: int, cols: int)
    requires
        m.wf(),
        0 <= m.row_offset,
        visible > 0,
    ensures
        m.scrolled(visible, cols).row_offset <= m.cursor_row < m.scrolled(visible, cols).row_offset
            + visible,
        m.row_offset <= m.cursor_row < m.row_offset + visible ==> m.scrolled(
            visible,
            cols,
        ).row_offset == m.row_offset,
{
}

proof fn lemma_scroll_start(gs: Seq<Seq<char>>, s: int, c: int, cols: int)
    requires
        s <= c,
    ensures
        s <= scroll_start(gs, s, c, cols) <= c,
        scroll_start(gs, s, c, cols) == c || cursor_fits(gs, scroll_start(gs, s, c, cols), c, cols),
    decreases c - s,
{
    if !(s >= c || cursor_fits(gs, s, c, cols)) {
        lemma_scroll_start(gs, s + 1, c, cols);
    }
}

/// After scrolling for a screen at least two columns wide, the cursor (no
/// prompt open) is drawn left of the right edge, however long its line.
pub proof fn law_cursor_within_width(m: EditorState, visible: int, cols: int)
    requires
        m.wf(),
        0 <= m.cursor_col,
        0 <= m.col_offset,
        2 <= cols <= 65535,
    ensures
        m.scrolled(visible, cols).prompt_mode is Inactive ==> frame_cursor_x(
            m.scrolled(visible, cols).render_view(),
            cols,
        ) < cols,
{
    let a = m.scrolled(visible, cols);
    let r = a.render_view();
    let gs = grapheme_clusters(m.cursor_line());
    let n = gs.len() as int;
    let c = if m.cursor_col <= n {
        m.cursor_col
    } else {
        n
    };
    assert(cursor_line(r) == m.cursor_line());
    if c >= m.col_offset {
        lemma_scroll_start(gs, m.col_offset, c, cols);
    }
    assert(gs.subrange(c, c) =~= Seq::<Seq<char>>::empty());
    assert(width_sum(gs.subrange(c, c)) == 0);
}

/// A line never holds a line break after `set_line`.
pub proof fn law_set_line_has_no_breaks(text: Seq<char>, i: int)
    requires
        0 <= i < without_line_breaks(text).len(),
    ensures
        without_line_breaks(text)[i] != '\n',
        without_line_breaks(text)[i] != '\r',
    decreases text.len(),
{
    if text.len() > 0 {
        let rest = without_line_breaks(text.drop_last());
        if i < rest.len() {
            law_set_line_has_no_breaks(text.drop_last(), i);
        }
    }
}


// ---------------------------------------------------------------------------
// Search
// ---------------------------------------------------------------------------

proof fn lemma_first_match_sound(s: Seq<char>, q: Seq<char>, i: int)
    ensures
        first_match(s, q, i) matches Some(p) ==> i <= p && matches_at(s, q, p),
    decreases s.len() + 1 - i,
{
    if !(i < 0 || i + q.len() > s.len()) && !matches_at(s, q, i) {
        lemma_first_match_sound(s, q, i + 1);
    }
}

proof fn lemma_first_match_complete(s: Seq<char>, q: Seq<char>, i: int, p: int)
    requires
        0 <= i <= p,
        matches_at(s, q, p),
    ensures
        first_match(s, q, i) is Some,
    decreases p - i,
{
    if !matches_at(s, q, i) {
        lemma_first_match_complete(s, q, i + 1, p);
    }
}

proof fn lemma_forward_sound(m: EditorState, q: Seq<char>, r: int)
    ensures
        m.find_forward(q, r) matches Some((row, p)) ==> r <= row < m.buffer.len() && matches_at(
            m.buffer[row],
            q,
            p,
        ),
    decreases m.buffer.len() - r,
{
    if 0 <= r < m.buffer.len() {
        let start = if r == m.cursor_row {
            m.search_start()
        } else {
            0
        };
        lemma_first_match_sound(m.buffer[r], q, start);
        if first_match(m.buffer[r], q, start) is None {
            lemma_forward_sound(m, q, r + 1);
        }
    }
}

proof fn lemma_wrapped_sound(m: EditorState, q: Seq<char>, r: int)
    ensures
        m.find_wrapped(q, r) matches Some((row, p)) ==> r <= row < m.buffer.len() && matches_at(
            m.buffer[row],
            q,
            p,
        ),
    decreases m.cursor_row + 1 - r,
{
    if 0 <= r <= m.cursor_row && r < m.buffer.len() {
        lemma_first_match_sound(m.buffer[r], q, 0);
        if first_match(m.buffer[r], q, 0) is None {
            lemma_wrapped_sound(m, q, r + 1);
        }
    }
}

proof fn lemma_forward_complete(m: EditorState, q: Seq<char>, r0: int, r: int, p: int)
    requires
        0 <= r0 <= r < m.buffer.len(),
        matches_at(m.buffer[r], q, p),
        0 <= (if r == m.cursor_row {
            m.search_start()
        } else {
            0
        }) <= p,
    ensures
        m.find_forward(q, r0) is Some,
    decreases r - r0,
{
    let start = if r0 == m.cursor_row {
        m.search_start()
    } else {
        0
    };
    if r0 == r {
        lemma_first_match_complete(m.buffer[r], q, start, p);
    } else if first_match(m.buffer[r0], q, start) is None {
        lemma_forward_complete(m, q, r0 + 1, r, p);
    }
}

proof fn lemma_wrapped_complete(m: EditorState, q: Seq<char>, r0: int, r: int, p: int)
    requires
        m.wf(),
        0 <= r0 <= r <= m.cursor_row,
        matches_at(m.buffer[r], q, p),
    ensures
        m.find_wrapped(q, r0) is Some,
    decreases r - r0,
{
    if r0 == r {
        lemma_first_match_complete(m.buffer[r], q, 0, p);
    } else if first_match(m.buffer[r0], q, 0) is None {
        lemma_wrapped_complete(m, q, r0 + 1, r, p);
    }
}

/// Unless it reports that the query is not found (changing nothing else),
/// search leaves the cursor on an occurrence: its line holds the query at a
/// char position in the cursor's grapheme cluster.
pub proof fn law_find_lands_on_match(m: EditorState, q: Seq<char>)
    requires
        m.wf(),
    ensures
        m.find(q) == m.with_message(not_found_message(q)) || exists|p: int|
            matches_at(m.find(q).line(), q, p) && m.find(q).cursor_col == starts_before_chars(
                grapheme_clusters(m.find(q).line()),
                0,
                p,
            ),
        m.find(q).wf(),
{
    lemma_forward_sound(m, q, m.cursor_row);
    lemma_wrapped_sound(m, q, 0);
    match m.find_forward(q, m.cursor_row) {
        Some((r, p)) => {
            assert(matches_at(m.find(q).line(), q, p));
        },
        None => match m.find_wrapped(q, 0) {
            Some((r, p)) => {
                assert(matches_at(m.find(q).line(), q, p));
            },
            None => {},
        },
    }
}

/// Search finds every occurrence, wrapping around the end of the buffer:
/// where the query occurs anywhere, it does not report it missing.
pub proof fn law_find_misses_nothing(m: EditorState, q: Seq<char>, r: int, p: int)
    requires
        m.wf(),
        0 <= r < m.buffer.len(),
        matches_at(m.buffer[r], q, p),
    ensures
        m.find(q).message == m.message || m.find(q).message == Some(wrapped_message(q)),
{
    let row = m.cursor_row;
    let start = m.search_start();
    if r > row || (r == row && start <= p) {
        lemma_forward_complete(m, q, row, r, p);
    } else {
        if m.find_forward(q, row) is None {
            lemma_wrapped_complete(m, q, 0, r, p);
        }
    }
}


// ---------------------------------------------------------------------------
// Saving and loading
// ---------------------------------------------------------------------------

/// No `'\n'` in `s`.
pub open spec fn no_newline(s: Seq<char>) -> bool {
    forall|i: int| 0 <= i < s.len() ==> s[i] != '\n'
}

/// Appending text without newlines to a string extends its last piece.
proof fn lemma_split_extend(s: Seq<char>, t: Seq<char>)
    requires
        no_newline(t),
    ensures
        split_newlines(s + t) == split_newlines(s).update(
            split_newlines(s).len() - 1,
            split_newlines(s).last() + t,
        ),
        split_newlines(s).len() >= 1,
    decreases t.len(),
{
    lemma_split_nonempty(s);
    if t.len() == 0 {
        assert(s + t =~= s);
        assert(split_newlines(s).last() + t =~= split_newlines(s).last());
        assert(split_newlines(s).update(split_newlines(s).len() - 1, split_newlines(s).last())
            =~= split_newlines(s));
    } else {
        let t0 = t.drop_last();
        assert(no_newline(t0));
        lemma_split_extend(s, t0);
        assert((s + t).drop_last() =~= s + t0);
        assert((s + t).last() == t.last());
        lemma_split_nonempty(s + t0);
        let p = split_newlines(s);
        let rest = split_newlines(s + t0);
        assert(t[t.len() - 1] != '\n');
        assert(split_newlines(s + t) == rest.update(rest.len() - 1, rest.last().push(t.last())));
        assert((p.last() + t0).push(t.last()) =~= p.last() + t);
        assert(split_newlines(s + t) =~= p.update(p.len() - 1, p.last() + t));
    }
}

proof fn lemma_split_nonempty(s: Seq<char>)
    ensures
        split_newlines(s).len() >= 1,
    decreases s.len(),
{
    if s.len() > 0 {
        lemma_split_nonempty(s.drop_last());
    }
}

/// Joined lines without newlines split back into those lines.
proof fn lemma_split_join(b: Seq<Seq<char>>)
    requires
        b.len() >= 1,
        forall|i: int| 0 <= i < b.len() ==> no_newline(#[trigger] b[i]),
    ensures
        split_newlines(join_lines(b)) == b,
    decreases b.len(),
{
    if b.len() == 1 {
        lemma_split_extend(Seq::empty(), b[0]);
        assert(Seq::<char>::empty() + b[0] =~= b[0]);
        assert(split_newlines(Seq::empty()) =~= seq![Seq::<char>::empty()]);
        assert(split_newlines(join_lines(b)) =~= b);
    } else {
        let b0 = b.drop_last();
        assert(forall|i: int| 0 <= i < b0.len() ==> no_newline(#[trigger] b0[i])) by {
            assert forall|i: int| 0 <= i < b0.len() implies no_newline(#[trigger] b0[i]) by {
                assert(b0[i] == b[i]);
            }
        }
        lemma_split_join(b0);
        let j = join_lines(b0).push('\n');
        assert(j.drop_last() =~= join_lines(b0));
        assert(no_newline(b[b.len() - 1]));
        lemma_split_extend(j, b.last());
        assert(split_newlines(j) == b0.push(Seq::empty()));
        assert(Seq::<char>::empty() + b.last() =~= b.last());
        assert(split_newlines(join_lines(b)) =~= b);
    }
}

/// Loading the text that saving writes gives back the buffer, for lines
/// without `'\n'` and not ending in `'\r'` (the only lines the text of a file
/// can be read back into).
pub proof fn law_save_then_load(m: EditorState, path: Seq<char>)
    requires
        m.wf(),
        forall|i: int| 0 <= i < m.buffer.len() ==> no_newline(#[trigger] m.buffer[i]),
        forall|i: int| 0 <= i < m.buffer.len() ==> strip_cr(#[trigger] m.buffer[i]) == m.buffer[i],
    ensures
        m.load_file(path, file_text(m.buffer)).buffer == m.buffer,
{
    let b = m.buffer;
    let t = file_text(b);
    lemma_split_join(b);
    assert(t.drop_last() =~= join_lines(b));
    assert(split_newlines(t) == b.push(Seq::empty()));
    let p = split_newlines(t);
    assert(p.take(p.len() - 1) =~= b);
    assert(p.take(p.len() - 1).map_values(|l: Seq<char>| strip_cr(l)) =~= b);
    assert(text_lines(t) == b);
}


// ---------------------------------------------------------------------------
// Leaving the editor
// ---------------------------------------------------------------------------

/// A session ends with unsaved changes only where the user chose not to
/// save: every other way out saves first, and a failed save keeps the
/// session going. The turns that do not end the session keep a pending exit
/// tied to the save-as prompt.
pub proof fn law_no_exit_with_unsaved_changes(
    m: EditorState,
    event: InputEvent,
    rows: int,
    res: Result<(), String>,
)
    requires
        m.wf(),
        m.pending_exit ==> m.prompt_mode is SaveAs,
    ensures
        ({
            let action = input_action(event, m.prompt_mode);
            let a = stepped(m, action, rows).0;
            match stepped(m, action, rows).1 {
                StepView::Exit => action == Action::ExitConfirmed || !a.dirty,
                StepView::Continue => a.pending_exit ==> a.prompt_mode is SaveAs,
                StepView::Write(path, _, after) => {
                    let b = write_finished(a, path, after, res);
                    &&& b.1 ==> res is Ok && !b.0.dirty
                    &&& !b.1 ==> (b.0.pending_exit ==> b.0.prompt_mode is SaveAs)
                },
            }
        }),
{
}

/// A turn writes a file only where the user asks to save: Control+S with a
/// file name of the user's, a yes to the exit confirmation with a file name,
/// or a submitted save-as prompt with a path. It writes the buffer's text.
pub proof fn law_writes_only_when_saving(m: EditorState, action: Action, rows: int)
    ensures
        stepped(m, action, rows).1 matches StepView::Write(path, text, _) ==> {
            &&& text == file_text(m.buffer)
            &&& {
                ||| action == Action::SaveAs && m.custom_filename && m.filename == Some(path)
                ||| action == Action::SaveAndExit && m.filename == Some(path)
                ||| {
                    &&& action == Action::PromptSubmit
                    &&& m.prompt_mode matches PromptView::SaveAs(input)
                    &&& path == m.submit_path(input)
                    &&& path.len() > 0
                }
            }
        },
{
}

/// Answering no to the exit confirmation ends the session at once: nothing
/// is written and nothing changes.
pub proof fn law_declining_writes_nothing(m: EditorState, c: char, rows: int)
    requires
        m.prompt_mode is ConfirmExit,
        c == 'n' || c == 'N',
    ensures
        stepped(
            m,
            input_action(InputEvent::Key(KeyInput { code: Key::Char(c), control: false }), m.prompt_mode),
            rows,
        ) == (m, StepView::Exit),
{
}

// ---------------------------------------------------------------------------
// Drawing
// ---------------------------------------------------------------------------

proof fn lemma_width_sum_concat(a: Seq<Seq<char>>, b: Seq<Seq<char>>)
    ensures
        width_sum(a + b) == width_sum(a) + width_sum(b),
    decreases b.len(),
{
    if b.len() == 0 {
        assert(a + b =~= a);
    } else {
        assert((a + b).drop_last() =~= a + b.drop_last());
        lemma_width_sum_concat(a, b.drop_last());
    }
}

proof fn lemma_fitting_fits(gs: Seq<Seq<char>>, used: int, max: int)
    requires
        used <= max,
    ensures
        fitting_clusters(gs, used, max) <= gs.len(),
        used + width_sum(gs.take(fitting_clusters(gs, used, max) as int)) <= max,
    decreases gs.len(),
{
    let k = fitting_clusters(gs, used, max);
    if gs.len() == 0 || used + display_width(gs[0]) > max {
        assert(gs.take(k as int) =~= Seq::<Seq<char>>::empty());
    } else {
        let w = display_width(gs[0]);
        let rest = gs.drop_first();
        lemma_fitting_fits(rest, used + w, max);
        let k1 = fitting_clusters(rest, used + w, max);
        assert(gs.take(k as int) =~= seq![gs[0]] + rest.take(k1 as int));
        lemma_width_sum_concat(seq![gs[0]], rest.take(k1 as int));
        let single = seq![gs[0]];
        assert(single.drop_last() =~= Seq::<Seq<char>>::empty());
        assert(single.last() == gs[0]);
        assert(width_sum(single.drop_last()) == 0);
        assert(width_sum(single) == w);
    }
}

/// The grapheme clusters a line is truncated to fit, together, in the
/// columns given.
pub proof fn law_truncation_fits(s: Seq<char>, max: int)
    requires
        0 <= max,
    ensures
        width_sum(
            grapheme_clusters(s).take(fitting_clusters(grapheme_clusters(s), 0, max) as int),
        ) <= max,
{
    lemma_fitting_fits(grapheme_clusters(s), 0, max);
}


// ---------------------------------------------------------------------------
// Unsaved changes
// ---------------------------------------------------------------------------

/// Every edit that changes the buffer marks it as having unsaved changes.
pub proof fn law_edits_mark_dirty(m: EditorState, c: char, n: int, text: Seq<char>)
    requires
        m.wf(),
    ensures
        m.insert_char(c).buffer != m.buffer ==> m.insert_char(c).dirty,
        m.insert_newline().dirty,
        m.delete_char().buffer != m.buffer ==> m.delete_char().dirty,
        m.backspace().buffer != m.buffer ==> m.backspace().dirty,
        m.set_line(n, text).buffer != m.buffer ==> m.set_line(n, text).dirty,
        m.insert_line(n, text).buffer != m.buffer ==> m.insert_line(n, text).dirty,
        m.delete_line(n).buffer != m.buffer ==> m.delete_line(n).dirty,
        m.cut_line().dirty,
        m.paste().buffer != m.buffer ==> m.paste().dirty,
{
}


// ---------------------------------------------------------------------------
// Help
// ---------------------------------------------------------------------------

/// Control+H opens the help at its first page and turns the pages; after the
/// last page it closes again. Escape closes it. The help changes nothing
/// but itself.
pub proof fn law_help_pages(m: EditorState)
    requires
        m.help_page is None,
    ensures
        m.toggle_help().help_page == Some(0usize),
        m.toggle_help().toggle_help().help_page == Some(1usize),
        m.toggle_help().toggle_help().toggle_help() == m,
        m.toggle_help().dismiss_help() == m,
        m.toggle_help().buffer == m.buffer && m.toggle_help().cursor_row == m.cursor_row
            && m.toggle_help().cursor_col == m.cursor_col,
{
}

// ---------------------------------------------------------------------------
// Searching again
// ---------------------------------------------------------------------------

proof fn lemma_starts_before_chars_bounded(gs: Seq<Seq<char>>, base: int, p: int)
    ensures
        starts_before_chars(gs, base, p) <= gs.len(),
    decreases gs.len(),
{
    if gs.len() > 0 && base < p {
        lemma_starts_before_chars_bounded(gs.drop_first(), base + gs[0].len(), p);
    }
}

proof fn lemma_forward_same(a: EditorState, m: EditorState, q: Seq<char>, r: int)
    requires
        a.buffer == m.buffer,
        a.cursor_row == m.cursor_row,
        a.cursor_col == m.cursor_col,
    ensures
        a.find_forward(q, r) == m.find_forward(q, r),
    decreases m.buffer.len() - r,
{
    if 0 <= r < m.buffer.len() {
        lemma_forward_same(a, m, q, r + 1);
    }
}

proof fn lemma_wrapped_same(a: EditorState, m: EditorState, q: Seq<char>, r: int)
    requires
        a.buffer == m.buffer,
        a.cursor_row == m.cursor_row,
    ensures
        a.find_wrapped(q, r) == m.find_wrapped(q, r),
    decreases m.cursor_row + 1 - r,
{
    if 0 <= r <= m.cursor_row && r < m.buffer.len() {
        lemma_wrapped_same(a, m, q, r + 1);
    }
}

/// Searching again for the same text stays put: where the first search left
/// the cursor where it was (among others where it found nothing), and where
/// it landed on a match that starts its grapheme cluster (the search then
/// starts at that match and finds it first).
pub proof fn law_find_again_stays(m: EditorState, q: Seq<char>)
    requires
        m.wf(),
        (m.find(q).cursor_row == m.cursor_row && m.find(q).cursor_col == m.cursor_col) || exists|
            p: int,
        |
            matches_at(m.find(q).line(), q, p) && m.find(q).cursor_col == starts_before_chars(
                grapheme_clusters(m.find(q).line()),
                0,
                p,
            ) && boundary(m.find(q).line(), m.find(q).cursor_col) == p,
    ensures
        m.find(q).find(q) == m.find(q),
{
    let a = m.find(q);
    law_find_lands_on_match(m, q);
    if a.cursor_row == m.cursor_row && a.cursor_col == m.cursor_col {
        lemma_forward_same(a, m, q, m.cursor_row);
        lemma_wrapped_same(a, m, q, 0);
    } else {
        let p = choose|p: int|
            matches_at(a.line(), q, p) && a.cursor_col == starts_before_chars(
                grapheme_clusters(a.line()),
                0,
                p,
            ) && boundary(a.line(), a.cursor_col) == p;
        lemma_starts_before_chars_bounded(grapheme_clusters(a.line()), 0, p);
        assert(a.search_start() == p);
        assert(first_match(a.line(), q, p) == Some(p));
        assert(a.find_forward(q, a.cursor_row) == Some((a.cursor_row, p)));
    }
}


// ---------------------------------------------------------------------------
// What single operations do
// ---------------------------------------------------------------------------

proof fn lemma_wrapped_row(m: EditorState, q: Seq<char>, r: int)
    ensures
        m.find_wrapped(q, r) matches Some((row, _)) ==> row <= m.cursor_row,
    decreases m.cursor_row + 1 - r,
{
    if 0 <= r <= m.cursor_row && r < m.buffer.len() {
        lemma_wrapped_row(m, q, r + 1);
    }
}

proof fn lemma_wrapped_first(m: EditorState, q: Seq<char>, r0: int, j: int)
    requires
        0 <= r0 <= j < m.buffer.len(),
        j <= m.cursor_row,
        m.find_wrapped(q, r0) matches Some((row, _)) ==> j < row,
    ensures
        first_match(m.buffer[j], q, 0) is None,
    decreases j - r0,
{
    if r0 < j && first_match(m.buffer[r0], q, 0) is None {
        lemma_wrapped_first(m, q, r0 + 1, j);
    }
}

proof fn lemma_forward_first(m: EditorState, q: Seq<char>, r0: int, j: int)
    requires
        0 <= m.cursor_row < r0 <= j < m.buffer.len(),
        m.find_forward(q, r0) matches Some((row, _)) ==> j < row,
    ensures
        first_match(m.buffer[j], q, 0) is None,
    decreases j - r0,
{
    if r0 < j && first_match(m.buffer[r0], q, 0) is None {
        lemma_forward_first(m, q, r0 + 1, j);
    }
}

/// Search goes on from the cursor's row downwards: every row strictly
/// between the cursor's row and the row it lands on is free of the query.
pub proof fn law_find_takes_the_next_row_down(m: EditorState, q: Seq<char>, j: int)
    requires
        m.wf(),
        m.cursor_row < j < m.find(q).cursor_row,
    ensures
        first_match(m.buffer[j], q, 0) is None,
{
    lemma_forward_sound(m, q, m.cursor_row);
    lemma_wrapped_sound(m, q, 0);
    lemma_wrapped_row(m, q, 0);
    if m.find_forward(q, m.cursor_row) is Some && first_match(
        m.buffer[m.cursor_row],
        q,
        m.search_start(),
    ) is None {
        lemma_forward_first(m, q, m.cursor_row + 1, j);
    }
}

/// Where nothing matches from the cursor to the end, search wraps to the top
/// of the buffer: every row above the row it lands on is free of the query
/// (and where it finds nothing, every row up to the cursor's is).
pub proof fn law_find_wraps_from_the_top(m: EditorState, q: Seq<char>, j: int)
    requires
        m.wf(),
        m.find_forward(q, m.cursor_row) is None,
        0 <= j < m.find(q).cursor_row || (m.find_wrapped(q, 0) is None && 0 <= j <= m.cursor_row),
    ensures
        first_match(m.buffer[j], q, 0) is None,
{
    lemma_wrapped_sound(m, q, 0);
    lemma_wrapped_row(m, q, 0);
    lemma_wrapped_first(m, q, 0, j);
}

/// With no prompt open and the cursor's line on screen, the frame puts the
/// cursor on the screen row where that line is drawn, above the bottom row.
pub proof fn law_cursor_drawn_on_its_line(s: RenderView, cols: int, rows: int)
    requires
        s.prompt_mode is Inactive,
        1 <= rows <= 65535,
        0 <= s.row_offset <= s.cursor_row < s.row_offset + rows - 1,
        s.cursor_row < s.lines.len(),
    ensures
        frame_cursor_y(s, rows) == s.cursor_row - s.row_offset,
        frame_cursor_y(s, rows) < rows - 1,
        frame_cursor_y(s, rows) < frame_lines(s, cols, rows).len(),
        frame_lines(s, cols, rows)[frame_cursor_y(s, rows)] == shown_line(
            s.lines[s.cursor_row],
            s.col_offset,
            cols,
        ),
{
}

/// After scrolling for a screen of `rows` rows (no prompt open), the frame
/// puts the cursor on the row where its line is drawn, above the bottom row.
pub proof fn law_scrolled_cursor_on_its_line(m: EditorState, cols: int, rows: int)
    requires
        m.wf(),
        m.prompt_mode is Inactive,
        0 <= m.row_offset,
        2 <= rows <= 65535,
    ensures
        ({
            let s = m.scrolled(rows - 1, cols).render_view();
            &&& frame_cursor_y(s, rows) == m.cursor_row - s.row_offset
            &&& frame_cursor_y(s, rows) < rows - 1
            &&& frame_lines(s, cols, rows)[frame_cursor_y(s, rows)] == shown_line(
                m.buffer[m.cursor_row],
                s.col_offset,
                cols,
            )
        }),
{
    law_scroll_shows_cursor(m, rows - 1, cols);
    law_cursor_drawn_on_its_line(m.scrolled(rows - 1, cols).render_view(), cols, rows);
}

/// No `'\r'` in `s`.
pub open spec fn no_cr(s: Seq<char>) -> bool {
    forall|k: int| 0 <= k < s.len() ==> s[k] != '\r'
}

proof fn lemma_join_extend_last(b: Seq<Seq<char>>, c: char)
    requires
        b.len() >= 1,
    ensures
        join_lines(b.update(b.len() - 1, b.last().push(c))) == join_lines(b).push(c),
{
    let b2 = b.update(b.len() - 1, b.last().push(c));
    if b.len() > 1 {
        assert(b2.drop_last() =~= b.drop_last());
        assert(join_lines(b2) =~= join_lines(b).push(c));
    }
}

/// Splitting at newlines and joining with newlines gives the text back; no
/// piece holds a `'\r'` that the text does not.
proof fn lemma_join_split(s: Seq<char>)
    ensures
        split_newlines(s).len() >= 1,
        join_lines(split_newlines(s)) == s,
        no_cr(s) ==> forall|i: int|
            0 <= i < split_newlines(s).len() ==> no_cr(#[trigger] split_newlines(s)[i]),
    decreases s.len(),
{
    if s.len() > 0 {
        let t = s.drop_last();
        lemma_join_split(t);
        let rest = split_newlines(t);
        assert(t.push(s.last()) =~= s);
        if no_cr(s) {
            assert(no_cr(t));
        }
        if s.last() == '\n' {
            let p = rest.push(Seq::empty());
            assert(p.drop_last() =~= rest);
            assert(join_lines(p) =~= join_lines(rest).push('\n'));
            if no_cr(s) {
                assert forall|i: int| 0 <= i < p.len() implies no_cr(#[trigger] p[i]) by {
                    if i < rest.len() {
                        assert(p[i] == rest[i]);
                    }
                }
            }
        } else {
            lemma_join_extend_last(rest, s.last());
            let p = rest.update(rest.len() - 1, rest.last().push(s.last()));
            if no_cr(s) {
                assert forall|i: int| 0 <= i < p.len() implies no_cr(#[trigger] p[i]) by {
                    if i == rest.len() - 1 {
                        assert(no_cr(rest[i]));
                        assert forall|k: int| 0 <= k < p[i].len() implies p[i][k] != '\r' by {
                            if k < rest[i].len() {
                                assert(p[i][k] == rest[i][k]);
                            }
                        }
                    }
                }
            }
        }
    }
}

/// Loading a text without `'\r'` and saving it again writes that text back,
/// with a final newline added where it had none: no line is lost, split or
/// changed.
pub proof fn law_load_then_save(m: EditorState, path: Seq<char>, content: Seq<char>)
    requires
        no_cr(content),
    ensures
        file_text(m.load_file(path, content).buffer) == if content.len() > 0 && content.last()
            == '\n' {
            content
        } else {
            content.push('\n')
        },
{
    let b = m.load_file(path, content).buffer;
    if content.len() > 0 {
        lemma_join_split(content);
        let p = split_newlines(content);
        let ended = p.take(p.len() - 1).map_values(|l: Seq<char>| strip_cr(l));
        assert(ended =~= p.take(p.len() - 1)) by {
            assert forall|i: int| 0 <= i < p.len() - 1 implies strip_cr(p[i]) == p[i] by {
                assert(no_cr(p[i]));
                if p[i].len() > 0 {
                    assert(p[i][p[i].len() - 1] != '\r');
                }
            }
        }
        if content.last() == '\n' {
            let t = content.drop_last();
            lemma_join_split(t);
            assert(p =~= split_newlines(t).push(Seq::empty()));
            assert(ended =~= split_newlines(t));
            assert(t.push('\n') =~= content);
        } else {
            assert(ended.push(p.last()) =~= p);
        }
    } else {
        assert(b =~= seq![Seq::<char>::empty()]);
        assert(file_text(b) =~= content.push('\n'));
    }
}

/// Typing `c` puts it at the cursor: the text before the cursor stays, `c`
/// follows it, then the rest of the line; the cursor moves past `c` and no
/// other line changes. Where the line's clusters make up the line, the text
/// before the cursor is exactly its first `cursor_col` clusters.
pub proof fn law_insert_char_at_cursor(m: EditorState, c: char)
    requires
        m.wf(),
        0 <= m.cursor_col <= grapheme_clusters(m.line()).len(),
    ensures
        ({
            let a = m.insert_char(c);
            let line = m.line();
            let gs = grapheme_clusters(line);
            let o = boundary(line, m.cursor_col);
            &&& a.buffer.len() == m.buffer.len()
            &&& forall|j: int| 0 <= j < m.buffer.len() && j != m.cursor_row ==> a.buffer[j] == m.buffer[j]
            &&& a.cursor_row == m.cursor_row
            &&& a.cursor_col == m.cursor_col + 1
            &&& a.dirty
            &&& 0 <= o <= line.len()
            &&& a.line().len() == line.len() + 1
            &&& a.line()[o] == c
            &&& forall|i: int| 0 <= i < o ==> a.line()[i] == line[i]
            &&& forall|i: int| o <= i < line.len() ==> a.line()[i + 1] == line[i]
            &&& gs.flatten() == line ==> a.line() == gs.take(m.cursor_col).flatten() + seq![c]
                + gs.skip(m.cursor_col).flatten()
        }),
{
    let line = m.line();
    let gs = grapheme_clusters(line);
    let k = m.cursor_col;
    if gs.flatten() == line {
        lemma_boundary_split(line, k);
        let o = boundary(line, k);
        assert(line.insert(o, c) =~= line.subrange(0, o) + seq![c] + line.subrange(o, line.len() as int));
    }
}

/// Deleting under the cursor, on a cluster of the line, removes exactly that
/// cluster: where the line's clusters make up the line (none empty), the new
/// line is the clusters before it and those after it, and it is shorter by
/// that cluster. The cursor and the other lines stay.
pub proof fn law_delete_char_removes_the_cluster(m: EditorState)
    requires
        m.wf(),
        0 <= m.cursor_col < grapheme_clusters(m.line()).len(),
    ensures
        ({
            let a = m.delete_char();
            let line = m.line();
            let gs = grapheme_clusters(line);
            let k = m.cursor_col;
            &&& a.buffer.len() == m.buffer.len()
            &&& forall|j: int| 0 <= j < m.buffer.len() && j != m.cursor_row ==> a.buffer[j] == m.buffer[j]
            &&& a.cursor_row == m.cursor_row
            &&& a.cursor_col == m.cursor_col
            &&& a.dirty
            &&& (gs.flatten() == line && forall|i: int| 0 <= i < gs.len() ==> (#[trigger] gs[i]).len() > 0)
                ==> {
                &&& a.line() == gs.take(k).flatten() + gs.skip(k + 1).flatten()
                &&& line == gs.take(k).flatten() + gs[k] + gs.skip(k + 1).flatten()
                &&& a.line().len() == line.len() - gs[k].len()
                &&& a.line().len() < line.len()
            }
        }),
{
    let line = m.line();
    let gs = grapheme_clusters(line);
    let k = m.cursor_col;
    if gs.flatten() == line && forall|i: int| 0 <= i < gs.len() ==> (#[trigger] gs[i]).len() > 0 {
        lemma_boundary_split(line, k);
        lemma_boundary_split(line, k + 1);
        lemma_flatten_extend(gs, 0, k);
        assert(gs.subrange(0, k + 1) =~= gs.take(k + 1));
        assert(gs.subrange(0, k) =~= gs.take(k));
        assert(gs[k].len() > 0);
        let a = m.delete_char();
        assert(a.line() == EditorState::without_cluster(line, k));
        assert(line =~= line.subrange(0, boundary(line, k + 1)) + line.subrange(
            boundary(line, k + 1),
            line.len() as int,
        ));
    }
}

} // verus!
