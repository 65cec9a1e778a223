//! The layout of a frame: what is drawn on each screen row and where the
//! cursor goes. Drawing it is left to the caller.

use vstd::prelude::*;
use vstd::string::*;

use crate::editor::{PromptMode, RenderState};
use crate::model::{min, opt_view, PromptView, RenderView};
use crate::text::{
    display_width, grapheme_clusters, graphemes, left_marker, shown_line, span_width_u16,
    str_width, truncate_to_width, truncated, views, visible_part, width_sum,
};
use vstd::arithmetic::div_mod::lemma_add_mod_noop;

verus! {

/// What to draw: `lines[i]` on screen row `i`, `status` (if any) on the
/// bottom row, and the cursor at column `cursor_x` of row `cursor_y`.
pub struct Frame {
    pub lines: Vec<String>,
    pub status: Option<String>,
    pub cursor_x: u16,
    pub cursor_y: u16,
}

/// The text of a prompt that takes input.
pub open spec fn prompt_text_of(mode: PromptView) -> Option<Seq<char>> {
    match mode {
        PromptView::SaveAs(input) => Some("Save as: "@ + input),
        PromptView::Find(input) => Some("Find: "@ + input),
        _ => None,
    }
}

/// The text on the bottom row that a prompt puts there.
pub open spec fn status_text_of(mode: PromptView) -> Option<Seq<char>> {
    match mode {
        PromptView::ConfirmExit => Some("Save changes? (Y/n): "@),
        _ => prompt_text_of(mode),
    }
}

/// Number of buffer lines drawn: those from the scroll offset on, at most
/// `visible` of them.
pub open spec fn drawn_count(s: RenderView, visible: int) -> int {
    if s.row_offset >= s.lines.len() {
        0
    } else {
        min(s.lines.len() - s.row_offset, visible)
    }
}

/// The text drawn on each screen row above the bottom one.
pub open spec fn frame_lines(s: RenderView, cols: int, rows: int) -> Seq<Seq<char>> {
    Seq::new(
        drawn_count(s, rows - 1) as nat,
        |i: int| shown_line(s.lines[s.row_offset + i], s.col_offset, cols),
    )
}

/// The text of help page `page`.
pub open spec fn help_text_of(page: usize) -> Seq<char> {
    if page == 0 {
        "^X Exit  ^S Save  ^W Find  ^K Cut  ^U Paste  ^H More"@
    } else {
        "Arrows Move  PgUp/PgDn Page  Home/End Line  Esc Close"@
    }
}

/// The text drawn on the bottom row: the prompt, or else the help page, or
/// else the message.
pub open spec fn frame_status(s: RenderView, cols: int) -> Option<Seq<char>> {
    match status_text_of(s.prompt_mode) {
        Some(p) => Some(truncated(p, cols)),
        None => match s.help_page {
            Some(page) => Some(truncated(help_text_of(page), cols)),
            None => match s.message {
                Some(m) => Some(truncated(m, cols)),
                None => None,
            },
        },
    }
}

/// The line under the cursor (empty where the cursor is past the buffer).
pub open spec fn cursor_line(s: RenderView) -> Seq<char> {
    if 0 <= s.cursor_row < s.lines.len() {
        s.lines[s.cursor_row]
    } else {
        Seq::empty()
    }
}

/// The cursor's screen column: after the prompt text, or after the left
/// marker and the clusters drawn left of the cursor (truncated to 16 bits,
/// as the terminal takes it).
pub open spec fn frame_cursor_x(s: RenderView, cols: int) -> int {
    match s.prompt_mode {
        PromptView::SaveAs(_) | PromptView::Find(_) => min(
            display_width(prompt_text_of(s.prompt_mode)->0) as int % 65536,
            if cols >= 1 {
                cols - 1
            } else {
                0
            },
        ),
        PromptView::ConfirmExit => 20,
        PromptView::Inactive => {
            let gs = grapheme_clusters(cursor_line(s));
            let n = gs.len() as int;
            let c = min(s.cursor_col, n);
            let s1 = min(s.col_offset, n);
            (left_marker(n, s.col_offset) + if c >= s1 {
                width_sum(gs.subrange(s1, c)) as int
            } else {
                0
            }) % 65536
        },
    }
}

/// The cursor's screen row: the bottom row in a prompt, else the cursor's
/// row relative to the scroll offset.
pub open spec fn frame_cursor_y(s: RenderView, rows: int) -> int {
    match s.prompt_mode {
        PromptView::Inactive => (s.cursor_row - s.row_offset) % 65536,
        _ => rows - 1,
    }
}

/// The text of a prompt that takes input: `"Save as: "` or `"Find: "` and
/// what has been typed.
pub fn prompt_text(prompt_mode: &PromptMode) -> (r: Option<String>)
    ensures
        opt_view(r) == prompt_text_of(prompt_mode@),
{
    match prompt_mode {
        PromptMode::SaveAs(input) => {
            let mut t = String::from_str("Save as: ");
            t.append(input.as_str());
            Some(t)
        },
        PromptMode::Find(input) => {
            let mut t = String::from_str("Find: ");
            t.append(input.as_str());
            Some(t)
        },
        PromptMode::ConfirmExit | PromptMode::Inactive => None,
    }
}

/// The text of help page `page`.
pub fn help_text(page: usize) -> (r: String)
    ensures
        r@ == help_text_of(page),
{
    if page == 0 {
        String::from_str("^X Exit  ^S Save  ^W Find  ^K Cut  ^U Paste  ^H More")
    } else {
        String::from_str("Arrows Move  PgUp/PgDn Page  Home/End Line  Esc Close")
    }
}

/// The text a prompt puts on the bottom row.
pub fn status_text(prompt_mode: &PromptMode) -> (r: Option<String>)
    ensures
        opt_view(r) == status_text_of(prompt_mode@),
{
    match prompt_mode {
        PromptMode::ConfirmExit => Some(String::from_str("Save changes? (Y/n): ")),
        _ => prompt_text(prompt_mode),
    }
}

/// Lays out a frame of `cols` columns and `rows` rows.
pub fn layout(state: &RenderState, cols: u16, rows: u16) -> (f: Frame)
    requires
        rows >= 1,
        state.prompt_mode@ is Inactive ==> state.row_offset <= state.cursor_row,
    ensures
        views(f.lines@) == frame_lines(state@, cols as int, rows as int),
        opt_view(f.status) == frame_status(state@, cols as int),
        f.cursor_x as int == frame_cursor_x(state@, cols as int),
        f.cursor_y as int == frame_cursor_y(state@, rows as int),
{
    let ghost s = state@;
    let visible = (rows - 1) as usize;
    let max_cols = cols as usize;
    let count = if state.row_offset >= state.lines.len() {
        0
    } else if state.lines.len() - state.row_offset <= visible {
        state.lines.len() - state.row_offset
    } else {
        visible
    };
    let mut lines: Vec<String> = Vec::new();
    let mut i: usize = 0;
    while i < count
        invariant
            s == state@,
            count == drawn_count(s, rows - 1),
            count == 0 || state.row_offset + count <= state.lines.len(),
            max_cols == cols,
            i <= count,
            views(lines@) == frame_lines(s, cols as int, rows as int).take(i as int),
        decreases count - i,
    {
        let t = visible_part(state.lines[state.row_offset + i].as_str(), state.col_offset, cols);
        let ghost l0 = views(lines@);
        lines.push(t);
        assert(views(lines@) =~= l0.push(t@));
        assert(frame_lines(s, cols as int, rows as int).take(i + 1) =~= frame_lines(
            s,
            cols as int,
            rows as int,
        ).take(i as int).push(t@));
        i = i + 1;
    }
    assert(frame_lines(s, cols as int, rows as int).take(count as int) =~= frame_lines(
        s,
        cols as int,
        rows as int,
    ));
    let status = match status_text(&state.prompt_mode) {
        Some(p) => Some(truncate_to_width(p.as_str(), max_cols)),
        None => match state.help_page {
            Some(page) => Some(truncate_to_width(help_text(page).as_str(), max_cols)),
            None => match &state.message {
                Some(m) => Some(truncate_to_width(m.as_str(), max_cols)),
                None => None,
            },
        },
    };
    let status_row = rows - 1;
    let (x, y) = match &state.prompt_mode {
        PromptMode::SaveAs(_) | PromptMode::Find(_) => {
            let p = prompt_text(&state.prompt_mode);
            let w = match p {
                Some(t) => (str_width(t.as_str()) % 65536) as u16,
                None => 0,
            };
            let last_col = cols.saturating_sub(1);
            (
                if w <= last_col {
                    w
                } else {
                    last_col
                },
                status_row,
            )
        },
        PromptMode::ConfirmExit => (20, status_row),
        PromptMode::Inactive => {
            proof {
                reveal_strlit("");
            }
            let gs = if state.cursor_row < state.lines.len() {
                graphemes(state.lines[state.cursor_row].as_str())
            } else {
                assert(""@ =~= Seq::<char>::empty());
                graphemes("")
            };
            let ghost g = views(gs@);
            assert(g == grapheme_clusters(cursor_line(s)));
            let n = gs.len();
            let c = if state.cursor_col <= n {
                state.cursor_col
            } else {
                n
            };
            let s1 = if state.col_offset <= n {
                state.col_offset
            } else {
                n
            };
            let left: usize = if state.col_offset > 0 && n > 0 {
                1
            } else {
                0
            };
            let w: usize = if c >= s1 {
                span_width_u16(&gs, s1, c) as usize
            } else {
                0
            };
            proof {
                if c >= s1 {
                    lemma_add_mod_noop(left as int, width_sum(g.subrange(s1 as int, c as int)) as int, 65536);
                    assert(left as int % 65536 == left as int);
                }
            }
            let x = ((left + w) % 65536) as u16;
            (x, ((state.cursor_row - state.row_offset) % 65536) as u16)
        },
    };
    Frame { lines, status, cursor_x: x, cursor_y: y }
}

} // verus!
