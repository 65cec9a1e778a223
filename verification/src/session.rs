//! One turn of the editing session: carrying out an action, and deciding
//! whether the session ends. Writing a file is not done here: a turn that
//! needs one hands back a `WriteRequest`, and `finish_write` takes what the
//! write returned.

use vstd::prelude::*;
use vstd::string::*;

use crate::editor::Editor;
use crate::input::Action;
use crate::model::{
    after_prompt_save, after_reported_save, file_text, no_filename_message, prompt_submit_result,
    EditorState,
};

verus! {

/// What to do once a requested write has returned.
#[derive(Clone, Copy, PartialEq, Eq, Structural, Debug)]
pub enum AfterWrite {
    /// Report the outcome; the session goes on.
    Report,
    /// Report the outcome; the session ends if the write succeeded.
    ReportThenExit,
    /// Complete the save-as prompt: on success the path becomes the file
    /// name; a failure cancels a pending exit. The session ends if an exit
    /// is still pending.
    PromptSave,
}

/// A file to write: the buffer's text under `path`.
#[derive(Debug)]
pub struct WriteRequest {
    pub path: String,
    pub text: String,
    pub after: AfterWrite,
}

/// What a turn leads to.
#[derive(Debug)]
pub enum StepOutcome {
    /// The session goes on.
    Continue,
    /// The session ends.
    Exit,
    /// The session writes a file and then hands the outcome to
    /// `finish_write`, which decides whether it ends.
    Write(WriteRequest),
}

/// A turn's outcome as plain values.
pub enum StepView {
    Continue,
    Exit,
    Write(Seq<char>, Seq<char>, AfterWrite),
}

impl View for StepOutcome {
    type V = StepView;

    open spec fn view(&self) -> StepView {
        match self {
            StepOutcome::Continue => StepView::Continue,
            StepOutcome::Exit => StepView::Exit,
            StepOutcome::Write(r) => StepView::Write(r.path@, r.text@, r.after),
        }
    }
}

/// Asking to save `m` under its file name, and then doing `after`; without a
/// file name the message says so and nothing is written.
pub open spec fn save_step(m: EditorState, after: AfterWrite) -> (EditorState, StepView) {
    match m.filename {
        None => (m.with_message(no_filename_message()), StepView::Continue),
        Some(path) => (m, StepView::Write(path, file_text(m.buffer), after)),
    }
}

/// What carrying out `action` on `m` does: the new state and the outcome.
/// `rows` is the terminal's height.
pub open spec fn stepped(m: EditorState, action: Action, rows: int) -> (EditorState, StepView) {
    let page = if rows >= 1 {
        rows - 1
    } else {
        0
    };
    match action {
        Action::Ignore => (m, StepView::Continue),
        Action::Insert(c) => (m.clear_message().insert_char(c), StepView::Continue),
        Action::Delete => (m.clear_message().delete_char(), StepView::Continue),
        Action::Backspace => (m.clear_message().backspace(), StepView::Continue),
        Action::Newline => (m.clear_message().insert_newline(), StepView::Continue),
        Action::CursorUp => (m.cursor_up(), StepView::Continue),
        Action::CursorDown => (m.cursor_down(), StepView::Continue),
        Action::CursorLeft => (m.cursor_left(), StepView::Continue),
        Action::CursorRight => (m.cursor_right(), StepView::Continue),
        Action::PageUp => (m.page_up(page), StepView::Continue),
        Action::PageDown => (m.page_down(page), StepView::Continue),
        Action::Home => (m.cursor_home(), StepView::Continue),
        Action::End => (m.cursor_end(), StepView::Continue),
        Action::SaveAs => if m.custom_filename {
            save_step(m, AfterWrite::Report)
        } else {
            (m.start_save_as_prompt(), StepView::Continue)
        },
        Action::Find => (m.start_find_prompt(), StepView::Continue),
        Action::Cut => (m.cut_line(), StepView::Continue),
        Action::Paste => (m.paste(), StepView::Continue),
        Action::Exit => if m.dirty {
            (m.start_confirm_exit_prompt(), StepView::Continue)
        } else {
            (m, StepView::Exit)
        },
        Action::PromptInsert(c) => (m.prompt_insert_char(c), StepView::Continue),
        Action::PromptBackspace => (m.prompt_backspace(), StepView::Continue),
        Action::PromptSubmit => {
            let (a, _, req) = prompt_submit_result(m);
            match req {
                Some((path, text)) => (a, StepView::Write(path, text, AfterWrite::PromptSave)),
                None => (a, if a.pending_exit {
                    StepView::Exit
                } else {
                    StepView::Continue
                }),
            }
        },
        Action::PromptCancel => (m.prompt_cancel(), StepView::Continue),
        Action::ExitConfirmed => (m, StepView::Exit),
        Action::Help => (m.toggle_help(), StepView::Continue),
        Action::DismissHelp => (m.dismiss_help(), StepView::Continue),
        Action::SaveAndExit => if m.filename is Some {
            save_step(m, AfterWrite::ReportThenExit)
        } else {
            (m.start_save_as_and_exit_prompt(), StepView::Continue)
        },
    }
}

/// What taking the outcome `res` of writing under `path` does to `m`, when
/// the turn asked to do `after` next: the new state and whether the session
/// ends.
pub open spec fn write_finished(
    m: EditorState,
    path: Seq<char>,
    after: AfterWrite,
    res: Result<(), String>,
) -> (EditorState, bool) {
    match after {
        AfterWrite::Report => (after_reported_save(m, path, res), false),
        AfterWrite::ReportThenExit => (after_reported_save(m, path, res), res is Ok),
        AfterWrite::PromptSave => {
            let a = after_prompt_save(m, path, res);
            (a, a.pending_exit)
        },
    }
}

/// Takes the outcome `res` of saving under the file name `path`: on success
/// the buffer is clean and the message says so; a failure is reported in
/// the message. Returns whether the save succeeded.
pub fn save_with_message(editor: &mut Editor, path: &str, res: Result<(), String>) -> (ok: bool)
    ensures
        ok == res is Ok,
        final(editor)@ == after_reported_save(old(editor)@, path@, res),
{
    match res {
        Ok(()) => {
            editor.finish_save(path, Ok(()));
            true
        },
        Err(e) => {
            let mut msg = String::from_str("Error saving: ");
            msg.append(e.as_str());
            editor.message = Some(msg);
            false
        },
    }
}

/// Asks to save under the file name and to do `after` once written; without
/// a file name the message says so and the session goes on.
fn save_request(editor: &mut Editor, after: AfterWrite) -> (out: StepOutcome)
    ensures
        (final(editor)@, out@) == save_step(old(editor)@, after),
{
    match editor.save() {
        Some((path, text)) => StepOutcome::Write(WriteRequest { path, text, after }),
        None => StepOutcome::Continue,
    }
}

/// Carries out `action`: returns whether the session goes on, ends, or
/// first writes a file. `rows` is the terminal's height, of which all but
/// the bottom row show the buffer.
pub fn step(editor: &mut Editor, action: Action, rows: u16) -> (out: StepOutcome)
    requires
        old(editor)@.wf(),
        action is PageDown ==> old(editor).cursor_row + rows <= usize::MAX,
    ensures
        final(editor)@.wf(),
        (final(editor)@, out@) == stepped(old(editor)@, action, rows as int),
{
    let page = rows.saturating_sub(1) as usize;
    match action {
        Action::Ignore => StepOutcome::Continue,
        Action::Insert(c) => {
            editor.clear_message();
            editor.insert_char(c);
            StepOutcome::Continue
        },
        Action::Delete => {
            editor.clear_message();
            editor.delete_char();
            StepOutcome::Continue
        },
        Action::Backspace => {
            editor.clear_message();
            editor.backspace();
            StepOutcome::Continue
        },
        Action::Newline => {
            editor.clear_message();
            editor.insert_newline();
            StepOutcome::Continue
        },
        Action::CursorUp => {
            editor.cursor_up();
            StepOutcome::Continue
        },
        Action::CursorDown => {
            editor.cursor_down();
            StepOutcome::Continue
        },
        Action::CursorLeft => {
            editor.cursor_left();
            StepOutcome::Continue
        },
        Action::CursorRight => {
            editor.cursor_right();
            StepOutcome::Continue
        },
        Action::PageUp => {
            editor.page_up(page);
            StepOutcome::Continue
        },
        Action::PageDown => {
            editor.page_down(page);
            StepOutcome::Continue
        },
        Action::Home => {
            editor.cursor_home();
            StepOutcome::Continue
        },
        Action::End => {
            editor.cursor_end();
            StepOutcome::Continue
        },
        Action::SaveAs => {
            if editor.has_custom_filename() {
                save_request(editor, AfterWrite::Report)
            } else {
                editor.start_save_as_prompt();
                StepOutcome::Continue
            }
        },
        Action::Find => {
            editor.start_find_prompt();
            StepOutcome::Continue
        },
        Action::Cut => {
            editor.cut_line();
            StepOutcome::Continue
        },
        Action::Paste => {
            editor.paste();
            StepOutcome::Continue
        },
        Action::Exit => {
            if editor.is_dirty() {
                editor.start_confirm_exit_prompt();
                StepOutcome::Continue
            } else {
                StepOutcome::Exit
            }
        },
        Action::ExitConfirmed => StepOutcome::Exit,
        Action::SaveAndExit => {
            if editor.get_filename().is_some() {
                save_request(editor, AfterWrite::ReportThenExit)
            } else {
                editor.start_save_as_and_exit_prompt();
                StepOutcome::Continue
            }
        },
        Action::PromptInsert(c) => {
            editor.prompt_insert_char(c);
            StepOutcome::Continue
        },
        Action::PromptBackspace => {
            editor.prompt_backspace();
            StepOutcome::Continue
        },
        Action::PromptSubmit => {
            let (_, req) = editor.prompt_submit();
            match req {
                Some((path, text)) => StepOutcome::Write(
                    WriteRequest { path, text, after: AfterWrite::PromptSave },
                ),
                None => if editor.pending_exit {
                    StepOutcome::Exit
                } else {
                    StepOutcome::Continue
                },
            }
        },
        Action::PromptCancel => {
            editor.prompt_cancel();
            StepOutcome::Continue
        },
        Action::Help => {
            editor.toggle_help();
            StepOutcome::Continue
        },
        Action::DismissHelp => {
            editor.dismiss_help();
            StepOutcome::Continue
        },
    }
}

/// Takes the outcome `res` of the write that `request` asked for, and
/// returns whether the session ends.
pub fn finish_write(editor: &mut Editor, request: &WriteRequest, res: Result<(), String>) -> (exit:
    bool)
    requires
        old(editor)@.wf(),
    ensures
        final(editor)@.wf(),
        (final(editor)@, exit) == write_finished(
            old(editor)@,
            request.path@,
            request.after,
            res,
        ),
{
    let path = request.path.as_str();
    match request.after {
        AfterWrite::Report => {
            save_with_message(editor, path, res);
            false
        },
        AfterWrite::ReportThenExit => save_with_message(editor, path, res),
        AfterWrite::PromptSave => {
            editor.finish_prompt_save(path, res);
            editor.pending_exit
        },
    }
}

} // verus!
