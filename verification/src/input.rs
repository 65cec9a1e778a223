//! Key bindings: which action a key press stands for, in each prompt mode.

use vstd::prelude::*;

use crate::editor::PromptMode;
use crate::model::PromptView;

verus! {

/// A key, as the terminal reports it.
#[derive(Clone, Copy, PartialEq, Eq, Structural, Debug)]
pub enum Key {
    Char(char),
    Enter,
    Backspace,
    Delete,
    Up,
    Down,
    Left,
    Right,
    PageUp,
    PageDown,
    Home,
    End,
    Esc,
    Tab,
    /// Any other key.
    Other,
}

/// A key press: the key, and whether Control was held.
#[derive(Clone, Copy, PartialEq, Eq, Structural, Debug)]
pub struct KeyInput {
    pub code: Key,
    pub control: bool,
}

/// A terminal event: a key press or anything else.
#[derive(Clone, Copy, PartialEq, Eq, Structural, Debug)]
pub enum InputEvent {
    Key(KeyInput),
    Other,
}

/// What the editor is asked to do.
#[derive(Clone, Copy, PartialEq, Eq, Structural, Debug)]
pub enum Action {
    /// Nothing to do.
    Ignore,
    Insert(char),
    Delete,
    Backspace,
    Newline,
    CursorUp,
    CursorDown,
    CursorLeft,
    CursorRight,
    PageUp,
    PageDown,
    Home,
    End,
    SaveAs,
    Find,
    Cut,
    Paste,
    Exit,
    PromptInsert(char),
    PromptBackspace,
    PromptSubmit,
    PromptCancel,
    ExitConfirmed,
    SaveAndExit,
    /// Open the inline help, or turn to its next page.
    Help,
    /// Close the inline help.
    DismissHelp,
}

/// The binding of a key press while no prompt is open (nano-style Control
/// combinations first).
pub open spec fn normal_action(key: KeyInput) -> Action {
    if key.control {
        match key.code {
            Key::Char(c) => if c == 'x' || c == 'X' {
                Action::Exit
            } else if c == 's' || c == 'S' {
                Action::SaveAs
            } else if c == 'w' || c == 'W' {
                Action::Find
            } else if c == 'k' || c == 'K' {
                Action::Cut
            } else if c == 'u' || c == 'U' {
                Action::Paste
            } else if c == 'h' || c == 'H' {
                Action::Help
            } else {
                Action::Ignore
            },
            _ => Action::Ignore,
        }
    } else {
        match key.code {
            Key::Char(c) => Action::Insert(c),
            Key::Enter => Action::Newline,
            Key::Backspace => Action::Backspace,
            Key::Delete => Action::Delete,
            Key::Up => Action::CursorUp,
            Key::Down => Action::CursorDown,
            Key::Left => Action::CursorLeft,
            Key::Right => Action::CursorRight,
            Key::PageUp => Action::PageUp,
            Key::PageDown => Action::PageDown,
            Key::Home => Action::Home,
            Key::End => Action::End,
            Key::Esc => Action::DismissHelp,
            Key::Tab => Action::Insert('\t'),
            Key::Other => Action::Ignore,
        }
    }
}

/// The binding of a key press in the save-as or find prompt.
pub open spec fn prompt_action(key: KeyInput) -> Action {
    match key.code {
        Key::Char(c) => Action::PromptInsert(c),
        Key::Enter => Action::PromptSubmit,
        Key::Backspace => Action::PromptBackspace,
        Key::Esc => Action::PromptCancel,
        _ => Action::Ignore,
    }
}

/// The binding of a key press while the editor asks whether to save.
pub open spec fn confirm_exit_action(key: KeyInput) -> Action {
    match key.code {
        Key::Char(c) => if c == 'y' || c == 'Y' {
            Action::SaveAndExit
        } else if c == 'n' || c == 'N' {
            Action::ExitConfirmed
        } else {
            Action::Ignore
        },
        Key::Enter => Action::SaveAndExit,
        Key::Esc => Action::PromptCancel,
        _ => Action::Ignore,
    }
}

/// The action an event stands for in the given prompt mode.
pub open spec fn input_action(event: InputEvent, mode: PromptView) -> Action {
    match event {
        InputEvent::Key(key) => match mode {
            PromptView::Inactive => normal_action(key),
            PromptView::ConfirmExit => confirm_exit_action(key),
            _ => prompt_action(key),
        },
        InputEvent::Other => Action::Ignore,
    }
}

pub fn handle_input(event: InputEvent, prompt_mode: &PromptMode) -> (a: Action)
    ensures
        a == input_action(event, prompt_mode@),
{
    match event {
        InputEvent::Key(key) => match prompt_mode {
            PromptMode::Inactive => handle_key_normal(key),
            PromptMode::ConfirmExit => handle_key_confirm_exit(key),
            _ => handle_key_prompt(key),
        },
        InputEvent::Other => Action::Ignore,
    }
}

fn handle_key_normal(key: KeyInput) -> (a: Action)
    ensures
        a == normal_action(key),
{
    if key.control {
        return match key.code {
            Key::Char('x') | Key::Char('X') => Action::Exit,
            Key::Char('s') | Key::Char('S') => Action::SaveAs,
            Key::Char('w') | Key::Char('W') => Action::Find,
            Key::Char('k') | Key::Char('K') => Action::Cut,
            Key::Char('u') | Key::Char('U') => Action::Paste,
            Key::Char('h') | Key::Char('H') => Action::Help,
            _ => Action::Ignore,
        };
    }
    match key.code {
        Key::Char(c) => Action::Insert(c),
        Key::Enter => Action::Newline,
        Key::Backspace => Action::Backspace,
        Key::Delete => Action::Delete,
        Key::Up => Action::CursorUp,
        Key::Down => Action::CursorDown,
        Key::Left => Action::CursorLeft,
        Key::Right => Action::CursorRight,
        Key::PageUp => Action::PageUp,
        Key::PageDown => Action::PageDown,
        Key::Home => Action::Home,
        Key::End => Action::End,
        Key::Esc => Action::DismissHelp,
        Key::Tab => Action::Insert('\t'),
        Key::Other => Action::Ignore,
    }
}

fn handle_key_prompt(key: KeyInput) -> (a: Action)
    ensures
        a == prompt_action(key),
{
    match key.code {
        Key::Char(c) => Action::PromptInsert(c),
        Key::Enter => Action::PromptSubmit,
        Key::Backspace => Action::PromptBackspace,
        Key::Esc => Action::PromptCancel,
        _ => Action::Ignore,
    }
}

fn handle_key_confirm_exit(key: KeyInput) -> (a: Action)
    ensures
        a == confirm_exit_action(key),
{
    match key.code {
        Key::Char('y') | Key::Char('Y') | Key::Enter => Action::SaveAndExit,
        Key::Char('n') | Key::Char('N') => Action::ExitConfirmed,
        Key::Esc => Action::PromptCancel,
        _ => Action::Ignore,
    }
}

} // verus!
