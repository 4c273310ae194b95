//! Keys of the interactive shell and what they do to the input line.

pub mod handle;
pub mod io;

use self::handle::{
    arrow_spec, backspace_spec, char_spec, enter_spec, handle_arrow, handle_backspace,
    handle_char, handle_enter, handle_tab, opt_completion, tab_spec, was_tab,
};
use crate::complete::structure::Completion;
use crate::history::Log;
use vstd::prelude::*;

verus! {

/// A key of the terminal, as far as the shell tells keys apart.
#[derive(Clone, Copy, Debug, PartialEq, Eq, Structural)]
pub enum KeyCode {
    Enter,
    Backspace,
    Tab,
    Char(char),
    Up,
    Down,
    Other,
}

/// A key press: the key, and whether Control is the only modifier held.
#[derive(Clone, Copy, Debug, PartialEq, Eq, Structural)]
pub struct KeyEvent {
    pub code: KeyCode,
    pub control: bool,
}

/// What a key asks the shell to do.
#[derive(Clone, Copy, Debug, PartialEq, Eq, Structural)]
pub enum TerminalAction {
    Command,
    Exit,
    HistoryNext,
    HistoryPrev,
    InputAdd(char),
    InputSub,
    InputComplete,
}

/// The action of a typed character: Control-C exits, Control-J runs the
/// command, anything else is input.
pub open spec fn char_action(symbol: char, is_ctrl: bool) -> TerminalAction {
    if symbol == 'c' && is_ctrl {
        TerminalAction::Exit
    } else if symbol == 'j' && is_ctrl {
        TerminalAction::Command
    } else {
        TerminalAction::InputAdd(symbol)
    }
}

/// The action of a key press, if it has one.
pub open spec fn key_action(key: KeyEvent) -> Option<TerminalAction> {
    match key.code {
        KeyCode::Enter => Some(TerminalAction::Command),
        KeyCode::Backspace => Some(TerminalAction::InputSub),
        KeyCode::Tab => Some(TerminalAction::InputComplete),
        KeyCode::Char(r) => Some(char_action(r, key.control)),
        KeyCode::Up => Some(TerminalAction::HistoryNext),
        KeyCode::Down => Some(TerminalAction::HistoryPrev),
        KeyCode::Other => None,
    }
}

/// The action of a key press: Enter runs the command, Backspace deletes,
/// Tab completes, the arrows walk the history, characters are typed.
pub fn to_action(key: &KeyEvent) -> (res: Option<TerminalAction>)
    ensures
        res == key_action(*key),
{
    let action = match key.code {
        KeyCode::Enter => TerminalAction::Command,
        KeyCode::Backspace => TerminalAction::InputSub,
        KeyCode::Tab => TerminalAction::InputComplete,
        KeyCode::Char(r) => from_char(r, key.control),
        KeyCode::Up => TerminalAction::HistoryNext,
        KeyCode::Down => TerminalAction::HistoryPrev,
        KeyCode::Other => {
            return None;
        },
    };
    Some(action)
}

/// The action of a typed character.
pub fn from_char(symbol: char, is_ctrl: bool) -> (res: TerminalAction)
    ensures
        res == char_action(symbol, is_ctrl),
{
    if symbol == 'c' && is_ctrl {
        TerminalAction::Exit
    } else if symbol == 'j' && is_ctrl {
        TerminalAction::Command
    } else {
        TerminalAction::InputAdd(symbol)
    }
}

/// The input line after a key, and what the terminal has to show for it.
pub struct HandledKey {
    pub(crate) input: String,
    pub(crate) to_print: Option<String>,
    pub(crate) hint: Option<String>,
    pub(crate) backspace_len: Option<usize>,
    pub(crate) is_enter: bool,
    pub(crate) is_exit: bool,
    pub(crate) has_user_typing: bool,
}

/// The view of a handled key: the input, the text to print, the hint to
/// show, how much to erase, and the flags for Enter, exit and user typing.
pub type HandledKeyView = (
    Seq<char>,
    Option<Seq<char>>,
    Option<Seq<char>>,
    Option<usize>,
    bool,
    bool,
    bool,
);

/// The view of an optional string.
pub open spec fn opt_text(s: Option<String>) -> Option<Seq<char>> {
    match s {
        Some(s) => Some(s@),
        None => None,
    }
}

impl View for HandledKey {
    type V = HandledKeyView;

    closed spec fn view(&self) -> HandledKeyView {
        (
            self.input@,
            opt_text(self.to_print),
            opt_text(self.hint),
            self.backspace_len,
            self.is_enter,
            self.is_exit,
            self.has_user_typing,
        )
    }
}

impl HandledKey {
    /// The state before a key is handled: the input as it is, nothing to
    /// print, no flag set but whether the user has typed.
    pub fn new(input: String, has_user_typing: bool) -> (res: HandledKey)
        ensures
            res@ == (input@, None::<Seq<char>>, None::<Seq<char>>, None::<usize>, false, false, has_user_typing),
    {
        HandledKey {
            input,
            to_print: None,
            hint: None,
            backspace_len: None,
            is_enter: false,
            is_exit: false,
            has_user_typing,
        }
    }

    /// The input line.
    pub fn get_input(&self) -> (res: &str)
        ensures
            res@ == self@.0,
    {
        self.input.as_str()
    }

    /// The text to print, if any.
    pub fn get_to_print(&self) -> (res: Option<&str>)
        ensures
            match res {
                Some(s) => self@.1 == Some(s@),
                None => self@.1 is None,
            },
    {
        match &self.to_print {
            Some(s) => Some(s.as_str()),
            None => None,
        }
    }

    /// The hint to show below the prompt, if any.
    pub fn get_hint(&self) -> (res: Option<&str>)
        ensures
            match res {
                Some(s) => self@.2 == Some(s@),
                None => self@.2 is None,
            },
    {
        match &self.hint {
            Some(s) => Some(s.as_str()),
            None => None,
        }
    }

    /// How many bytes of the shown input to erase, if any.
    pub fn get_backspace_len(&self) -> (res: Option<usize>)
        ensures
            res == self@.3,
    {
        self.backspace_len
    }

    /// Whether the key runs the command.
    pub fn is_enter(&self) -> (res: bool)
        ensures
            res == self@.4,
    {
        self.is_enter
    }

    /// Whether the key ends the shell.
    pub fn is_exit(&self) -> (res: bool)
        ensures
            res == self@.5,
    {
        self.is_exit
    }

    /// Whether the input was typed by the user (and not taken from the history).
    pub fn has_user_typing(&self) -> (res: bool)
        ensures
            res == self@.6,
    {
        self.has_user_typing
    }
}


/// The state of a key before it is handled.
pub open spec fn unhandled(input: Seq<char>, has_user_typing: bool) -> HandledKeyView {
    (input, None, None, None, false, false, has_user_typing)
}

/// Handles a key pressed at the prompt with `input` typed so far: Enter
/// runs it, Backspace deletes, Tab completes with `completion` (what
/// completing the input gave), characters are typed, and the arrows walk
/// the history `log`.
pub fn handle_key(
    input: &str,
    key: &KeyEvent,
    previous_key: Option<&KeyEvent>,
    completion: Option<&Completion>,
    log: &mut Log,
    has_user_typing: bool,
) -> (res: HandledKey)
    requires
        old(log).wf(),
    ensures
        final(log).wf(),
        final(log).records() == old(log).records(),
        final(log).uploads() == old(log).uploads(),
        match key.code {
            KeyCode::Enter => res@ == enter_spec(unhandled(input@, has_user_typing)) && final(log).cursor() == old(log).cursor(),
            KeyCode::Backspace => res@ == backspace_spec(unhandled(input@, has_user_typing)) && final(log).cursor() == old(log).cursor(),
            KeyCode::Tab => res@ == tab_spec(unhandled(input@, has_user_typing), opt_completion(completion), was_tab(previous_key)) && final(log).cursor() == old(log).cursor(),
            KeyCode::Char(r) => res@ == char_spec(unhandled(input@, has_user_typing), r, key.control) && final(log).cursor() == old(log).cursor(),
            KeyCode::Up => (res@, final(log).cursor()) == arrow_spec(unhandled(input@, has_user_typing), true, old(log).records(), old(log).cursor()),
            KeyCode::Down => (res@, final(log).cursor()) == arrow_spec(unhandled(input@, has_user_typing), false, old(log).records(), old(log).cursor()),
            KeyCode::Other => res@ == unhandled(input@, has_user_typing) && final(log).cursor() == old(log).cursor(),
        },
{
    let mut handled_key = HandledKey::new(input.to_owned(), has_user_typing);
    match key.code {
        KeyCode::Enter => handle_enter(&mut handled_key),
        KeyCode::Backspace => handle_backspace(&mut handled_key),
        KeyCode::Tab => handle_tab(&mut handled_key, completion, previous_key),
        KeyCode::Char(r) => handle_char(&mut handled_key, key, r),
        KeyCode::Up | KeyCode::Down => handle_arrow(&mut handled_key, log, key),
        KeyCode::Other => {},
    }
    handled_key
}

} // verus!
