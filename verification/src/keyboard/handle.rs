//! What each key does to the input line.

use crate::complete::byte_len;
use crate::complete::structure::{Completion, CompletionView};
use crate::history::Log;
use crate::keyboard::{HandledKey, HandledKeyView, KeyCode, KeyEvent};
use crate::structure::{rev_next, rev_prev, RevIterView};
use crate::text::{join, join_seq};
use vstd::prelude::*;

verus! {

/// After Enter: the command is to run and the input no longer counts as typed.
pub open spec fn enter_spec(v: HandledKeyView) -> HandledKeyView {
    (v.0, v.1, v.2, v.3, true, v.5, false)
}

/// Enter runs the command typed so far.
pub fn handle_enter(handled_key: &mut HandledKey)
    ensures
        final(handled_key)@ == enter_spec(old(handled_key)@),
{
    handled_key.is_enter = true;
    handled_key.has_user_typing = false;
}

/// Enter runs the line typed so far: the input stays as it is, nothing
/// else changes but that the command is to run and the input no longer
/// counts as typed.
pub proof fn lemma_enter_runs_the_typed_line(v: HandledKeyView)
    ensures
        enter_spec(v).0 == v.0,
        enter_spec(v).1 == v.1 && enter_spec(v).2 == v.2 && enter_spec(v).3 == v.3,
        enter_spec(v).4,
        enter_spec(v).5 == v.5,
        !enter_spec(v).6,
{
}

/// After Backspace: the last character is gone and one place is erased;
/// an input left empty no longer counts as typed.
pub open spec fn backspace_spec(v: HandledKeyView) -> HandledKeyView {
    let input = if v.0.len() > 0 {
        v.0.drop_last()
    } else {
        v.0
    };
    (
        input,
        v.1,
        v.2,
        if v.0.len() > 0 {
            Some(1usize)
        } else {
            v.3
        },
        v.4,
        v.5,
        v.6 && input.len() > 0,
    )
}

/// Backspace deletes the last character, if any.
pub fn handle_backspace(handled_key: &mut HandledKey)
    ensures
        final(handled_key)@ == backspace_spec(old(handled_key)@),
{
    let n = handled_key.input.as_str().unicode_len();
    if n > 0 {
        let shorter = handled_key.input.as_str().substring_char(0, n - 1).to_owned();
        handled_key.input = shorter;
        handled_key.backspace_len = Some(1);
    }
    if handled_key.input.as_str().unicode_len() == 0 {
        handled_key.has_user_typing = false;
    }
}

/// After Tab with completion `c`: a selection is added to the input and
/// printed; variants become a hint when Tab was also the key before;
/// otherwise the bell is printed.
pub open spec fn tab_spec(v: HandledKeyView, c: Option<CompletionView>, previous_tab: bool) -> HandledKeyView {
    let bell = (v.0, Some(seq!['\x07']), v.2, v.3, v.4, v.5, v.6);
    match c {
        None => bell,
        Some(cv) => match cv.1 {
            Some(vs) => if previous_tab {
                (v.0, None, Some(join_seq(vs, "  "@)), v.3, v.4, v.5, v.6)
            } else {
                bell
            },
            None => match cv.0 {
                Some(sel) => (v.0 + sel, Some(sel), v.2, v.3, v.4, v.5, v.6),
                None => bell,
            },
        },
    }
}

/// The view of an optional completion.
pub open spec fn opt_completion(c: Option<&Completion>) -> Option<CompletionView> {
    match c {
        Some(c) => Some(c@),
        None => None,
    }
}

/// Whether the key before was Tab.
pub open spec fn was_tab(previous_key: Option<&KeyEvent>) -> bool {
    previous_key matches Some(p) && p.code == KeyCode::Tab
}

/// Tab completes the input with `completion`.
pub fn handle_tab(handled_key: &mut HandledKey, completion: Option<&Completion>, previous_key: Option<&KeyEvent>)
    ensures
        final(handled_key)@ == tab_spec(old(handled_key)@, opt_completion(completion), was_tab(previous_key)),
{
    handled_key.to_print = Some(crate::fmt::bell());
    if let Some(completion) = completion {
        if let Some(r) = completion.get_variants() {
            if let Some(f) = previous_key {
                if f.code == KeyCode::Tab {
                    handled_key.hint = Some(join(&r, "  "));
                    handled_key.to_print = None;
                }
            }
        } else {
            let selected = completion.get_selected().unwrap();
            handled_key.input.append(selected);
            handled_key.to_print = Some(selected.to_owned());
        }
    }
}

/// After the character `r`: Control-C prints `^C` and exits, Control-J
/// runs the command, any other character is added, printed, and makes the
/// input the user's.
pub open spec fn char_spec(v: HandledKeyView, r: char, is_ctrl: bool) -> HandledKeyView {
    if r == 'c' && is_ctrl {
        (v.0, Some("^C"@), v.2, v.3, v.4, true, v.6)
    } else if r == 'j' && is_ctrl {
        (v.0, v.1, v.2, v.3, true, v.5, false)
    } else {
        (v.0.push(r), Some(seq![r]), v.2, v.3, v.4, v.5, true)
    }
}

/// A typed character.
pub fn handle_char(handled_key: &mut HandledKey, key: &KeyEvent, r: char)
    ensures
        final(handled_key)@ == char_spec(old(handled_key)@, r, key.control),
{
    let is_ctrl = key.control;
    if r == 'c' && is_ctrl {
        handled_key.to_print = Some("^C".to_owned());
        handled_key.is_exit = true;
    } else if r == 'j' && is_ctrl {
        handled_key.is_enter = true;
        handled_key.has_user_typing = false;
    } else {
        crate::text::push_char(&mut handled_key.input, r);
        let mut printed = String::new();
        crate::text::push_char(&mut printed, r);
        handled_key.to_print = Some(printed);
        handled_key.has_user_typing = true;
    }
}

/// Backspace after a typed character gives back the input as it was
/// (Control-C and Control-J type nothing).
pub proof fn lemma_backspace_undoes_char(v: HandledKeyView, r: char, is_ctrl: bool)
    requires
        !(is_ctrl && (r == 'c' || r == 'j')),
    ensures
        backspace_spec(char_spec(v, r, is_ctrl)).0 == v.0,
{
    assert(v.0.push(r).drop_last() =~= v.0);
}

/// After an arrow (towards older records when `up`), with the history's
/// `records` and walk `cursor`: nothing happens while the user is typing;
/// otherwise the shown input is erased and replaced by the record reached,
/// or kept with the bell when there is none. Also gives the walk after it.
pub open spec fn arrow_spec(v: HandledKeyView, up: bool, records: Seq<Seq<char>>, cursor: RevIterView) -> (HandledKeyView, RevIterView) {
    if v.6 {
        (v, cursor)
    } else {
        let erase = if v.0.len() > 0 {
            Some(byte_len(v.0))
        } else {
            v.3
        };
        let bell = (v.0, Some(v.0 + seq!['\x07']), v.2, erase, v.4, v.5, v.6);
        if records.len() == 0 {
            (bell, cursor)
        } else {
            let step = if up {
                rev_next(cursor)
            } else {
                rev_prev(cursor)
            };
            match step.1 {
                Some(i) => ((records[i as int], Some(records[i as int]), v.2, erase, v.4, v.5, v.6), step.0),
                None => (bell, step.0),
            }
        }
    }
}

/// An arrow key walks the history, unless the user is typing.
pub fn handle_arrow(handled_key: &mut HandledKey, log: &mut Log, key: &KeyEvent)
    requires
        old(log).wf(),
    ensures
        final(log).wf(),
        final(log).records() == old(log).records(),
        final(log).uploads() == old(log).uploads(),
        (final(handled_key)@, final(log).cursor()) == arrow_spec(
            old(handled_key)@,
            key.code == KeyCode::Up,
            old(log).records(),
            old(log).cursor(),
        ),
{
    if !handled_key.has_user_typing {
        if handled_key.input.as_str().unicode_len() != 0 {
            handled_key.backspace_len = Some(handled_key.input.as_str().len());
        }
        let command = if key.code == KeyCode::Up {
            log.next()
        } else {
            log.prev()
        };
        if let Some(command) = command {
            handled_key.to_print = Some(command.clone());
            handled_key.input = command;
        } else {
            let mut printed = handled_key.input.clone();
            crate::text::push_char(&mut printed, '\x07');
            handled_key.to_print = Some(printed);
        }
    }
}

} // verus!
