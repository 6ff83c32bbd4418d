//! Keys typed while a prompt is open: editing the input line, moving through find results,
//! and what the application does next.

use crate::app::actions::{spliced, ActionContext, ActionMode, InputMode};
use crate::app::keymap::KeyCode;
use crate::utils::clock::duration_from_millis;
use vstd::prelude::*;

verus! {

/// What the application does after a key typed in a prompt.
#[derive(Debug, Clone, Copy, PartialEq, Eq, Structural)]
pub enum InputKeyOutcome {
    /// No prompt is open: the key goes to the normal key handling.
    NotInput,
    /// The prompt does not use the key: it goes on to the normal key handling.
    Continue,
    /// The key was used.
    Consumed,
    /// Enter: carry out what the prompt of this kind asks, then leave the prompt.
    Submit(InputMode),
    /// The filter text changed: apply it to the listing again.
    ApplyFilter,
    /// Tab in the move prompt with `fd` installed: complete the typed path.
    Autocomplete,
    /// The delete prompt was answered yes: delete the targets (the prompt is already left).
    ConfirmDelete,
    /// The overwrite prompt was answered yes: write over the existing path (the prompt is
    /// already left).
    ConfirmOverwrite,
}

/// A prompt answered by a single key (yes or no).
pub open spec fn is_confirm(mode: InputMode) -> bool {
    mode == InputMode::ConfirmDelete || mode == InputMode::ConfirmOverwrite
}

/// The kind of prompt that is open, if one is.
fn prompt_kind(actx: &ActionContext) -> (r: Option<InputMode>)
    ensures
        r == actx.mode_view(),
{
    match actx.mode() {
        ActionMode::Input { mode, .. } => Some(*mode),
        ActionMode::Normal => None,
    }
}

/// What a key does in a prompt of the given kind (see `handle_input_key`).
pub open spec fn input_key_outcome(mode: InputMode, code: KeyCode, fd_available: bool) -> InputKeyOutcome {
    match code {
        KeyCode::Enter => InputKeyOutcome::Submit(mode),
        KeyCode::Up | KeyCode::Down => if mode == InputMode::Find {
            InputKeyOutcome::Consumed
        } else {
            InputKeyOutcome::Continue
        },
        KeyCode::Backspace => if mode == InputMode::Filter {
            InputKeyOutcome::ApplyFilter
        } else {
            InputKeyOutcome::Consumed
        },
        KeyCode::Tab => if mode == InputMode::MoveFile && fd_available {
            InputKeyOutcome::Autocomplete
        } else {
            InputKeyOutcome::Continue
        },
        KeyCode::Char(c) => if mode == InputMode::ConfirmDelete {
            if c == 'y' || c == 'Y' {
                InputKeyOutcome::ConfirmDelete
            } else {
                InputKeyOutcome::Consumed
            }
        } else if mode == InputMode::ConfirmOverwrite {
            if c == 'y' || c == 'Y' {
                InputKeyOutcome::ConfirmOverwrite
            } else {
                InputKeyOutcome::Consumed
            }
        } else if mode == InputMode::Filter {
            InputKeyOutcome::ApplyFilter
        } else {
            InputKeyOutcome::Consumed
        },
        _ => InputKeyOutcome::Consumed,
    }
}

/// In the filter prompt, every key that edits the text (a character or Backspace) asks for the
/// filter to be applied again, so that the listing always follows the prompt's text.
pub proof fn lemma_filter_edits_reapply(code: KeyCode, fd_available: bool)
    requires
        code is Char || code == KeyCode::Backspace,
    ensures
        input_key_outcome(InputMode::Filter, code, fd_available) == InputKeyOutcome::ApplyFilter,
{
}

/// Handles a key typed while a prompt is open. Esc and a key answering the delete or overwrite
/// prompt leave the prompt (`y` or `Y` confirms, any other character declines); the arrow, Home and End keys move the cursor (Up and Down move through the find
/// results instead); Backspace deletes before the cursor; a character is inserted at the
/// cursor. In the find prompt, editing the query restarts its debounce (90 ms after Backspace,
/// 120 ms after a character). The outcome says what the application does next; in the filter
/// prompt, every key that changes the text asks for the filter to be applied again.
pub fn handle_input_key(actx: &mut ActionContext, code: KeyCode, fd_available: bool) -> (r: InputKeyOutcome)
    requires
        old(actx).wf(),
        old(actx).buffer().len() < usize::MAX,
    ensures
        final(actx).wf(),
        final(actx).clipboard_view() == old(actx).clipboard_view(),
        old(actx).mode_view() is None ==> r == InputKeyOutcome::NotInput && final(actx).buffer() == old(actx).buffer()
            && final(actx).mode_view() == old(actx).mode_view() && final(actx).cursor() == old(actx).cursor()
            && final(actx).find_view() == old(actx).find_view(),
        old(actx).mode_view() == Some(InputMode::Filter) && final(actx).mode_view() == Some(InputMode::Filter)
            && final(actx).buffer() != old(actx).buffer() ==> r == InputKeyOutcome::ApplyFilter,
        old(actx).mode_view() == Some(InputMode::ConfirmDelete) && (code == KeyCode::Char('y') || code
            == KeyCode::Char('Y')) ==> r == InputKeyOutcome::ConfirmDelete,
        old(actx).mode_view() == Some(InputMode::ConfirmOverwrite) && (code == KeyCode::Char('y') || code
            == KeyCode::Char('Y')) ==> r == InputKeyOutcome::ConfirmOverwrite,
        (old(actx).mode_view() == Some(InputMode::ConfirmDelete) || old(actx).mode_view() == Some(
            InputMode::ConfirmOverwrite)) && code is Char && code != KeyCode::Char('y') && code != KeyCode::Char('Y')
            ==> r == InputKeyOutcome::Consumed,
        old(actx).mode_view() matches Some(mode) ==> {
            &&& r == (if code == KeyCode::Esc { InputKeyOutcome::Consumed } else { input_key_outcome(mode, code, fd_available) })
            &&& (code == KeyCode::Esc || (is_confirm(mode) && code is Char)) ==> final(actx).mode_view() is None
            &&& !(code == KeyCode::Esc || (is_confirm(mode) && code is Char)) ==> final(actx).mode_view() == Some(mode)
            &&& code == KeyCode::Left ==> final(actx).buffer() == old(actx).buffer()
                && final(actx).cursor() == (if old(actx).cursor() > 0 { old(actx).cursor() - 1 } else { 0 })
            &&& code == KeyCode::Right ==> final(actx).buffer() == old(actx).buffer()
                && final(actx).cursor() == (if old(actx).cursor() < old(actx).buffer().len() { old(actx).cursor() + 1 } else { old(actx).cursor() })
            &&& code == KeyCode::Home ==> final(actx).buffer() == old(actx).buffer() && final(actx).cursor() == 0
            &&& code == KeyCode::End ==> final(actx).buffer() == old(actx).buffer() && final(actx).cursor() == old(actx).buffer().len()
            &&& code == KeyCode::Backspace ==> (if old(actx).cursor() > 0 {
                final(actx).buffer() == spliced(old(actx).buffer(), old(actx).cursor() - 1, 1, Seq::empty())
                    && final(actx).cursor() == old(actx).cursor() - 1
            } else {
                final(actx).buffer() == old(actx).buffer() && final(actx).cursor() == 0
            })
            &&& (code matches KeyCode::Char(c) && !is_confirm(mode)) ==> final(actx).buffer()
                == spliced(old(actx).buffer(), old(actx).cursor(), 0, seq![code->Char_0])
                && final(actx).cursor() == old(actx).cursor() + 1
            &&& (mode == InputMode::Find && (code == KeyCode::Backspace || code is Char)) ==> final(actx).find_view().debouncing()
            &&& (mode == InputMode::Find && code == KeyCode::Up) ==> final(actx).find_view().selected_view() == (if old(actx).find_view().selected_view() > 0 {
                old(actx).find_view().selected_view() - 1
            } else {
                0
            }) && final(actx).find_view().results_view() == old(actx).find_view().results_view()
            &&& (mode == InputMode::Find && code == KeyCode::Down) ==> final(actx).find_view().selected_view() == (if old(actx).find_view().selected_view() + 1 < old(actx).find_view().results_view().len() {
                old(actx).find_view().selected_view() + 1
            } else {
                old(actx).find_view().selected_view() as int
            }) && final(actx).find_view().results_view() == old(actx).find_view().results_view()
            &&& (mode != InputMode::Find && (code == KeyCode::Up || code == KeyCode::Down)) ==> final(actx).find_view() == old(actx).find_view()
            &&& (code == KeyCode::Up || code == KeyCode::Down || code == KeyCode::Enter || code == KeyCode::Tab) ==> final(actx).buffer() == old(actx).buffer()
                && final(actx).cursor() == old(actx).cursor()
        },
{
    let mode = match prompt_kind(actx) {
        Some(m) => m,
        None => {
            return InputKeyOutcome::NotInput;
        },
    };
    match code {
        KeyCode::Enter => {
            return InputKeyOutcome::Submit(mode);
        },
        KeyCode::Tab => {
            return if mode == InputMode::MoveFile && fd_available {
                InputKeyOutcome::Autocomplete
            } else {
                InputKeyOutcome::Continue
            };
        },
        KeyCode::Up | KeyCode::Down => {
            if mode != InputMode::Find {
                return InputKeyOutcome::Continue;
            }
        },
        KeyCode::Esc | KeyCode::Left | KeyCode::Right | KeyCode::Home | KeyCode::End | KeyCode::Backspace | KeyCode::Char(_) => {},
        _ => {
            return InputKeyOutcome::Consumed;
        },
    }
    match code {
        KeyCode::Esc => {
            actx.exit_mode();
            return InputKeyOutcome::Consumed;
        },
        KeyCode::Left => {
            actx.action_move_cursor_left();
            return InputKeyOutcome::Consumed;
        },
        KeyCode::Right => {
            actx.action_move_cursor_right();
            return InputKeyOutcome::Consumed;
        },
        KeyCode::Up => {
            if mode == InputMode::Find {
                actx.find_state_mut().select_prev();
                return InputKeyOutcome::Consumed;
            } else {
                return InputKeyOutcome::Continue;
            }
        },
        KeyCode::Down => {
            if mode == InputMode::Find {
                actx.find_state_mut().select_next();
                return InputKeyOutcome::Consumed;
            } else {
                return InputKeyOutcome::Continue;
            }
        },
        KeyCode::Home => {
            actx.action_cursor_home();
            return InputKeyOutcome::Consumed;
        },
        KeyCode::End => {
            actx.action_cursor_end();
            return InputKeyOutcome::Consumed;
        },
        KeyCode::Backspace => {
            actx.action_backspace_at_cursor();
            if mode == InputMode::Find {
                actx.find_debounce(duration_from_millis(90));
            }
            if mode == InputMode::Filter {
                return InputKeyOutcome::ApplyFilter;
            } else {
                return InputKeyOutcome::Consumed;
            }
        },
        KeyCode::Char(c) => {
            if mode == InputMode::ConfirmDelete {
                actx.exit_mode();
                if c == 'y' || c == 'Y' {
                    return InputKeyOutcome::ConfirmDelete;
                } else {
                    return InputKeyOutcome::Consumed;
                }
            } else if mode == InputMode::ConfirmOverwrite {
                actx.exit_mode();
                if c == 'y' || c == 'Y' {
                    return InputKeyOutcome::ConfirmOverwrite;
                } else {
                    return InputKeyOutcome::Consumed;
                }
            } else {
                actx.action_insert_at_cursor(c);
                if mode == InputMode::Find {
                    actx.find_debounce(duration_from_millis(120));
                }
                if mode == InputMode::Filter {
                    return InputKeyOutcome::ApplyFilter;
                } else {
                    return InputKeyOutcome::Consumed;
                }
            }
        },
        _ => {
            return InputKeyOutcome::Consumed;
        },
    }
}

} // verus!
