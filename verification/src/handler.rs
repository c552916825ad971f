//! Key handling: the decisions the core takes for each decoded key press.
//!
//! The caller decodes terminal events into a `KeyInput`, hands it here,
//! and afterwards performs whatever outside work the returned `KeyAction`
//! names: persisting the credential, or delivering drained changes.

use vstd::prelude::*;

use crate::app::{
    spec_focus_left, spec_focus_right, spec_next, spec_previous, spec_toggle, App, AppModel,
};
use crate::reconcile::has_id;
use crate::todoist::{PendingChange, PendingChangeView};

verus! {

/// A key press, already decoded to what the core reacts to.
#[derive(Clone, Copy, Debug, PartialEq, Eq, Structural)]
pub enum KeyInput {
    Char(char),
    Backspace,
    Enter,
    Up,
    Down,
    Left,
    Right,
    Other,
}

/// The outside work the caller must still perform after a key was
/// handled.
#[derive(Debug)]
pub enum KeyAction {
    /// Nothing is left to do.
    NoAction,
    /// Persist the API key now held in the input buffer; on success, call
    /// `App::complete_onboarding`.
    SaveKey,
    /// Deliver these drained changes to the remote service, in order; a
    /// failed delivery is not re-enqueued.
    Deliver(Vec<PendingChange>),
}

/// Mathematical value of a `KeyAction`.
pub enum KeyActionView {
    NoAction,
    SaveKey,
    Deliver(Seq<PendingChangeView>),
}

impl DeepView for KeyAction {
    type V = KeyActionView;

    open spec fn deep_view(&self) -> KeyActionView {
        match self {
            KeyAction::NoAction => KeyActionView::NoAction,
            KeyAction::SaveKey => KeyActionView::SaveKey,
            KeyAction::Deliver(changes) => KeyActionView::Deliver(changes.deep_view()),
        }
    }
}

/// Relies on String::push: appends one character at the end of the string.
#[verifier::external_body]
fn string_push(s: &mut String, c: char)
    ensures
        final(s)@ == old(s)@.push(c),
{
    s.push(c);
}

/// Relies on String::pop: removes and returns the last character, if any.
#[verifier::external_body]
fn string_pop(s: &mut String) -> (r: Option<char>)
    ensures
        old(s)@.len() == 0 ==> r is None && final(s)@ == old(s)@,
        old(s)@.len() > 0 ==> r == Some(old(s)@.last()) && final(s)@ == old(s)@.drop_last(),
{
    s.pop()
}

/// What one key press does to the application, and what work it leaves
/// for the caller.
///
/// Before onboarding is complete, characters edit the input buffer and
/// `Enter` asks the caller to persist a non-empty key. Afterwards, `q`
/// drains the queue for a final delivery and stops the application, the
/// arrows navigate, and space toggles the selected task, ignoring a
/// selection that no longer resolves.
pub open spec fn spec_handle_key(m: AppModel, key: KeyInput, today: Seq<char>) -> (AppModel,
    KeyActionView) {
    if !m.onboarding_complete {
        match key {
            KeyInput::Char(c) => (
                (AppModel { input_buffer: m.input_buffer.push(c), ..m }),
                KeyActionView::NoAction,
            ),
            KeyInput::Backspace => (
                (AppModel {
                    input_buffer: if m.input_buffer.len() > 0 {
                        m.input_buffer.drop_last()
                    } else {
                        m.input_buffer
                    },
                    ..m
                }),
                KeyActionView::NoAction,
            ),
            KeyInput::Enter => if m.input_buffer.len() > 0 {
                (m, KeyActionView::SaveKey)
            } else {
                (m, KeyActionView::NoAction)
            },
            _ => (m, KeyActionView::NoAction),
        }
    } else {
        match key {
            KeyInput::Char(c) => if c == 'q' {
                (
                    (AppModel { running: false, pending_changes: Seq::empty(), ..m }),
                    KeyActionView::Deliver(m.pending_changes),
                )
            } else if c == ' ' {
                (
                    match m.selected_task {
                        Some(id) => if has_id(m.tasks, id) {
                            spec_toggle(m, id, today)
                        } else {
                            m
                        },
                        None => m,
                    },
                    KeyActionView::NoAction,
                )
            } else {
                (m, KeyActionView::NoAction)
            },
            KeyInput::Up => (spec_previous(m, today), KeyActionView::NoAction),
            KeyInput::Down => (spec_next(m, today), KeyActionView::NoAction),
            KeyInput::Left => (spec_focus_left(m, today), KeyActionView::NoAction),
            KeyInput::Right => (spec_focus_right(m), KeyActionView::NoAction),
            _ => (m, KeyActionView::NoAction),
        }
    }
}

/// No key press ever activates both cursors at once.
pub proof fn lemma_handle_key_preserves_exclusivity(m: AppModel, key: KeyInput, today: Seq<char>)
    requires
        crate::app::cursor_exclusive(m),
    ensures
        crate::app::cursor_exclusive(spec_handle_key(m, key, today).0),
{
    if m.onboarding_complete {
        match key {
            KeyInput::Char(c) => {
                if c != 'q' && c == ' ' {
                    match m.selected_task {
                        Some(id) => {
                            if has_id(m.tasks, id) {
                                crate::app::lemma_toggle_preserves_exclusivity(m, id, today);
                            }
                        },
                        None => {},
                    }
                }
            },
            KeyInput::Up => crate::app::lemma_shift_preserves_exclusivity(m, today, false),
            KeyInput::Down => crate::app::lemma_shift_preserves_exclusivity(m, today, true),
            KeyInput::Left => crate::app::lemma_focus_preserves_exclusivity(m, today),
            KeyInput::Right => crate::app::lemma_focus_preserves_exclusivity(m, today),
            _ => {},
        }
    }
}

/// Apply one decoded key press to the application.
pub fn handle_key_events(key_event: KeyInput, app: &mut App, today: &String) -> (action: KeyAction)
    ensures
        ({
            let (m2, a) = spec_handle_key(old(app).deep_view(), key_event, today@);
            final(app).deep_view() == m2 && action.deep_view() == a
        }),
{
    if !app.onboarding_complete {
        match key_event {
            KeyInput::Char(c) => {
                string_push(&mut app.input_buffer, c);
            },
            KeyInput::Backspace => {
                let _ = string_pop(&mut app.input_buffer);
            },
            KeyInput::Enter => {
                if app.is_valid_api_key() {
                    return KeyAction::SaveKey;
                }
            },
            _ => {},
        }
        return KeyAction::NoAction;
    }
    match key_event {
        KeyInput::Char(c) => {
            if c == 'q' {
                let changes = app.drain();
                app.quit();
                return KeyAction::Deliver(changes);
            } else if c == ' ' {
                let sel = match &app.selected_task {
                    Some(id) => Some(id.clone()),
                    None => None,
                };
                if let Some(id) = sel {
                    let _ = app.toggle_task_completion(id, today);
                }
            }
        },
        KeyInput::Up => {
            app.previous(today);
        },
        KeyInput::Down => {
            app.next(today);
        },
        KeyInput::Left => {
            app.focus_left(today);
        },
        KeyInput::Right => {
            app.focus_right();
        },
        _ => {},
    }
    KeyAction::NoAction
}

} // verus!
