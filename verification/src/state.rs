//! The wizard's state: the current step, everything collected so far, and
//! the per-step focus flags, together with the abstract events the
//! navigation engine consumes.

use vstd::prelude::*;
use crate::config::{Config, ConfigView};

verus! {

/// The stage the wizard is at.
#[derive(Debug, Clone, Copy, PartialEq, Eq, Structural)]
pub enum Step {
    Type,
    Scope,
    Subject,
    Body,
    Breaking,
    Preview,
}

/// One abstract input event, as the navigation engine consumes it.
#[derive(Debug, Clone, Copy, PartialEq, Eq, Structural)]
pub enum Event {
    Up,
    Down,
    Confirm,
    Back,
    ToggleFocus,
    TextChar(char),
    TextBackspace,
    Quit,
}

/// One keystroke, reduced to plain values; the terminal layer converts its
/// own key type into this before calling the library.
#[derive(Debug, Clone, Copy, PartialEq, Eq, Structural)]
pub enum Key {
    Char(char),
    Enter,
    Backspace,
    Tab,
    Up,
    Down,
    Left,
    Esc,
    CtrlC,
}

/// What the composer loop should do after a transition.
#[derive(Debug, Clone, Copy, PartialEq, Eq, Structural)]
pub enum Flow {
    Continue,
    Finished,
    Aborted,
}

/// The abstract content of an [`AppState`]: every text as a sequence of
/// characters, every index as an integer.
#[verifier::ext_equal]
pub ghost struct StateView {
    pub step: Step,
    pub selected_type: int,
    pub chosen_type: Option<Seq<char>>,
    pub selected_scope: int,
    pub custom_scope: Seq<char>,
    pub focus_input: bool,
    pub chosen_scope: Option<Seq<char>>,
    pub subject: Seq<char>,
    pub body: Seq<char>,
    pub body_lines: Seq<Seq<char>>,
    pub in_body: bool,
    pub breaking: Seq<char>,
    pub issues: Seq<char>,
    pub focus_issues: bool,
}

impl StateView {
    /// What every state reachable under configuration `c` satisfies: the
    /// browsing cursors stay inside their lists, and a commit type has been
    /// chosen once the wizard is past the first step.
    pub open spec fn wf(self, c: ConfigView) -> bool {
        &&& 0 <= self.selected_type < c.types.len()
        &&& if c.scopes.len() == 0 {
            self.selected_scope == 0
        } else {
            0 <= self.selected_scope < c.scopes.len()
        }
        &&& self.step != Step::Type ==> self.chosen_type is Some
    }
}

/// The state of one wizard run.
#[derive(Debug, Clone)]
pub struct AppState {
    /// The current step.
    pub step: Step,
    /// The cursor in the commit type list while browsing it.
    pub selected_type: usize,
    /// The commit type confirmed on the first step.
    pub chosen_type: Option<String>,
    /// The cursor in the scope list while browsing it.
    pub selected_scope: usize,
    /// The free-form scope being typed in the text sub-mode.
    pub custom_scope: String,
    /// On the scope step: text sub-mode rather than list sub-mode. On the
    /// subject, body and breaking steps: edit sub-mode rather than the
    /// navigation sub-mode that enables the back key.
    pub focus_input: bool,
    /// The scope confirmed on the second step; absent means "no scope".
    pub chosen_scope: Option<String>,
    /// The subject line being typed.
    pub subject: String,
    /// The body line currently being typed.
    pub body: String,
    /// The body lines committed so far, in order.
    pub body_lines: Vec<String>,
    /// Whether the current entry into the body step has already reset the
    /// line buffer.
    pub in_body: bool,
    /// The breaking-change text being typed.
    pub breaking: String,
    /// The issue references being typed on the preview step.
    pub issues: String,
    /// On the preview step: the issues field has focus.
    pub focus_issues: bool,
}

impl View for AppState {
    type V = StateView;

    open spec fn view(&self) -> StateView {
        StateView {
            step: self.step,
            selected_type: self.selected_type as int,
            chosen_type: self.chosen_type.deep_view(),
            selected_scope: self.selected_scope as int,
            custom_scope: self.custom_scope@,
            focus_input: self.focus_input,
            chosen_scope: self.chosen_scope.deep_view(),
            subject: self.subject@,
            body: self.body@,
            body_lines: self.body_lines.deep_view(),
            in_body: self.in_body,
            breaking: self.breaking@,
            issues: self.issues@,
            focus_issues: self.focus_issues,
        }
    }
}

/// The state a wizard run starts from.
pub open spec fn init_view() -> StateView {
    StateView {
        step: Step::Type,
        selected_type: 0,
        chosen_type: None,
        selected_scope: 0,
        custom_scope: Seq::empty(),
        focus_input: false,
        chosen_scope: None,
        subject: Seq::empty(),
        body: Seq::empty(),
        body_lines: Seq::empty(),
        in_body: false,
        breaking: Seq::empty(),
        issues: Seq::empty(),
        focus_issues: false,
    }
}

impl AppState {
    /// A fresh state: the first step, nothing typed, nothing chosen.
    pub fn new() -> (r: AppState)
        ensures
            r@ == init_view(),
            forall|c: ConfigView| c.wf() ==> r@.wf(c),
    {
        let r = AppState {
            step: Step::Type,
            selected_type: 0,
            chosen_type: None,
            selected_scope: 0,
            custom_scope: String::new(),
            focus_input: false,
            chosen_scope: None,
            subject: String::new(),
            body: String::new(),
            body_lines: Vec::new(),
            in_body: false,
            breaking: String::new(),
            issues: String::new(),
            focus_issues: false,
        };
        proof {
            assert(r@ =~= init_view());
        }
        r
    }
}

/// Whether `state` satisfies the well-formedness the navigation engine
/// requires under `config`; unverified callers test this before feeding
/// events in.
pub fn state_ok(state: &AppState, config: &Config) -> (r: bool)
    ensures
        r == state@.wf(config@),
{
    state.selected_type < config.types.len() && (if config.scopes.len() == 0 {
        state.selected_scope == 0
    } else {
        state.selected_scope < config.scopes.len()
    }) && (matches!(state.step, Step::Type) || state.chosen_type.is_some())
}

} // verus!
