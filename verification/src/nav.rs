//! The navigation engine: the wizard's state machine. Each abstract input
//! event, together with the current state and the configuration,
//! determines the next state and whether the run goes on, finishes, or is
//! aborted.

use vstd::prelude::*;
use vstd::string::StrSliceExecFns;
use crate::config::{Config, ConfigView};
use crate::state::{AppState, Event, Flow, Key, StateView, Step};
use crate::text;
use crate::text::{drop_last_view, trim_view};
use crate::validation;
use crate::validation::{validate_view, FailureReason};

verus! {

/// A scope entry that is drawn purely as a visual separator: it starts
/// with a box-drawing dash and cannot be chosen.
pub open spec fn separator_view(entry: Seq<char>) -> bool {
    entry.len() > 0 && entry[0] == '─'
}

/// Whether the scope cursor may rest on and confirm index `i`.
pub open spec fn selectable_view(scopes: Seq<Seq<char>>, i: int) -> bool {
    0 <= i < scopes.len() && !separator_view(scopes[i])
}

/// The first selectable index strictly after `i`, if any.
pub open spec fn first_selectable_after(scopes: Seq<Seq<char>>, i: int) -> Option<int>
    decreases scopes.len() - i,
{
    if i + 1 >= scopes.len() {
        None
    } else if selectable_view(scopes, i + 1) {
        Some(i + 1)
    } else {
        first_selectable_after(scopes, i + 1)
    }
}

/// The first selectable index strictly before `i`, if any.
pub open spec fn first_selectable_before(scopes: Seq<Seq<char>>, i: int) -> Option<int>
    decreases i,
{
    if i <= 0 {
        None
    } else if selectable_view(scopes, i - 1) {
        Some(i - 1)
    } else {
        first_selectable_before(scopes, i - 1)
    }
}

/// Where the scope cursor lands when moved from `i` one step down (or up):
/// the nearest selectable index in that direction, or `i` itself when none
/// exists there.
pub open spec fn next_scope_view(scopes: Seq<Seq<char>>, i: int, down: bool) -> int {
    let found = if down {
        first_selectable_after(scopes, i)
    } else {
        first_selectable_before(scopes, i)
    };
    match found {
        Some(j) => j,
        None => i,
    }
}

/// Whether the entry at `idx` may be chosen (separators may not).
pub fn is_scope_selectable(scopes_slice: &[String], idx: usize) -> (r: bool)
    requires
        idx < scopes_slice@.len(),
    ensures
        r == selectable_view(scopes_slice.deep_view(), idx as int),
{
    let s: &String = &scopes_slice[idx];
    let n = s.as_str().unicode_len();
    !(n > 0 && s.as_str().get_char(0) == '─')
}

/// Moves the scope cursor from `idx` in direction `dir` (positive is
/// down), skipping separator entries; the cursor stays where it is when no
/// selectable entry lies in that direction.
pub fn next_selectable_scope(scopes_slice: &[String], idx: usize, dir: i32) -> (r: usize)
    requires
        idx < scopes_slice@.len(),
    ensures
        r < scopes_slice@.len(),
        r as int == next_scope_view(scopes_slice.deep_view(), idx as int, dir > 0),
{
    let ghost dv = scopes_slice.deep_view();
    let n = scopes_slice.len();
    let mut j: usize = idx;
    if dir > 0 {
        loop
            invariant
                n == dv.len(),
                n == scopes_slice@.len(),
                dv == scopes_slice.deep_view(),
                dir > 0,
                idx <= j < n,
                first_selectable_after(dv, idx as int) == first_selectable_after(dv, j as int),
            decreases n - j,
        {
            if j + 1 >= n {
                proof {
                    assert(first_selectable_after(dv, j as int) is None);
                }
                return idx;
            }
            j = j + 1;
            if is_scope_selectable(scopes_slice, j) {
                proof {
                    assert(first_selectable_after(dv, j - 1) == Some(j as int));
                }
                return j;
            }
            proof {
                assert(first_selectable_after(dv, j - 1) == first_selectable_after(dv, j as int));
            }
        }
    } else {
        loop
            invariant
                n == dv.len(),
                n == scopes_slice@.len(),
                dv == scopes_slice.deep_view(),
                !(dir > 0),
                0 <= j <= idx,
                idx < n,
                first_selectable_before(dv, idx as int) == first_selectable_before(dv, j as int),
            decreases j,
        {
            if j == 0 {
                proof {
                    assert(first_selectable_before(dv, j as int) is None);
                }
                return idx;
            }
            j = j - 1;
            if is_scope_selectable(scopes_slice, j) {
                proof {
                    assert(first_selectable_before(dv, j + 1) == Some(j as int));
                }
                return j;
            }
            proof {
                assert(first_selectable_before(dv, j + 1) == first_selectable_before(dv, j as int));
            }
        }
    }
}

/// Which position in the one-to-six progress display a step has.
pub fn step_number(step: &Step) -> (r: usize)
    ensures
        r == match *step {
            Step::Type => 1usize,
            Step::Scope => 2usize,
            Step::Subject => 3usize,
            Step::Body => 4usize,
            Step::Breaking => 5usize,
            Step::Preview => 6usize,
        },
{
    match step {
        Step::Type => 1,
        Step::Scope => 2,
        Step::Subject => 3,
        Step::Body => 4,
        Step::Breaking => 5,
        Step::Preview => 6,
    }
}

/// The first index at which `x` occurs in `items` at or after `k`.
pub open spec fn seq_pos_from(items: Seq<Seq<char>>, x: Seq<char>, k: int) -> Option<int>
    decreases items.len() - k,
{
    if k < 0 || k >= items.len() {
        None
    } else if items[k] == x {
        Some(k)
    } else {
        seq_pos_from(items, x, k + 1)
    }
}

/// The first index at which `x` occurs in `items`, if any.
pub open spec fn seq_pos(items: Seq<Seq<char>>, x: Seq<char>) -> Option<int> {
    seq_pos_from(items, x, 0)
}

/// What `seq_pos` finding an index means: the entry there is `x`, and no
/// earlier entry is.
pub proof fn lemma_seq_pos_found(items: Seq<Seq<char>>, x: Seq<char>, k: int, j: int)
    requires
        0 <= k,
        seq_pos_from(items, x, k) == Some(j),
    ensures
        k <= j < items.len(),
        items[j] == x,
        forall|m: int| k <= m < j ==> items[m] != x,
    decreases items.len() - k,
{
    if k < items.len() && items[k] != x {
        lemma_seq_pos_found(items, x, k + 1, j);
    }
}

/// What `seq_pos` finding nothing means: `x` occurs nowhere at or after `k`.
pub proof fn lemma_seq_pos_missing(items: Seq<Seq<char>>, x: Seq<char>, k: int)
    requires
        0 <= k,
        seq_pos_from(items, x, k) is None,
    ensures
        forall|m: int| k <= m < items.len() ==> items[m] != x,
    decreases items.len() - k,
{
    if k < items.len() {
        lemma_seq_pos_missing(items, x, k + 1);
    }
}

/// The first index of `target` in `items`, scanning from the front.
fn position_of(items: &Vec<String>, target: &String) -> (r: Option<usize>)
    ensures
        match r {
            Some(p) => seq_pos(items.deep_view(), target@) == Some(p as int),
            None => seq_pos(items.deep_view(), target@) is None,
        },
{
    let ghost dv = items.deep_view();
    let n = items.len();
    let mut k: usize = 0;
    while k < n
        invariant
            n == dv.len(),
            n == items@.len(),
            dv == items.deep_view(),
            0 <= k <= n,
            seq_pos(dv, target@) == seq_pos_from(dv, target@, k as int),
        decreases n - k,
    {
        proof {
            assert(dv[k as int] == items@[k as int]@);
        }
        if items[k].eq(target) {
            return Some(k);
        }
        k = k + 1;
    }
    None
}

/// The cursor restored when stepping back to a list: where the earlier
/// choice sits in it, or the front when the choice is absent or not listed.
pub open spec fn restore_index(items: Seq<Seq<char>>, chosen: Option<Seq<char>>) -> int {
    match chosen {
        None => 0,
        Some(x) => match seq_pos(items, x) {
            Some(j) => j,
            None => 0,
        },
    }
}

/// The scope step's display state reconstructed from the chosen scope when
/// stepping back from the subject step: the list sub-mode with the cursor
/// on the chosen entry when it is listed ("no scope" restores the front),
/// else the text sub-mode holding the custom scope.
pub open spec fn restore_scope_view(v: StateView, c: ConfigView) -> StateView {
    StateView {
        step: Step::Scope,
        focus_input: match v.chosen_scope {
            None => false,
            Some(s) => seq_pos(c.scopes, s) is None,
        },
        selected_scope: restore_index(c.scopes, v.chosen_scope),
        custom_scope: match v.chosen_scope {
            None => Seq::empty(),
            Some(s) => s,
        },
        ..v
    }
}

/// One event on the commit type step.
pub open spec fn type_next(v: StateView, ev: Event, c: ConfigView) -> (StateView, Flow) {
    match ev {
        Event::Quit => (v, Flow::Aborted),
        Event::Down => (
            StateView {
                selected_type: if v.selected_type + 1 < c.types.len() {
                    v.selected_type + 1
                } else {
                    c.types.len() - 1
                },
                ..v
            },
            Flow::Continue,
        ),
        Event::Up => (
            StateView {
                selected_type: if v.selected_type > 0 {
                    v.selected_type - 1
                } else {
                    0
                },
                ..v
            },
            Flow::Continue,
        ),
        Event::Confirm => (
            StateView {
                chosen_type: Some(c.types[v.selected_type]),
                step: Step::Scope,
                focus_input: false,
                ..v
            },
            Flow::Continue,
        ),
        _ => (v, Flow::Continue),
    }
}

/// One event on the scope step, in either of its two sub-modes.
pub open spec fn scope_next(v: StateView, ev: Event, c: ConfigView) -> (StateView, Flow) {
    if v.focus_input {
        match ev {
            Event::Quit => (v, Flow::Aborted),
            Event::ToggleFocus => (StateView { focus_input: false, ..v }, Flow::Continue),
            Event::Confirm => if trim_view(v.custom_scope).len() > 0 {
                (
                    StateView {
                        chosen_scope: Some(trim_view(v.custom_scope)),
                        step: Step::Subject,
                        focus_input: true,
                        ..v
                    },
                    Flow::Continue,
                )
            } else {
                (v, Flow::Continue)
            },
            Event::TextChar(ch) => (
                StateView { custom_scope: v.custom_scope.push(ch), ..v },
                Flow::Continue,
            ),
            Event::TextBackspace => (
                StateView { custom_scope: drop_last_view(v.custom_scope), ..v },
                Flow::Continue,
            ),
            _ => (v, Flow::Continue),
        }
    } else {
        match ev {
            Event::Quit => (v, Flow::Aborted),
            Event::ToggleFocus => (StateView { focus_input: true, ..v }, Flow::Continue),
            Event::Down => (
                StateView { selected_scope: next_scope_view(c.scopes, v.selected_scope, true), ..v },
                Flow::Continue,
            ),
            Event::Up => (
                StateView { selected_scope: next_scope_view(c.scopes, v.selected_scope, false), ..v },
                Flow::Continue,
            ),
            Event::Confirm => if selectable_view(c.scopes, v.selected_scope) {
                (
                    StateView {
                        chosen_scope: if v.selected_scope == 0 {
                            None
                        } else {
                            Some(c.scopes[v.selected_scope])
                        },
                        step: Step::Subject,
                        focus_input: true,
                        ..v
                    },
                    Flow::Continue,
                )
            } else {
                (v, Flow::Continue)
            },
            Event::Back => (
                StateView {
                    step: Step::Type,
                    selected_type: restore_index(c.types, v.chosen_type),
                    ..v
                },
                Flow::Continue,
            ),
            _ => (v, Flow::Continue),
        }
    }
}

/// One event on the subject step: confirm advances only past validation.
pub open spec fn subject_next(v: StateView, ev: Event, c: ConfigView) -> (StateView, Flow) {
    match ev {
        Event::Quit => (v, Flow::Aborted),
        Event::ToggleFocus => (StateView { focus_input: !v.focus_input, ..v }, Flow::Continue),
        Event::Confirm => if validate_view(v.subject, c) is None {
            (
                StateView { step: Step::Body, focus_input: true, in_body: false, ..v },
                Flow::Continue,
            )
        } else {
            (v, Flow::Continue)
        },
        Event::TextChar(ch) => if v.focus_input {
            (StateView { subject: v.subject.push(ch), ..v }, Flow::Continue)
        } else {
            (v, Flow::Continue)
        },
        Event::TextBackspace => if v.focus_input {
            (StateView { subject: drop_last_view(v.subject), ..v }, Flow::Continue)
        } else {
            (v, Flow::Continue)
        },
        Event::Back => if !v.focus_input {
            (restore_scope_view(v, c), Flow::Continue)
        } else {
            (v, Flow::Continue)
        },
        _ => (v, Flow::Continue),
    }
}

/// One event on the body step: confirming a non-empty line commits it and
/// stays; confirming an empty line (or confirming from the navigation
/// sub-mode) moves on.
pub open spec fn body_next(v: StateView, ev: Event) -> (StateView, Flow) {
    match ev {
        Event::Quit => (v, Flow::Aborted),
        Event::ToggleFocus => (StateView { focus_input: !v.focus_input, ..v }, Flow::Continue),
        Event::Confirm => if v.focus_input && v.body.len() > 0 {
            (
                StateView { body_lines: v.body_lines.push(v.body), body: Seq::empty(), ..v },
                Flow::Continue,
            )
        } else {
            (StateView { step: Step::Breaking, focus_input: true, ..v }, Flow::Continue)
        },
        Event::TextChar(ch) => if v.focus_input {
            (StateView { body: v.body.push(ch), ..v }, Flow::Continue)
        } else {
            (v, Flow::Continue)
        },
        Event::TextBackspace => if v.focus_input {
            (StateView { body: drop_last_view(v.body), ..v }, Flow::Continue)
        } else {
            (v, Flow::Continue)
        },
        Event::Back => if !v.focus_input {
            (StateView { step: Step::Subject, focus_input: true, ..v }, Flow::Continue)
        } else {
            (v, Flow::Continue)
        },
        _ => (v, Flow::Continue),
    }
}

/// One event on the breaking-change step: confirm advances unconditionally.
pub open spec fn breaking_next(v: StateView, ev: Event) -> (StateView, Flow) {
    match ev {
        Event::Quit => (v, Flow::Aborted),
        Event::ToggleFocus => (StateView { focus_input: !v.focus_input, ..v }, Flow::Continue),
        Event::Confirm => (
            StateView { step: Step::Preview, focus_issues: false, ..v },
            Flow::Continue,
        ),
        Event::TextChar(ch) => if v.focus_input {
            (StateView { breaking: v.breaking.push(ch), ..v }, Flow::Continue)
        } else {
            (v, Flow::Continue)
        },
        Event::TextBackspace => if v.focus_input {
            (StateView { breaking: drop_last_view(v.breaking), ..v }, Flow::Continue)
        } else {
            (v, Flow::Continue)
        },
        Event::Back => if !v.focus_input {
            (StateView { step: Step::Body, focus_input: true, ..v }, Flow::Continue)
        } else {
            (v, Flow::Continue)
        },
        _ => (v, Flow::Continue),
    }
}

/// One event on the preview step: confirm finishes the wizard in either
/// sub-focus; in the issues sub-focus characters edit the issues text.
pub open spec fn preview_next(v: StateView, ev: Event) -> (StateView, Flow) {
    if v.focus_issues {
        match ev {
            Event::Quit => (v, Flow::Aborted),
            Event::ToggleFocus => (StateView { focus_issues: false, ..v }, Flow::Continue),
            Event::Confirm => (v, Flow::Finished),
            Event::TextChar(ch) => (StateView { issues: v.issues.push(ch), ..v }, Flow::Continue),
            Event::TextBackspace => (
                StateView { issues: drop_last_view(v.issues), ..v },
                Flow::Continue,
            ),
            Event::Back => (
                StateView { step: Step::Breaking, focus_issues: false, focus_input: true, ..v },
                Flow::Continue,
            ),
            _ => (v, Flow::Continue),
        }
    } else {
        match ev {
            Event::Quit => (v, Flow::Aborted),
            Event::ToggleFocus => (StateView { focus_issues: true, ..v }, Flow::Continue),
            Event::Confirm => (v, Flow::Finished),
            Event::Back => (
                StateView { step: Step::Breaking, focus_input: true, ..v },
                Flow::Continue,
            ),
            _ => (v, Flow::Continue),
        }
    }
}

/// The one-time reset when the body step is entered: the line buffer is
/// cleared and the edit sub-mode focused exactly once per entry; away from
/// the body step the entry flag is rearmed.
pub open spec fn body_entry_view(v: StateView) -> StateView {
    if v.step == Step::Body && !v.in_body {
        StateView { body: Seq::empty(), in_body: true, focus_input: true, ..v }
    } else if v.step != Step::Body {
        StateView { in_body: false, ..v }
    } else {
        v
    }
}

/// The step-specific response to `ev`, before the body-entry reset.
pub open spec fn raw_next(v: StateView, ev: Event, c: ConfigView) -> (StateView, Flow) {
    match v.step {
        Step::Type => type_next(v, ev, c),
        Step::Scope => scope_next(v, ev, c),
        Step::Subject => subject_next(v, ev, c),
        Step::Body => body_next(v, ev),
        Step::Breaking => breaking_next(v, ev),
        Step::Preview => preview_next(v, ev),
    }
}

/// The navigation engine's full transition: the step-specific response to
/// `ev`, then the body-entry reset while the run continues.
pub open spec fn next_state(v: StateView, ev: Event, c: ConfigView) -> (StateView, Flow) {
    let (w, f) = raw_next(v, ev, c);
    if f == Flow::Continue {
        (body_entry_view(w), f)
    } else {
        (w, f)
    }
}

fn on_type_event(state: &mut AppState, ev: Event, config: &Config) -> (flow: Flow)
    requires
        config@.wf(),
        old(state)@.wf(config@),
        old(state)@.step == Step::Type,
    ensures
        (final(state)@, flow) == type_next(old(state)@, ev, config@),
{
    match ev {
        Event::Quit => Flow::Aborted,
        Event::Down => {
            let len = config.types.len();
            if state.selected_type + 1 < len {
                state.selected_type = state.selected_type + 1;
            } else {
                state.selected_type = len - 1;
            }
            proof {
                assert(state@ =~= type_next(old(state)@, ev, config@).0);
            }
            Flow::Continue
        },
        Event::Up => {
            if state.selected_type > 0 {
                state.selected_type = state.selected_type - 1;
            }
            proof {
                assert(state@ =~= type_next(old(state)@, ev, config@).0);
            }
            Flow::Continue
        },
        Event::Confirm => {
            state.chosen_type = Some(config.types[state.selected_type].clone());
            state.step = Step::Scope;
            state.focus_input = false;
            proof {
                assert(state@ =~= type_next(old(state)@, ev, config@).0);
            }
            Flow::Continue
        },
        _ => Flow::Continue,
    }
}


fn on_scope_event(state: &mut AppState, ev: Event, config: &Config) -> (flow: Flow)
    requires
        config@.wf(),
        old(state)@.wf(config@),
        old(state)@.step == Step::Scope,
    ensures
        (final(state)@, flow) == scope_next(old(state)@, ev, config@),
        final(state)@.wf(config@),
{
    if state.focus_input {
        match ev {
            Event::Quit => Flow::Aborted,
            Event::ToggleFocus => {
                state.focus_input = false;
                Flow::Continue
            },
            Event::Confirm => {
                let t = text::trim_str(state.custom_scope.as_str());
                if !t.as_str().is_empty() {
                    state.chosen_scope = Some(t);
                    state.step = Step::Subject;
                    state.focus_input = true;
                    proof {
                        assert(state@ =~= scope_next(old(state)@, ev, config@).0);
                    }
                }
                Flow::Continue
            },
            Event::TextChar(ch) => {
                text::push_char(&mut state.custom_scope, ch);
                proof {
                    assert(state@ =~= scope_next(old(state)@, ev, config@).0);
                }
                Flow::Continue
            },
            Event::TextBackspace => {
                let t = text::remove_last(state.custom_scope.as_str());
                state.custom_scope = t;
                proof {
                    assert(state@ =~= scope_next(old(state)@, ev, config@).0);
                }
                Flow::Continue
            },
            _ => Flow::Continue,
        }
    } else {
        match ev {
            Event::Quit => Flow::Aborted,
            Event::ToggleFocus => {
                state.focus_input = true;
                Flow::Continue
            },
            Event::Down => {
                if config.scopes.len() > 0 {
                    let sl = config.scopes.as_slice();
                    proof {
                        assert(sl.deep_view() =~= config@.scopes);
                    }
                    state.selected_scope = next_selectable_scope(sl, state.selected_scope, 1);
                }
                proof {
                    assert(state@ =~= scope_next(old(state)@, ev, config@).0);
                }
                Flow::Continue
            },
            Event::Up => {
                if config.scopes.len() > 0 {
                    let sl = config.scopes.as_slice();
                    proof {
                        assert(sl.deep_view() =~= config@.scopes);
                    }
                    state.selected_scope = next_selectable_scope(sl, state.selected_scope, -1);
                }
                proof {
                    assert(state@ =~= scope_next(old(state)@, ev, config@).0);
                }
                Flow::Continue
            },
            Event::Confirm => {
                let sl = config.scopes.as_slice();
                proof {
                    assert(sl.deep_view() =~= config@.scopes);
                }
                let listed = config.scopes.len() > 0 && is_scope_selectable(
                    sl,
                    state.selected_scope,
                );
                if listed {
                    if state.selected_scope == 0 {
                        state.chosen_scope = None;
                    } else {
                        state.chosen_scope = Some(config.scopes[state.selected_scope].clone());
                    }
                    state.step = Step::Subject;
                    state.focus_input = true;
                    proof {
                        assert(state@ =~= scope_next(old(state)@, ev, config@).0);
                    }
                }
                Flow::Continue
            },
            Event::Back => {
                let pos: Option<usize> = match &state.chosen_type {
                    Some(t) => position_of(&config.types, t),
                    None => None,
                };
                state.step = Step::Type;
                state.selected_type = match pos {
                    Some(p) => p,
                    None => 0,
                };
                proof {
                    if let Some(p) = pos {
                        lemma_seq_pos_found(config@.types, old(state)@.chosen_type->0, 0, p as int);
                    }
                    assert(state@ =~= scope_next(old(state)@, ev, config@).0);
                }
                Flow::Continue
            },
            _ => Flow::Continue,
        }
    }
}

fn on_subject_event(state: &mut AppState, ev: Event, config: &Config) -> (flow: Flow)
    requires
        config@.wf(),
        old(state)@.wf(config@),
        old(state)@.step == Step::Subject,
    ensures
        (final(state)@, flow) == subject_next(old(state)@, ev, config@),
        final(state)@.wf(config@),
{
    match ev {
        Event::Quit => Flow::Aborted,
        Event::ToggleFocus => {
            state.focus_input = !state.focus_input;
            Flow::Continue
        },
        Event::Confirm => {
            let verdict = validation::validate_subject(state.subject.as_str(), config);
            if verdict.is_none() {
                state.step = Step::Body;
                state.focus_input = true;
                state.in_body = false;
            }
            proof {
                assert(state@ =~= subject_next(old(state)@, ev, config@).0);
            }
            Flow::Continue
        },
        Event::TextChar(ch) => {
            if state.focus_input {
                text::push_char(&mut state.subject, ch);
            }
            proof {
                assert(state@ =~= subject_next(old(state)@, ev, config@).0);
            }
            Flow::Continue
        },
        Event::TextBackspace => {
            if state.focus_input {
                let t = text::remove_last(state.subject.as_str());
                state.subject = t;
            }
            proof {
                assert(state@ =~= subject_next(old(state)@, ev, config@).0);
            }
            Flow::Continue
        },
        Event::Back => {
            if !state.focus_input {
                let restored: (bool, usize, String) = match &state.chosen_scope {
                    None => (false, 0, String::new()),
                    Some(s) => match position_of(&config.scopes, s) {
                        Some(p) => (false, p, s.clone()),
                        None => (true, 0, s.clone()),
                    },
                };
                state.step = Step::Scope;
                state.focus_input = restored.0;
                state.selected_scope = restored.1;
                state.custom_scope = restored.2;
                proof {
                    if old(state)@.chosen_scope is Some {
                        let s = old(state)@.chosen_scope->0;
                        if seq_pos(config@.scopes, s) is Some {
                            lemma_seq_pos_found(config@.scopes, s, 0, seq_pos(config@.scopes, s)->0);
                        }
                    }
                    assert(state@ =~= subject_next(old(state)@, ev, config@).0);
                }
            }
            Flow::Continue
        },
        _ => Flow::Continue,
    }
}

fn on_body_event(state: &mut AppState, ev: Event, config: &Config) -> (flow: Flow)
    requires
        config@.wf(),
        old(state)@.wf(config@),
        old(state)@.step == Step::Body,
    ensures
        (final(state)@, flow) == body_next(old(state)@, ev),
        final(state)@.wf(config@),
{
    match ev {
        Event::Quit => Flow::Aborted,
        Event::ToggleFocus => {
            state.focus_input = !state.focus_input;
            Flow::Continue
        },
        Event::Confirm => {
            if state.focus_input && !state.body.as_str().is_empty() {
                let line = state.body.clone();
                state.body_lines.push(line);
                state.body = String::new();
                proof {
                    assert(state@.body_lines =~= old(state)@.body_lines.push(old(state)@.body));
                    assert(state@ =~= body_next(old(state)@, ev).0);
                }
            } else {
                state.step = Step::Breaking;
                state.focus_input = true;
                proof {
                    assert(state@ =~= body_next(old(state)@, ev).0);
                }
            }
            Flow::Continue
        },
        Event::TextChar(ch) => {
            if state.focus_input {
                text::push_char(&mut state.body, ch);
            }
            proof {
                assert(state@ =~= body_next(old(state)@, ev).0);
            }
            Flow::Continue
        },
        Event::TextBackspace => {
            if state.focus_input {
                let t = text::remove_last(state.body.as_str());
                state.body = t;
            }
            proof {
                assert(state@ =~= body_next(old(state)@, ev).0);
            }
            Flow::Continue
        },
        Event::Back => {
            if !state.focus_input {
                state.step = Step::Subject;
                state.focus_input = true;
            }
            proof {
                assert(state@ =~= body_next(old(state)@, ev).0);
            }
            Flow::Continue
        },
        _ => Flow::Continue,
    }
}

fn on_breaking_event(state: &mut AppState, ev: Event, config: &Config) -> (flow: Flow)
    requires
        config@.wf(),
        old(state)@.wf(config@),
        old(state)@.step == Step::Breaking,
    ensures
        (final(state)@, flow) == breaking_next(old(state)@, ev),
        final(state)@.wf(config@),
{
    match ev {
        Event::Quit => Flow::Aborted,
        Event::ToggleFocus => {
            state.focus_input = !state.focus_input;
            Flow::Continue
        },
        Event::Confirm => {
            state.step = Step::Preview;
            state.focus_issues = false;
            proof {
                assert(state@ =~= breaking_next(old(state)@, ev).0);
            }
            Flow::Continue
        },
        Event::TextChar(ch) => {
            if state.focus_input {
                text::push_char(&mut state.breaking, ch);
            }
            proof {
                assert(state@ =~= breaking_next(old(state)@, ev).0);
            }
            Flow::Continue
        },
        Event::TextBackspace => {
            if state.focus_input {
                let t = text::remove_last(state.breaking.as_str());
                state.breaking = t;
            }
            proof {
                assert(state@ =~= breaking_next(old(state)@, ev).0);
            }
            Flow::Continue
        },
        Event::Back => {
            if !state.focus_input {
                state.step = Step::Body;
                state.focus_input = true;
            }
            proof {
                assert(state@ =~= breaking_next(old(state)@, ev).0);
            }
            Flow::Continue
        },
        _ => Flow::Continue,
    }
}

fn on_preview_event(state: &mut AppState, ev: Event, config: &Config) -> (flow: Flow)
    requires
        config@.wf(),
        old(state)@.wf(config@),
        old(state)@.step == Step::Preview,
    ensures
        (final(state)@, flow) == preview_next(old(state)@, ev),
        final(state)@.wf(config@),
{
    if state.focus_issues {
        match ev {
            Event::Quit => Flow::Aborted,
            Event::ToggleFocus => {
                state.focus_issues = false;
                Flow::Continue
            },
            Event::Confirm => Flow::Finished,
            Event::TextChar(ch) => {
                text::push_char(&mut state.issues, ch);
                proof {
                    assert(state@ =~= preview_next(old(state)@, ev).0);
                }
                Flow::Continue
            },
            Event::TextBackspace => {
                let t = text::remove_last(state.issues.as_str());
                state.issues = t;
                proof {
                    assert(state@ =~= preview_next(old(state)@, ev).0);
                }
                Flow::Continue
            },
            Event::Back => {
                state.step = Step::Breaking;
                state.focus_issues = false;
                state.focus_input = true;
                proof {
                    assert(state@ =~= preview_next(old(state)@, ev).0);
                }
                Flow::Continue
            },
            _ => Flow::Continue,
        }
    } else {
        match ev {
            Event::Quit => Flow::Aborted,
            Event::ToggleFocus => {
                state.focus_issues = true;
                Flow::Continue
            },
            Event::Confirm => Flow::Finished,
            Event::Back => {
                state.step = Step::Breaking;
                state.focus_input = true;
                proof {
                    assert(state@ =~= preview_next(old(state)@, ev).0);
                }
                Flow::Continue
            },
            _ => Flow::Continue,
        }
    }
}

fn body_entry(state: &mut AppState)
    ensures
        final(state)@ == body_entry_view(old(state)@),
{
    if state.step == Step::Body {
        if !state.in_body {
            state.body = String::new();
            state.in_body = true;
            state.focus_input = true;
        }
    } else {
        state.in_body = false;
    }
    proof {
        assert(state@ =~= body_entry_view(old(state)@));
    }
}

/// Feeds one abstract event to the navigation engine, mutating the state
/// in place, and says whether the run continues, finished successfully, or
/// was aborted; the outcome and the new state are exactly what
/// [`next_state`] gives.
pub fn apply_event(state: &mut AppState, ev: Event, config: &Config) -> (flow: Flow)
    requires
        config@.wf(),
        old(state)@.wf(config@),
    ensures
        final(state)@.wf(config@),
        (final(state)@, flow) == next_state(old(state)@, ev, config@),
{
    let flow = match state.step {
        Step::Type => on_type_event(state, ev, config),
        Step::Scope => on_scope_event(state, ev, config),
        Step::Subject => on_subject_event(state, ev, config),
        Step::Body => on_body_event(state, ev, config),
        Step::Breaking => on_breaking_event(state, ev, config),
        Step::Preview => on_preview_event(state, ev, config),
    };
    if matches!(flow, Flow::Continue) {
        body_entry(state);
    }
    flow
}


/// The event a keystroke stands for on a step whose sub-modes are a text
/// field (editing) and a bare navigation mode that enables the back key.
pub open spec fn text_step_classify(focus: bool, k: Key) -> Option<Event> {
    if focus {
        match k {
            Key::Tab => Some(Event::ToggleFocus),
            Key::Enter => Some(Event::Confirm),
            Key::Char(ch) => Some(Event::TextChar(ch)),
            Key::Backspace => Some(Event::TextBackspace),
            _ => None,
        }
    } else {
        match k {
            Key::Tab => Some(Event::ToggleFocus),
            Key::Enter => Some(Event::Confirm),
            Key::Char('b') => Some(Event::Back),
            Key::Left => Some(Event::Back),
            _ => None,
        }
    }
}

/// The abstract event a keystroke stands for in the current state; `None`
/// for a key that means nothing there. Escape and control-C always quit;
/// what the other keys mean depends on the step and its focus.
pub open spec fn classify_view(v: StateView, k: Key) -> Option<Event> {
    match k {
        Key::Esc => Some(Event::Quit),
        Key::CtrlC => Some(Event::Quit),
        _ => match v.step {
            Step::Type => match k {
                Key::Char('q') => Some(Event::Quit),
                Key::Down => Some(Event::Down),
                Key::Up => Some(Event::Up),
                Key::Enter => Some(Event::Confirm),
                _ => None,
            },
            Step::Scope => if v.focus_input {
                match k {
                    Key::Tab => Some(Event::ToggleFocus),
                    Key::Enter => Some(Event::Confirm),
                    Key::Char(ch) => Some(Event::TextChar(ch)),
                    Key::Backspace => Some(Event::TextBackspace),
                    _ => None,
                }
            } else {
                match k {
                    Key::Char('q') => Some(Event::Quit),
                    Key::Tab => Some(Event::ToggleFocus),
                    Key::Down => Some(Event::Down),
                    Key::Up => Some(Event::Up),
                    Key::Enter => Some(Event::Confirm),
                    Key::Char('b') => Some(Event::Back),
                    Key::Left => Some(Event::Back),
                    _ => None,
                }
            },
            Step::Subject => text_step_classify(v.focus_input, k),
            Step::Body => text_step_classify(v.focus_input, k),
            Step::Breaking => text_step_classify(v.focus_input, k),
            Step::Preview => if v.focus_issues {
                match k {
                    Key::Tab => Some(Event::ToggleFocus),
                    Key::Enter => Some(Event::Confirm),
                    Key::Char(ch) => Some(Event::TextChar(ch)),
                    Key::Backspace => Some(Event::TextBackspace),
                    Key::Left => Some(Event::Back),
                    _ => None,
                }
            } else {
                match k {
                    Key::Tab => Some(Event::ToggleFocus),
                    Key::Char('y') => Some(Event::Confirm),
                    Key::Enter => Some(Event::Confirm),
                    Key::Char('b') => Some(Event::Back),
                    Key::Left => Some(Event::Back),
                    _ => None,
                }
            },
        },
    }
}

fn classify_text_step(focus: bool, key: Key) -> (r: Option<Event>)
    ensures
        r == text_step_classify(focus, key),
{
    if focus {
        match key {
            Key::Tab => Some(Event::ToggleFocus),
            Key::Enter => Some(Event::Confirm),
            Key::Char(ch) => Some(Event::TextChar(ch)),
            Key::Backspace => Some(Event::TextBackspace),
            _ => None,
        }
    } else {
        match key {
            Key::Tab => Some(Event::ToggleFocus),
            Key::Enter => Some(Event::Confirm),
            Key::Char(ch) => if ch == 'b' {
                Some(Event::Back)
            } else {
                None
            },
            Key::Left => Some(Event::Back),
            _ => None,
        }
    }
}

/// The abstract event `key` stands for in the current state, or `None`
/// when the key means nothing there.
pub fn classify_key(state: &AppState, key: Key) -> (r: Option<Event>)
    ensures
        r == classify_view(state@, key),
{
    match key {
        Key::Esc => Some(Event::Quit),
        Key::CtrlC => Some(Event::Quit),
        _ => match state.step {
            Step::Type => match key {
                Key::Char(ch) => if ch == 'q' {
                    Some(Event::Quit)
                } else {
                    None
                },
                Key::Down => Some(Event::Down),
                Key::Up => Some(Event::Up),
                Key::Enter => Some(Event::Confirm),
                _ => None,
            },
            Step::Scope => if state.focus_input {
                match key {
                    Key::Tab => Some(Event::ToggleFocus),
                    Key::Enter => Some(Event::Confirm),
                    Key::Char(ch) => Some(Event::TextChar(ch)),
                    Key::Backspace => Some(Event::TextBackspace),
                    _ => None,
                }
            } else {
                match key {
                    Key::Tab => Some(Event::ToggleFocus),
                    Key::Down => Some(Event::Down),
                    Key::Up => Some(Event::Up),
                    Key::Enter => Some(Event::Confirm),
                    Key::Char(ch) => if ch == 'q' {
                        Some(Event::Quit)
                    } else if ch == 'b' {
                        Some(Event::Back)
                    } else {
                        None
                    },
                    Key::Left => Some(Event::Back),
                    _ => None,
                }
            },
            Step::Subject => classify_text_step(state.focus_input, key),
            Step::Body => classify_text_step(state.focus_input, key),
            Step::Breaking => classify_text_step(state.focus_input, key),
            Step::Preview => if state.focus_issues {
                match key {
                    Key::Tab => Some(Event::ToggleFocus),
                    Key::Enter => Some(Event::Confirm),
                    Key::Char(ch) => Some(Event::TextChar(ch)),
                    Key::Backspace => Some(Event::TextBackspace),
                    Key::Left => Some(Event::Back),
                    _ => None,
                }
            } else {
                match key {
                    Key::Tab => Some(Event::ToggleFocus),
                    Key::Enter => Some(Event::Confirm),
                    Key::Char(ch) => if ch == 'y' {
                        Some(Event::Confirm)
                    } else if ch == 'b' {
                        Some(Event::Back)
                    } else {
                        None
                    },
                    Key::Left => Some(Event::Back),
                    _ => None,
                }
            },
        },
    }
}


/// A subject longer than the configured limit (and not blank) is reported
/// as too long, and confirming the subject step then changes nothing: the
/// step does not advance and the state is exactly what it was.
pub proof fn lemma_too_long_blocks_confirm(v: StateView, c: ConfigView)
    requires
        v.step == Step::Subject,
        !v.in_body,
        trim_view(v.subject).len() > 0,
        v.subject.len() > c.subject_max_length,
        v.subject.len() <= usize::MAX,
    ensures
        validate_view(v.subject, c) == Some(
            FailureReason::TooLong { max: c.subject_max_length, actual: v.subject.len() as usize },
        ),
        next_state(v, Event::Confirm, c) == (v, Flow::Continue),
{
    assert(body_entry_view(v) =~= v);
    assert(next_state(v, Event::Confirm, c).0 =~= v);
}

/// Stepping back from the subject step restores the scope step's display
/// state from the chosen scope, and confirming there again yields exactly
/// the same chosen scope: the restore logic is loss-free. The hypotheses
/// rule out choices the scope step itself can never produce: a chosen
/// scope equal to the "no scope" entry at the front of the list, one equal
/// to a separator entry, and an unlisted one that is empty or untrimmed.
pub proof fn lemma_scope_restore_round_trip(v: StateView, c: ConfigView)
    requires
        v.step == Step::Subject,
        !v.focus_input,
        !v.in_body,
        match v.chosen_scope {
            None => c.scopes.len() > 0 && !separator_view(c.scopes[0]),
            Some(s) => {
                &&& s.len() > 0
                &&& (c.scopes.contains(s) ==> s != c.scopes[0] && !separator_view(s))
                &&& (!c.scopes.contains(s) ==> trim_view(s) == s)
            },
        },
    ensures
        ({
            let s1 = next_state(v, Event::Back, c).0;
            let s2 = next_state(s1, Event::Confirm, c).0;
            s2.step == Step::Subject && s2.chosen_scope == v.chosen_scope
        }),
{
    let r = restore_scope_view(v, c);
    assert(body_entry_view(r) =~= r);
    let s1 = next_state(v, Event::Back, c).0;
    assert(s1 =~= r);
    match v.chosen_scope {
        None => {
            assert(selectable_view(c.scopes, 0));
        },
        Some(s) => {
            if c.scopes.contains(s) {
                if seq_pos(c.scopes, s) is None {
                    lemma_seq_pos_missing(c.scopes, s, 0);
                    let w = choose|i: int| 0 <= i < c.scopes.len() && c.scopes[i] == s;
                    assert(c.scopes[w] == s);
                    assert(false);
                }
                let p = seq_pos(c.scopes, s)->0;
                lemma_seq_pos_found(c.scopes, s, 0, p);
                assert(c.scopes[p] == s);
                assert(p != 0);
                assert(selectable_view(c.scopes, p));
            } else {
                if seq_pos(c.scopes, s) is Some {
                    let p = seq_pos(c.scopes, s)->0;
                    lemma_seq_pos_found(c.scopes, s, 0, p);
                    assert(c.scopes.contains(s));
                    assert(false);
                }
                assert(s1.focus_input);
                assert(trim_view(s1.custom_scope).len() > 0);
            }
        },
    }
    let s2 = next_state(s1, Event::Confirm, c).0;
    assert(s2.step == Step::Subject);
    assert(s2.chosen_scope == v.chosen_scope);
}

} // verus!
