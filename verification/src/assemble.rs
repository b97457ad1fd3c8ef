//! Deterministic message assembly: the final state is serialized into one
//! multi-line string, with each present section separated from the one
//! before it by exactly one blank line, and exactly one trailing newline.

use vstd::prelude::*;
use vstd::string::{StrSliceExecFns, StringExecFns};
use crate::state::{AppState, StateView};
use crate::text;
use crate::text::trim_view;

verus! {

/// Whether `s` ends with a newline.
pub open spec fn ends_nl(s: Seq<char>) -> bool {
    s.len() >= 1 && s[s.len() - 1] == '\n'
}

/// Whether `s` ends with a blank line, that is two consecutive newlines.
pub open spec fn ends_blank(s: Seq<char>) -> bool {
    s.len() >= 2 && s[s.len() - 1] == '\n' && s[s.len() - 2] == '\n'
}

/// `s` brought to end with exactly the newlines a blank-line separator
/// needs: nothing is added when a blank line is already there.
pub open spec fn sep_blank_view(s: Seq<char>) -> Seq<char> {
    if ends_blank(s) {
        s
    } else if ends_nl(s) {
        s + "\n"@
    } else {
        s + "\n\n"@
    }
}

/// The first line of the message: `type(scope): subject`, or
/// `type: subject` when the scope is absent or empty.
pub open spec fn header_view(v: StateView) -> Seq<char> {
    match (v.chosen_type, v.chosen_scope) {
        (Some(ty), Some(sc)) => if sc.len() > 0 {
            ty + "("@ + sc + "): "@ + v.subject
        } else {
            ty + ": "@ + v.subject
        },
        (Some(ty), None) => ty + ": "@ + v.subject,
        (None, _) => v.subject,
    }
}

/// The committed body lines, with the still-uncommitted current line
/// counted as one more when it is not empty.
pub open spec fn effective_lines(v: StateView) -> Seq<Seq<char>> {
    if v.body.len() > 0 {
        v.body_lines.push(v.body)
    } else {
        v.body_lines
    }
}

/// `lines` joined by single newlines.
pub open spec fn join_lines(lines: Seq<Seq<char>>) -> Seq<char>
    decreases lines.len(),
{
    if lines.len() == 0 {
        Seq::empty()
    } else if lines.len() == 1 {
        lines[0]
    } else {
        join_lines(lines.drop_last()) + "\n"@ + lines.last()
    }
}

/// The header, and after one blank line the body, when there is one.
pub open spec fn body_section_view(v: StateView) -> Seq<char> {
    let lines = effective_lines(v);
    if lines.len() == 0 {
        header_view(v)
    } else {
        header_view(v) + "\n\n"@ + join_lines(lines)
    }
}

/// `foot` appended after a blank-line separator; nothing when `foot` is
/// empty.
pub open spec fn with_footer_view(s: Seq<char>, foot: Seq<char>) -> Seq<char> {
    if foot.len() == 0 {
        s
    } else {
        sep_blank_view(s) + foot
    }
}

/// The breaking-change footer: the trimmed text behind its marker, or
/// nothing when the trimmed text is empty.
pub open spec fn breaking_footer_view(b: Seq<char>) -> Seq<char> {
    if trim_view(b).len() == 0 {
        Seq::empty()
    } else {
        "BREAKING CHANGE: "@ + trim_view(b)
    }
}

/// The assembled message: header, body, breaking-change footer and issues
/// footer, each present section preceded by one blank line, ending in a
/// newline.
pub open spec fn assembled_view(v: StateView) -> Seq<char> {
    let with_breaking = with_footer_view(body_section_view(v), breaking_footer_view(v.breaking));
    let with_issues = with_footer_view(with_breaking, trim_view(v.issues));
    if ends_nl(with_issues) {
        with_issues
    } else {
        with_issues + "\n"@
    }
}

/// Whatever the state holds, the assembled message ends with a newline.
pub proof fn lemma_assembled_ends_with_newline(v: StateView)
    ensures
        ends_nl(assembled_view(v)),
{
    reveal_strlit("\n");
    let with_breaking = with_footer_view(body_section_view(v), breaking_footer_view(v.breaking));
    let with_issues = with_footer_view(with_breaking, trim_view(v.issues));
    if !ends_nl(with_issues) {
        assert((with_issues + "\n"@).last() == '\n');
    }
}

/// Assembly is deterministic: equal states give the same message, so two
/// calls of [`assemble_message`] on equal states return byte-identical
/// strings.
pub proof fn lemma_assemble_deterministic(a: StateView, b: StateView)
    requires
        a == b,
    ensures
        assembled_view(a) == assembled_view(b),
{
}

fn ends_with_nl(s: &str) -> (r: bool)
    ensures
        r == ends_nl(s@),
{
    let n = s.unicode_len();
    n >= 1 && s.get_char(n - 1) == '\n'
}

fn append_blank_sep(out: &mut String)
    ensures
        final(out)@ == sep_blank_view(old(out)@),
{
    let n = out.as_str().unicode_len();
    if n >= 2 && out.as_str().get_char(n - 1) == '\n' && out.as_str().get_char(n - 2) == '\n' {
    } else if n >= 1 && out.as_str().get_char(n - 1) == '\n' {
        out.append("\n");
    } else {
        out.append("\n\n");
    }
}

/// Serializes the collected fields into the final commit message; the
/// result is exactly [`assembled_view`] of the state, so equal states
/// always give byte-identical messages.
pub fn assemble_message(state: &AppState) -> (r: String)
    requires
        state@.chosen_type is Some,
    ensures
        r@ == assembled_view(state@),
{
    let ghost v = state@;
    let mut out: String;
    match &state.chosen_type {
        Some(ty) => {
            out = ty.clone();
        },
        None => {
            proof {
                assert(false);
            }
            out = String::new();
        },
    }
    let scoped: bool = match &state.chosen_scope {
        Some(sc) => !sc.as_str().is_empty(),
        None => false,
    };
    if scoped {
        out.append("(");
        match &state.chosen_scope {
            Some(sc) => out.append(sc.as_str()),
            None => {},
        }
        out.append("): ");
    } else {
        out.append(": ");
    }
    out.append(state.subject.as_str());
    proof {
        assert(out@ =~= header_view(v));
    }
    let ghost lines = effective_lines(v);
    if state.body_lines.len() > 0 || !state.body.as_str().is_empty() {
        out.append("\n\n");
        let n = state.body_lines.len();
        let mut k: usize = 0;
        while k < n
            invariant
                n == state.body_lines@.len(),
                0 <= k <= n,
                out@ == header_view(v) + "\n\n"@ + join_lines(
                    state.body_lines.deep_view().take(k as int),
                ),
                v == state@,
            decreases n - k,
        {
            if k > 0 {
                out.append("\n");
            }
            out.append(state.body_lines[k].as_str());
            proof {
                let dv = state.body_lines.deep_view();
                assert(dv.take(k + 1).drop_last() =~= dv.take(k as int));
                assert(dv.take(k + 1).last() == dv[k as int]);
                assert(dv[k as int] == state.body_lines@[k as int]@);
                if k == 0 {
                    assert(join_lines(dv.take(1)) == dv[0]);
                    assert(join_lines(dv.take(0)) =~= Seq::<char>::empty());
                    assert((header_view(v) + "\n\n"@ + Seq::<char>::empty()) =~= header_view(v)
                        + "\n\n"@);
                    assert(out@ =~= header_view(v) + "\n\n"@ + join_lines(dv.take(1)));
                } else {
                    assert(join_lines(dv.take(k + 1)) == join_lines(dv.take(k as int)) + "\n"@
                        + dv[k as int]);
                    assert(out@ =~= header_view(v) + "\n\n"@ + join_lines(dv.take(k + 1)));
                }
            }
            k = k + 1;
        }
        proof {
            assert(state.body_lines.deep_view().take(n as int) =~= state.body_lines.deep_view());
        }
        if !state.body.as_str().is_empty() {
            if state.body_lines.len() > 0 {
                out.append("\n");
            }
            out.append(state.body.as_str());
            proof {
                let dv = state.body_lines.deep_view();
                assert(lines =~= dv.push(v.body));
                assert(lines.drop_last() =~= dv);
                assert(lines.last() == v.body);
                if dv.len() == 0 {
                    assert(join_lines(lines) == v.body);
                    assert(out@ =~= header_view(v) + "\n\n"@ + join_lines(lines));
                } else {
                    assert(join_lines(lines) == join_lines(dv) + "\n"@ + v.body);
                    assert(out@ =~= header_view(v) + "\n\n"@ + join_lines(lines));
                }
            }
        }
        proof {
            assert(out@ =~= body_section_view(v));
        }
    } else {
        proof {
            assert(lines.len() == 0);
            assert(out@ =~= body_section_view(v));
        }
    }
    let btrim = text::trim_str(state.breaking.as_str());
    if !btrim.as_str().is_empty() {
        append_blank_sep(&mut out);
        out.append("BREAKING CHANGE: ");
        out.append(btrim.as_str());
        proof {
            assert(out@ =~= with_footer_view(body_section_view(v), breaking_footer_view(v.breaking)));
        }
    }
    let ghost stage2 = with_footer_view(body_section_view(v), breaking_footer_view(v.breaking));
    proof {
        assert(out@ =~= stage2);
    }
    let itrim = text::trim_str(state.issues.as_str());
    if !itrim.as_str().is_empty() {
        append_blank_sep(&mut out);
        out.append(itrim.as_str());
    }
    proof {
        assert(out@ =~= with_footer_view(stage2, trim_view(v.issues)));
    }
    if !ends_with_nl(out.as_str()) {
        out.append("\n");
    }
    proof {
        assert(out@ =~= assembled_view(v));
    }
    out
}

} // verus!
