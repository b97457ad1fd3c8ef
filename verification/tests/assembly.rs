use commitui::assemble::assemble_message;
use commitui::state::AppState;

fn state_with(
    ty: &str,
    scope: Option<&str>,
    subject: &str,
    body_lines: &[&str],
    breaking: &str,
    issues: &str,
) -> AppState {
    let mut st = AppState::new();
    st.chosen_type = Some(ty.to_string());
    st.chosen_scope = scope.map(|s| s.to_string());
    st.subject = subject.to_string();
    st.body_lines = body_lines.iter().map(|l| l.to_string()).collect();
    st.breaking = breaking.to_string();
    st.issues = issues.to_string();
    st
}

#[test]
fn header_only_message() {
    let st = state_with("feat", None, "add login", &[], "", "");
    assert_eq!(assemble_message(&st), "feat: add login\n");
}

#[test]
fn header_with_scope_and_body() {
    let st = state_with("fix", Some("api"), "handle timeout", &["retries added"], "", "");
    assert_eq!(
        assemble_message(&st),
        "fix(api): handle timeout\n\nretries added\n"
    );
}

#[test]
fn breaking_footer_after_body() {
    let st = state_with(
        "fix",
        Some("api"),
        "handle timeout",
        &["retries added"],
        "removes old flag",
        "",
    );
    let msg = assemble_message(&st);
    assert_eq!(
        msg,
        "fix(api): handle timeout\n\nretries added\n\nBREAKING CHANGE: removes old flag\n"
    );
    assert!(msg.ends_with("retries added\n\nBREAKING CHANGE: removes old flag\n"));
}

#[test]
fn assembly_is_deterministic() {
    let a = state_with("feat", Some("ui"), "polish", &["one", "two"], "layout", "closes #4");
    let b = state_with("feat", Some("ui"), "polish", &["one", "two"], "layout", "closes #4");
    assert_eq!(assemble_message(&a), assemble_message(&b));
    assert_eq!(assemble_message(&a), assemble_message(&a));
}

#[test]
fn empty_scope_is_treated_as_absent() {
    let st = state_with("docs", Some(""), "update readme", &[], "", "");
    assert_eq!(assemble_message(&st), "docs: update readme\n");
}

#[test]
fn breaking_footer_directly_after_header() {
    let st = state_with("chore", None, "bump deps", &[], "drops old node", "");
    assert_eq!(
        assemble_message(&st),
        "chore: bump deps\n\nBREAKING CHANGE: drops old node\n"
    );
}

#[test]
fn issues_footer_after_breaking() {
    let st = state_with("fix", None, "patch leak", &[], "api shape", "closes #12");
    assert_eq!(
        assemble_message(&st),
        "fix: patch leak\n\nBREAKING CHANGE: api shape\n\ncloses #12\n"
    );
}

#[test]
fn issues_footer_directly_after_header() {
    let st = state_with("fix", None, "patch leak", &[], "", "closes #12");
    assert_eq!(assemble_message(&st), "fix: patch leak\n\ncloses #12\n");
}

#[test]
fn footers_are_trimmed() {
    let st = state_with("fix", None, "patch leak", &[], "  api shape  ", "  #9  ");
    assert_eq!(
        assemble_message(&st),
        "fix: patch leak\n\nBREAKING CHANGE: api shape\n\n#9\n"
    );
}

#[test]
fn whitespace_only_footers_are_absent() {
    let st = state_with("fix", None, "patch leak", &[], "   ", " \t ");
    assert_eq!(assemble_message(&st), "fix: patch leak\n");
}

#[test]
fn uncommitted_body_line_is_included() {
    let mut st = state_with("feat", None, "draft", &["first"], "", "");
    st.body = "second".to_string();
    assert_eq!(assemble_message(&st), "feat: draft\n\nfirst\nsecond\n");
}

#[test]
fn uncommitted_body_line_alone() {
    let mut st = state_with("feat", None, "draft", &[], "", "");
    st.body = "only".to_string();
    assert_eq!(assemble_message(&st), "feat: draft\n\nonly\n");
}

#[test]
fn multiple_body_lines_joined_by_single_newlines() {
    let st = state_with("feat", None, "draft", &["a", "b", "c"], "", "");
    assert_eq!(assemble_message(&st), "feat: draft\n\na\nb\nc\n");
}
