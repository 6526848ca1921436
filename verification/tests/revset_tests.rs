use jj_navi::revset::{
    fileset_exact_pattern, quote_revset_string, unquote_template_string, workspace_revset_symbol,
};
use jj_navi::types::WorkspaceName;

#[test]
fn quoting_escapes_quotes_and_backslashes() {
    assert_eq!(quote_revset_string("main"), "\"main\"");
    assert_eq!(quote_revset_string("a\"b\\c"), "\"a\\\"b\\\\c\"");
    assert_eq!(quote_revset_string(""), "\"\"");
}

#[test]
fn unquoting_undoes_quoting() {
    for s in ["", "plain", "a\"b", "a\\b", "\\\"", "tab\tnew\nline", "ünï"] {
        assert_eq!(unquote_template_string(&quote_revset_string(s)), s, "{s:?}");
    }
}

#[test]
fn text_without_quotes_is_left_alone() {
    assert_eq!(unquote_template_string("plain"), "plain");
    assert_eq!(unquote_template_string("\"open"), "\"open");
}

#[test]
fn workspace_symbols_are_quoted() {
    let name = WorkspaceName::new("feature-1".to_owned()).unwrap();
    assert_eq!(workspace_revset_symbol(&name), "\"feature-1\"@");
}

#[test]
fn exact_patterns_take_metacharacters_literally() {
    assert_eq!(fileset_exact_pattern("docs/a&b.txt"), "file:\"docs/a&b.txt\"");
}
