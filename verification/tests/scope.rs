use stream_stash::google::{compare_scope, scope_sets_equal, AUTH_SCOPE};

#[test]
fn scope_order_is_irrelevant() {
    assert!(scope_sets_equal("a b", "b a"));
    assert!(scope_sets_equal("a b", "a b"));
}

#[test]
fn missing_scope_token_fails() {
    assert!(!scope_sets_equal("a b", "a"));
}

#[test]
fn extra_scope_token_fails() {
    assert!(!scope_sets_equal("a b", "a b c"));
}

#[test]
fn scope_duplication_is_irrelevant() {
    assert!(scope_sets_equal("a a b", "b a"));
    assert!(scope_sets_equal("a", "a a a"));
}

#[test]
fn scope_whitespace_runs_are_separators() {
    assert!(scope_sets_equal("a  b", "a b"));
    assert!(scope_sets_equal(" a\tb\n", "b a"));
    assert!(!scope_sets_equal("a b", "ab"));
}

#[test]
fn empty_scope_equals_only_empty() {
    assert!(scope_sets_equal("", "   "));
    assert!(!scope_sets_equal("", "a"));
}

#[test]
fn compare_scope_accepts_reordered_grant() {
    assert!(compare_scope(AUTH_SCOPE.to_string()));
    assert!(compare_scope(
        "openid https://www.googleapis.com/auth/userinfo.email https://www.googleapis.com/auth/drive.appdata".to_string()
    ));
}

#[test]
fn compare_scope_rejects_partial_or_widened_grant() {
    assert!(!compare_scope("openid".to_string()));
    assert!(!compare_scope(format!("{AUTH_SCOPE} extra.scope")));
    assert!(!compare_scope(String::new()));
}
