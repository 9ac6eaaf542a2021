use asimeow::pattern::{compile_pattern, ignore_name_matches, rule_name_matches};

#[test]
fn glob_star_matches_suffix() {
    let (p, fallback) = compile_pattern("*.csproj");
    assert!(!fallback);
    assert!(p.matches("app.csproj"));
    assert!(!p.matches("app.cs"));
}

#[test]
fn glob_question_and_brackets() {
    let (p, fallback) = compile_pattern("c?t");
    assert!(!fallback);
    assert!(p.matches("cat"));
    assert!(!p.matches("cart"));
    let (q, fallback2) = compile_pattern("k[!e]tteh");
    assert!(!fallback2);
    assert!(q.matches("kitteh"));
    assert!(!q.matches("ketteh"));
}

#[test]
fn invalid_glob_falls_back_to_literal() {
    let (p, fallback) = compile_pattern("[");
    assert!(fallback);
    assert!(p.matches("["));
    assert!(!p.matches("x"));
}

#[test]
fn invalid_glob_literal_does_not_glob() {
    // "a**b" is invalid glob syntax, so it must match only itself.
    let (p, fallback) = compile_pattern("a**b");
    assert!(fallback);
    assert!(p.matches("a**b"));
    assert!(!p.matches("axxb"));
}

#[test]
fn rule_match_is_case_insensitive() {
    assert!(rule_name_matches("Package.JSON", "PACKAGE.json"));
    assert!(rule_name_matches("package.json", "Package.Json"));
    assert!(rule_name_matches("*.CSProj", "App.csproj"));
    assert!(!rule_name_matches("package.json", "package.json5"));
}

#[test]
fn ignore_match_is_case_sensitive() {
    assert!(ignore_name_matches(".git", ".git"));
    assert!(!ignore_name_matches(".git", ".Git"));
    assert!(ignore_name_matches("*.tmp", "scratch.tmp"));
    assert!(!ignore_name_matches("*.tmp", "scratch.TMP"));
}
