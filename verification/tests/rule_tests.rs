use git_ignore::rule::Rule;

#[test]
fn test_new_git_ignore_pattern() {
    let gip = Rule::new("*.foo", "/wing").unwrap();
    assert!(gip.pattern == glob::Pattern::new("*.foo").unwrap());
    assert!(gip.anchored == false);
    assert!(gip.directory == false);
    assert!(gip.negation == false);
}

#[test]
fn test_new_anchored_git_ignore_pattern() {
    let gip = Rule::new("/*.foo", "/wing").unwrap();
    assert!(gip.pattern == glob::Pattern::new("/wing/*.foo").unwrap());
    assert!(gip.anchored == true);
    assert!(gip.directory == false);
    assert!(gip.negation == false);
}

#[test]
fn test_new_anchored_git_ignore_pattern_with_trailing_slash_on_root() {
    let gip = Rule::new("/*.foo", "/wing/").unwrap();
    assert!(gip.pattern == glob::Pattern::new("/wing/*.foo").unwrap());
    assert!(gip.anchored == true);
    assert!(gip.directory == false);
    assert!(gip.negation == false);
}

#[test]
fn test_new_directory_git_ignore_pattern() {
    let gip = Rule::new("foo/", "/wing").unwrap();
    assert!(gip.pattern == glob::Pattern::new("*foo").unwrap());
    assert!(gip.anchored == false);
    assert!(gip.directory == true);
    assert!(gip.negation == false);
}

#[test]
fn test_new_negated_git_ignore_pattern() {
    let gip = Rule::new("! *.foo", "/wing").unwrap();
    assert!(gip.pattern == glob::Pattern::new("*.foo").unwrap());
    assert!(gip.anchored == false);
    assert!(gip.directory == false);
    assert!(gip.negation == true);
}

#[test]
fn test_matches_simple() {
    // returns true when given a path that matches a pattern of the format "something"
    let gip = Rule::new("foo", "/").unwrap();
    assert!(gip.is_excluded("foo", false));
}

#[test]
fn test_matches_unanchored_on_wildcard() {
    // returns true when given a path that matches a pattern of the format "*.something"
    let gip = Rule::new("*.foo", "/").unwrap();
    assert!(gip.is_excluded("bar.foo", false));
}

#[test]
fn test_matches_negated() {
    // returns false when given a path that has a negation pattern
    let gip = Rule::new("! foo", "/").unwrap();
    assert!(!gip.is_excluded("foo", false));
}

#[test]
fn test_matches_unanchored_on_nested_file() {
    // returns true when given a nested path that matches an unanchored wildcard pattern
    let gip = Rule::new("*.foo", "/").unwrap();
    assert!(gip.is_excluded("lux/bar.foo", false));
}

#[test]
fn test_matches_unanchored_on_nested_dir() {
    // returns true when given a nested path that matches an unanchored wildcard pattern
    let gip = Rule::new("*foo", "/").unwrap();
    assert!(gip.is_excluded("lux/bar/foo", false));
}

#[test]
fn test_matches_anchored_on_nested_file() {
    // returns false when given a nested path that matches an anchored wildcard pattern
    let gip = Rule::new("/*.foo", "/").unwrap();
    assert!(!gip.is_excluded("lux/bar.foo", false));
}

#[test]
fn test_matches_anchored_on_nested_dir() {
    // returns false when given a nested path that matches an anchored wildcard pattern
    let gip = Rule::new("/foo/*", "/").unwrap();
    assert!(!gip.is_excluded("foo/bar/lux", false));
}

#[test]
fn test_matches_directory_on_directory() {
    // returns true when given a path that is a directory and it matches a directory only pattern
    let gip = Rule::new("foo/", "/").unwrap();
    assert!(gip.is_excluded("foo", true));
}

#[test]
fn test_matches_directory_on_file() {
    // returns false when given a path that is a file and it matches a directory only pattern
    let gip = Rule::new("foo/", "/").unwrap();
    assert!(!gip.is_excluded("foo", false));
}

#[test]
fn test_double_star_matches_nested_dir() {
    let gip = Rule::new("foo/**", "/").unwrap();
    assert!(gip.is_excluded("foo/bar", true));
}

#[test]
fn test_negate_double_star_matches_nested_dir() {
    let gip = Rule::new("!foo/**", "/").unwrap();
    assert!(!gip.is_excluded("foo/bar", true));
}

#[test]
fn test_double_star_matches_nested_file() {
    let gip = Rule::new("foo/**", "/").unwrap();
    assert!(gip.is_excluded("foo/bar/index.html", false));
}

#[test]
fn test_negate_double_star_matches_nested_file() {
    let gip = Rule::new("!foo/**", "/").unwrap();
    assert!(!gip.is_excluded("foo/bar/index.html", false));
}
