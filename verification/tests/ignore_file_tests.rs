use git_ignore::ignore_file::IgnoreFile;
use git_ignore::ruleset::RuleSet;

fn ruleset_from_rules(raw_rules: &str) -> RuleSet {
    let rules: Vec<String> = raw_rules.lines().map(|s| s.to_string()).collect();
    RuleSet::new("foo", &rules)
}

#[test]
fn returns_correctly_an_ignorefile_from_valid_file() {
    // The lines of the valid ignore file, as its reader hands them over.
    let lines: Vec<String> = vec![
        "*.no".to_string(),
        "not_me_either/".to_string(),
        "/or_even_me".to_string(),
    ];
    let file = IgnoreFile::new("foo", &lines);
    let expected = ruleset_from_rules("*.no\nnot_me_either/\n/or_even_me");

    assert_eq!(file.ruleset.rules.len(), expected.rules.len());
    for (a, b) in file.ruleset.rules.iter().zip(expected.rules.iter()) {
        assert!(a.pattern == b.pattern);
        assert_eq!(a.anchored, b.anchored);
        assert_eq!(a.negation, b.negation);
        assert_eq!(a.directory, b.directory);
    }
}

#[test]
fn allows_passing_rows() {
    let lines: Vec<String> = vec!["*.rs".to_string(), "blah".to_string(), "kuku".to_string()];
    let ignore = IgnoreFile::new("/a/b/c/d", &lines);
    assert_eq!(ignore.ruleset.rules.len(), 3);
}
