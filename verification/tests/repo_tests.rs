use git_ignore::repo::Repo;

/// A small repository tree with a `.gitignore` at the root and another one
/// nested two directories deep, the latter re-including the `*.no` files the
/// root excludes and excluding `*.greeting` files of its own.
fn test_repo() -> Repo {
    let sources: Vec<(String, Vec<String>)> = vec![
        (
            "/fake_repo".to_string(),
            vec![
                "*.no".to_string(),
                "not_me_either/".to_string(),
                "/or_even_me".to_string(),
            ],
        ),
        (
            "/fake_repo/a_dir/a_nested_dir".to_string(),
            vec!["*.greeting".to_string(), "!*.no".to_string()],
        ),
    ];
    Repo::new("/fake_repo", &sources)
}

#[test]
fn is_ignored_is_false_for_all_expected_files() {
    let repo = test_repo();

    assert!(!repo.is_ignored(".badgitignore", false));
    assert!(!repo.is_ignored(".gitignore", false));
    assert!(!repo.is_ignored("also_include_me", false));
    assert!(!repo.is_ignored("include_me", false));
    assert!(!repo.is_ignored("im_included/hello.greeting", false));
    assert!(!repo.is_ignored("a_dir/a_nested_dir/.gitignore", false));
    assert!(!repo.is_ignored("a_dir/a_nested_dir/deeper_still/bit_now_i_work.no", false));
}

#[test]
fn is_ignored_is_true_for_all_expected_files() {
    let repo = test_repo();

    assert!(repo.is_ignored("not_me.no", false));
    assert!(repo.is_ignored("or_even_me", false));
    assert!(repo.is_ignored("or_me.no", false));
    assert!(repo.is_ignored("a_dir/a_nested_dir/deeper_still/hello.greeting", false));
    assert!(repo.is_ignored("a_dir/a_nested_dir/deeper_still/hola.greeting", false));
}

#[test]
fn is_ignored_is_false_for_all_expected_directories() {
    let repo = test_repo();

    assert!(!repo.is_ignored("im_included", true));
    assert!(!repo.is_ignored("a_dir/a_nested_dir", true));
}

#[test]
fn is_ignored_is_true_for_all_expected_directories() {
    let repo = test_repo();

    assert!(repo.is_ignored("not_me_either", true));
}
