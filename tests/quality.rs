use bounty_hunter::quality::{
    any_file_is, assess_commit_messages, assess_submission, check_code_quality, file_is,
    FileKind,
};

fn names(v: &[&str]) -> Vec<String> {
    v.iter().map(|s| s.to_string()).collect()
}

#[test]
fn empty_dirty_submission_fails_with_fifteen() {
    let r = assess_submission(&None, &Vec::new(), "dirty");
    let scores: Vec<u64> = r.checks.iter().map(|c| c.score).collect();
    assert_eq!(scores, vec![0, 5, 5, 0, 5]);
    let maxes: Vec<u64> = r.checks.iter().map(|c| c.max_score).collect();
    assert_eq!(maxes, vec![10, 15, 10, 10, 10]);
    assert_eq!(r.score, 15);
    assert_eq!(r.max_score, 55);
    assert!(!r.passed);
    assert_eq!(r.summary(), "❌ FAILED (27.3% - 15/55 points)");
    let empty = assess_submission(&Some(String::new()), &Vec::new(), "dirty");
    assert_eq!(empty.score, 15);
    assert!(!empty.checks[0].passed);
}

#[test]
fn complete_clean_submission_passes_with_full_marks() {
    let files = names(&["tests/foo_test.py", "README.md", "main.go"]);
    let r = assess_submission(&Some("Fixes the bug".to_string()), &files, "clean");
    let scores: Vec<u64> = r.checks.iter().map(|c| c.score).collect();
    assert_eq!(scores, vec![10, 15, 10, 10, 10]);
    assert_eq!(r.score, 55);
    assert_eq!(r.max_score, 55);
    assert!(r.passed);
    assert!(r.checks.iter().all(|c| c.passed));
    assert_eq!(r.checks[4].message, "PR is mergeable (state: clean)");
    assert_eq!(r.summary(), "✅ PASSED (100.0% - 55/55 points)");
}

#[test]
fn passing_line_is_half_the_points() {
    // description 10 + tests 5 + docs 5 + code 10 + merge 5 = 35 of 55.
    let r = assess_submission(&Some("x".to_string()), &names(&["src/lib.rs"]), "blocked");
    assert_eq!(r.score, 35);
    assert!(r.passed);
    assert_eq!(
        r.checks[4].message,
        "⚠️ PR has merge conflicts or needs rebasing (state: blocked)"
    );
    let names_of: Vec<String> = r.checks.iter().map(|c| c.name.clone()).collect();
    assert_eq!(
        names_of,
        names(&["PR Description", "Tests Included", "Documentation Updated", "Contains Code", "Merge Ready"])
    );
}

#[test]
fn has_hooks_is_merge_ready() {
    let r = assess_submission(&None, &Vec::new(), "has_hooks");
    assert!(r.checks[4].passed);
    assert_eq!(r.score, 20);
}

#[test]
fn file_kinds() {
    assert!(file_is(FileKind::Test, "src/parser_test.rs"));
    assert!(file_is(FileKind::Test, "testing/helpers.py"));
    assert!(!file_is(FileKind::Test, "src/Test.rs"));
    assert!(file_is(FileKind::Doc, "docs/guide.md"));
    assert!(file_is(FileKind::Doc, "README"));
    assert!(!file_is(FileKind::Doc, "readme.txt"));
    assert!(file_is(FileKind::Code, "app.js"));
    assert!(!file_is(FileKind::Code, "main.go"));
    assert!(!any_file_is(&Vec::new(), FileKind::Code));
    assert!(any_file_is(&names(&["a.txt", "b.py"]), FileKind::Code));
}

#[test]
fn good_commit_history_passes() {
    let r = assess_commit_messages(&names(&["Add the parser module", "Fix overflow in lexer"]));
    assert!(r.passed);
    assert_eq!(r.score, 20);
    assert_eq!(r.max_score, 20);
    assert_eq!(r.checks.len(), 1);
    assert_eq!(r.checks[0].message, "2 commits with descriptive messages");
    assert_eq!(r.summary(), "✅ PASSED (100.0% - 20/20 points)");
}

#[test]
fn poor_commit_history_fails() {
    let short = assess_commit_messages(&names(&["Add parser module", "wip"]));
    assert!(!short.passed);
    assert_eq!(short.score, 5);
    assert_eq!(short.max_score, 20);
    assert_eq!(short.checks[0].message, "Some commits have poor messages");
    let merge = assess_commit_messages(&names(&["Merge branch 'main' into feature"]));
    assert!(!merge.passed);
    let ten = assess_commit_messages(&names(&["0123456789"]));
    assert!(!ten.passed);
    let none = assess_commit_messages(&Vec::new());
    assert!(none.passed);
    assert_eq!(none.checks[0].message, "0 commits with descriptive messages");
}

#[test]
fn code_quality_needs_manual_review() {
    let r = check_code_quality("src/lib.rs");
    assert!(r.passed);
    assert_eq!(r.score, 100);
    assert_eq!(r.checks[0].name, "Code Quality");
    assert_eq!(r.checks[0].message, "Manual review required");
}

#[test]
fn summary_rounds_to_one_decimal() {
    let r = assess_commit_messages(&names(&["x"]));
    assert_eq!(r.summary(), "❌ FAILED (25.0% - 5/20 points)");
    assert_eq!(r.passed, r.score * 2 >= r.max_score);
    let mut q = check_code_quality("a");
    q.score = 1;
    q.max_score = 3;
    assert_eq!(q.summary(), "✅ PASSED (33.3% - 1/3 points)");
    q.score = 2;
    assert_eq!(q.summary(), "✅ PASSED (66.7% - 2/3 points)");
    q.max_score = 0;
    q.score = 0;
    assert_eq!(q.summary(), "✅ PASSED (0.0% - 0/0 points)");
}
