//! The quality gate: a weighted rubric over a finished submission.

use vstd::prelude::*;
use crate::text::{
    contains, decimal_of, decimal_text, ends_with, has_prefix, has_sub, has_suffix, same_text,
    starts_with,
};

verus! {

/// One weighted item of a rubric.
#[derive(Debug, Clone)]
pub struct QualityCheck {
    pub name: String,
    pub passed: bool,
    pub score: u64,
    pub max_score: u64,
    pub message: String,
}

/// The result of a rubric: its checks, their points, and whether it passed.
#[derive(Debug, Clone)]
pub struct QualityReport {
    pub passed: bool,
    pub score: u64,
    pub max_score: u64,
    pub checks: Vec<QualityCheck>,
}

/// The contents of a check.
pub struct CheckView {
    pub name: Seq<char>,
    pub passed: bool,
    pub score: u64,
    pub max_score: u64,
    pub message: Seq<char>,
}

impl View for QualityCheck {
    type V = CheckView;

    open spec fn view(&self) -> CheckView {
        CheckView {
            name: self.name@,
            passed: self.passed,
            score: self.score,
            max_score: self.max_score,
            message: self.message@,
        }
    }
}

/// The contents of each check of a list.
pub open spec fn check_views(s: Seq<QualityCheck>) -> Seq<CheckView> {
    s.map_values(|c: QualityCheck| c@)
}

/// The check `name`: full points and `pass_msg` when it passed, else
/// `fail_points` and `fail_msg`.
pub open spec fn check_of(
    name: Seq<char>,
    passed: bool,
    points: u64,
    fail_points: u64,
    pass_msg: Seq<char>,
    fail_msg: Seq<char>,
) -> CheckView {
    CheckView {
        name,
        passed,
        score: if passed {
            points
        } else {
            fail_points
        },
        max_score: points,
        message: if passed {
            pass_msg
        } else {
            fail_msg
        },
    }
}

fn make_check(
    name: &str,
    passed: bool,
    points: u64,
    fail_points: u64,
    pass_msg: String,
    fail_msg: String,
) -> (c: QualityCheck)
    ensures
        c@ == check_of(name@, passed, points, fail_points, pass_msg@, fail_msg@),
{
    QualityCheck {
        name: name.to_owned(),
        passed,
        score: if passed {
            points
        } else {
            fail_points
        },
        max_score: points,
        message: if passed {
            pass_msg
        } else {
            fail_msg
        },
    }
}

/// The sum of the points of some checks.
pub open spec fn total_score(s: Seq<CheckView>) -> int
    decreases s.len(),
{
    if s.len() == 0 {
        0
    } else {
        total_score(s.drop_last()) + s.last().score
    }
}

/// The sum of the attainable points of some checks.
pub open spec fn total_max(s: Seq<CheckView>) -> int
    decreases s.len(),
{
    if s.len() == 0 {
        0
    } else {
        total_max(s.drop_last()) + s.last().max_score
    }
}

impl QualityReport {
    /// The report's totals are those of its checks, no check scores above its maximum,
    /// and the report passes exactly when it earned at least half the attainable points.
    pub open spec fn wf(&self) -> bool {
        &&& self.passed == (self.score * 2 >= self.max_score)
        &&& self.score == total_score(check_views(self.checks@))
        &&& self.max_score == total_max(check_views(self.checks@))
        &&& forall|i: int|
            0 <= i < self.checks.len() ==> (#[trigger] self.checks[i]).score
                <= self.checks[i].max_score
    }
}

/// `score` of `max` in tenths of a percent, rounded to the nearest, a tie to the
/// even neighbour; 0 when nothing was attainable.
pub open spec fn percent_tenths(score: nat, max: nat) -> nat {
    if max == 0 {
        0
    } else {
        let q = score * 1000 / max;
        let rem = score * 1000 % max;
        if 2 * rem > max || (2 * rem == max && q % 2 == 1) {
            q + 1
        } else {
            q
        }
    }
}

/// The status line of a report: pass or fail, percentage to a tenth, points earned.
pub open spec fn summary_of(passed: bool, score: nat, max: nat) -> Seq<char> {
    let t = percent_tenths(score, max);
    (if passed {
        "✅ PASSED"@
    } else {
        "❌ FAILED"@
    }) + " ("@ + decimal_of(t / 10) + "."@ + decimal_of(t % 10) + "% - "@ + decimal_of(score)
        + "/"@ + decimal_of(max) + " points)"@
}

impl QualityReport {
    /// The status line of the report, such as `✅ PASSED (100.0% - 55/55 points)`.
    pub fn summary(&self) -> (r: String)
        ensures
            r@ == summary_of(self.passed, self.score as nat, self.max_score as nat),
    {
        let status = if self.passed {
            "✅ PASSED"
        } else {
            "❌ FAILED"
        };
        let tenths: u128 = if self.max_score == 0 {
            0
        } else {
            let s: u128 = self.score as u128 * 1000;
            let m: u128 = self.max_score as u128;
            let q: u128 = s / m;
            let rem: u128 = s % m;
            if 2 * rem > m || (2 * rem == m && q % 2 == 1) {
                q + 1
            } else {
                q
            }
        };
        status.to_owned().concat(" (").concat(decimal_text(tenths / 10).as_str()).concat(".").concat(
            decimal_text(tenths % 10).as_str(),
        ).concat("% - ").concat(decimal_text(self.score as u128).as_str()).concat("/").concat(
            decimal_text(self.max_score as u128).as_str(),
        ).concat(" points)")
    }
}

// ---------------------------------------------------------------------------
// The submission rubric

/// A file name that belongs to tests.
pub open spec fn is_test_file(f: Seq<char>) -> bool {
    has_sub(f, "test"@) || has_suffix(f, "_test.rs"@)
}

/// A file name that belongs to documentation.
pub open spec fn is_doc_file(f: Seq<char>) -> bool {
    has_suffix(f, ".md"@) || has_sub(f, "README"@)
}

/// A file name of source code.
pub open spec fn is_code_file(f: Seq<char>) -> bool {
    has_suffix(f, ".rs"@) || has_suffix(f, ".py"@) || has_suffix(f, ".js"@)
}

/// The kinds of changed file that the rubric looks for.
#[derive(Clone, Copy)]
pub enum FileKind {
    Test,
    Doc,
    Code,
}

/// A file name is of the given kind.
pub open spec fn is_kind(kind: FileKind, f: Seq<char>) -> bool {
    match kind {
        FileKind::Test => is_test_file(f),
        FileKind::Doc => is_doc_file(f),
        FileKind::Code => is_code_file(f),
    }
}

/// Some file of the list is of the given kind.
pub open spec fn any_of_kind(files: Seq<Seq<char>>, kind: FileKind) -> bool {
    exists|i: int| 0 <= i < files.len() && #[trigger] is_kind(kind, files[i])
}

/// Whether a file name is of the given kind.
pub fn file_is(kind: FileKind, f: &str) -> (r: bool)
    ensures
        r == is_kind(kind, f@),
{
    match kind {
        FileKind::Test => contains(f, "test") || ends_with(f, "_test.rs"),
        FileKind::Doc => ends_with(f, ".md") || contains(f, "README"),
        FileKind::Code => ends_with(f, ".rs") || ends_with(f, ".py") || ends_with(f, ".js"),
    }
}

/// Whether some file of the list is of the given kind.
pub fn any_file_is(files: &Vec<String>, kind: FileKind) -> (r: bool)
    ensures
        r == any_of_kind(files.deep_view(), kind),
{
    let mut i: usize = 0;
    while i < files.len()
        invariant
            i <= files.len(),
            forall|k: int| 0 <= k < i ==> !#[trigger] is_kind(kind, files.deep_view()[k]),
        decreases files.len() - i,
    {
        if file_is(kind, files[i].as_str()) {
            assert(is_kind(kind, files.deep_view()[i as int]));
            return true;
        }
        i = i + 1;
    }
    false
}

/// A mergeability state in which a submission can be merged.
pub open spec fn is_merge_ready(state: Seq<char>) -> bool {
    state == "clean"@ || state == "has_hooks"@
}

/// The description is present and not empty.
pub open spec fn has_description(description: Option<Seq<char>>) -> bool {
    match description {
        Some(d) => d.len() > 0,
        None => false,
    }
}

/// The five checks of a submission, in order: description, tests, documentation,
/// code, mergeability.
pub open spec fn submission_checks(
    description: Option<Seq<char>>,
    files: Seq<Seq<char>>,
    state: Seq<char>,
) -> Seq<CheckView> {
    seq![
        check_of(
            "PR Description"@,
            has_description(description),
            10,
            0,
            "PR has description"@,
            "⚠️ PR description is empty or missing"@,
        ),
        check_of(
            "Tests Included"@,
            any_of_kind(files, FileKind::Test),
            15,
            5,
            "Tests are included in the PR"@,
            "⚠️ No tests found in the PR (bonus points for adding tests)"@,
        ),
        check_of(
            "Documentation Updated"@,
            any_of_kind(files, FileKind::Doc),
            10,
            5,
            "Documentation updated"@,
            "ℹ️ No documentation changes detected"@,
        ),
        check_of(
            "Contains Code"@,
            any_of_kind(files, FileKind::Code),
            10,
            0,
            "Code changes present"@,
            "⚠️ No code files changed"@,
        ),
        check_of(
            "Merge Ready"@,
            is_merge_ready(state),
            10,
            5,
            "PR is mergeable (state: "@ + state + ")"@,
            "⚠️ PR has merge conflicts or needs rebasing (state: "@ + state + ")"@,
        ),
    ]
}

/// Evaluates a submission from its description, the names of its changed files and
/// its mergeability state. It passes when it earns at least half the attainable points.
pub fn assess_submission(
    description: &Option<String>,
    filenames: &Vec<String>,
    mergeable_state: &str,
) -> (r: QualityReport)
    ensures
        r.wf(),
        check_views(r.checks@) == submission_checks(
            match description {
                Some(d) => Some(d@),
                None => None,
            },
            filenames.deep_view(),
            mergeable_state@,
        ),
        r.max_score == 55,
        r.passed == (r.score * 2 >= r.max_score),
{
    let described = match description {
        Some(d) => d.as_str().unicode_len() > 0,
        None => false,
    };
    let desc = make_check(
        "PR Description",
        described,
        10,
        0,
        "PR has description".to_owned(),
        "⚠️ PR description is empty or missing".to_owned(),
    );
    let tests = make_check(
        "Tests Included",
        any_file_is(filenames, FileKind::Test),
        15,
        5,
        "Tests are included in the PR".to_owned(),
        "⚠️ No tests found in the PR (bonus points for adding tests)".to_owned(),
    );
    let docs = make_check(
        "Documentation Updated",
        any_file_is(filenames, FileKind::Doc),
        10,
        5,
        "Documentation updated".to_owned(),
        "ℹ️ No documentation changes detected".to_owned(),
    );
    let code = make_check(
        "Contains Code",
        any_file_is(filenames, FileKind::Code),
        10,
        0,
        "Code changes present".to_owned(),
        "⚠️ No code files changed".to_owned(),
    );
    let ready = same_text(mergeable_state, "clean") || same_text(mergeable_state, "has_hooks");
    let merge = make_check(
        "Merge Ready",
        ready,
        10,
        5,
        "PR is mergeable (state: ".to_owned().concat(mergeable_state).concat(")"),
        "⚠️ PR has merge conflicts or needs rebasing (state: ".to_owned().concat(
            mergeable_state,
        ).concat(")"),
    );
    let score = desc.score + tests.score + docs.score + code.score + merge.score;
    let max_score = desc.max_score + tests.max_score + docs.max_score + code.max_score
        + merge.max_score;
    let mut checks: Vec<QualityCheck> = Vec::new();
    checks.push(desc);
    checks.push(tests);
    checks.push(docs);
    checks.push(code);
    checks.push(merge);
    let r = QualityReport { passed: score * 2 >= max_score, score, max_score, checks };
    proof {
        reveal_with_fuel(total_score, 6);
        reveal_with_fuel(total_max, 6);
        let d = match description {
            Some(d) => Some(d@),
            None => None,
        };
        let v = check_views(r.checks@);
        assert(v =~= submission_checks(d, filenames.deep_view(), mergeable_state@));
        assert(v.drop_last().drop_last().drop_last().drop_last().drop_last() =~= Seq::<
            CheckView,
        >::empty());
    }
    r
}

// ---------------------------------------------------------------------------
// Commit history

/// A commit message is descriptive: longer than ten characters, and not a merge.
pub open spec fn is_good_message(m: Seq<char>) -> bool {
    m.len() > 10 && !has_prefix(m, "Merge"@)
}

/// Every message of the list is descriptive.
pub open spec fn all_good_messages(ms: Seq<Seq<char>>) -> bool {
    forall|i: int| 0 <= i < ms.len() ==> #[trigger] is_good_message(ms[i])
}

/// The one check of a commit history.
pub open spec fn commit_check(ms: Seq<Seq<char>>) -> CheckView {
    check_of(
        "Commit Messages"@,
        all_good_messages(ms),
        20,
        5,
        decimal_of(ms.len()) + " commits with descriptive messages"@,
        "Some commits have poor messages"@,
    )
}

/// Evaluates the messages of a submission's commits: the report passes, with 20
/// points of 20, when every message is descriptive, and fails with 5 otherwise.
pub fn assess_commit_messages(messages: &Vec<String>) -> (r: QualityReport)
    ensures
        r.wf(),
        check_views(r.checks@) == seq![commit_check(messages.deep_view())],
        r.passed == all_good_messages(messages.deep_view()),
        r.passed == (r.score * 2 >= r.max_score),
{
    let mut good = true;
    let mut i: usize = 0;
    while i < messages.len()
        invariant
            i <= messages.len(),
            good == forall|k: int| 0 <= k < i ==> #[trigger] is_good_message(messages.deep_view()[k]),
        decreases messages.len() - i,
    {
        let m = messages[i].as_str();
        let ok = m.unicode_len() > 10 && !starts_with(m, "Merge");
        assert(ok == is_good_message(messages.deep_view()[i as int]));
        good = good && ok;
        i = i + 1;
    }
    let count = decimal_text(messages.len() as u128);
    let check = make_check(
        "Commit Messages",
        good,
        20,
        5,
        count.concat(" commits with descriptive messages"),
        "Some commits have poor messages".to_owned(),
    );
    let score = check.score;
    let mut checks: Vec<QualityCheck> = Vec::new();
    checks.push(check);
    let r = QualityReport { passed: good, score, max_score: 20, checks };
    proof {
        reveal_with_fuel(total_score, 2);
        reveal_with_fuel(total_max, 2);
        let v = check_views(r.checks@);
        assert(v =~= seq![commit_check(messages.deep_view())]);
        assert(v.drop_last() =~= Seq::<CheckView>::empty());
    }
    r
}

/// The report of the code-quality review, which is left to a person: one check
/// that passes with 100 points of 100.
pub fn check_code_quality(_file_path: &str) -> (r: QualityReport)
    ensures
        r.wf(),
        r.passed,
        r.score == 100,
        r.max_score == 100,
        check_views(r.checks@) == seq![
            check_of(
                "Code Quality"@,
                true,
                100,
                100,
                "Manual review required"@,
                "Manual review required"@,
            ),
        ],
{
    let check = make_check(
        "Code Quality",
        true,
        100,
        100,
        "Manual review required".to_owned(),
        "Manual review required".to_owned(),
    );
    let mut checks: Vec<QualityCheck> = Vec::new();
    checks.push(check);
    let r = QualityReport { passed: true, score: 100, max_score: 100, checks };
    proof {
        reveal_with_fuel(total_score, 2);
        reveal_with_fuel(total_max, 2);
        let v = check_views(r.checks@);
        assert(v.drop_last() =~= Seq::<CheckView>::empty());
        assert(v =~= seq![
            check_of(
                "Code Quality"@,
                true,
                100,
                100,
                "Manual review required"@,
                "Manual review required"@,
            ),
        ]);
    }
    r
}

} // verus!
