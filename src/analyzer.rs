//! Requirement extraction and complexity classification of a bounty issue.

use vstd::prelude::*;
use crate::text::{
    contains, has_prefix, has_sub, lines, lines_of, lower_of, lowercase, starts_with,
    trim, trim_of,
};

verus! {

/// The five complexity tiers, from least to most demanding.
#[derive(Debug, Clone, Copy, PartialEq, Eq, Structural)]
pub enum Complexity {
    Trivial,
    Easy,
    Medium,
    Hard,
    Expert,
}

/// The display label of a tier.
pub open spec fn label_of(c: Complexity) -> Seq<char> {
    match c {
        Complexity::Trivial => "🔵 Trivial (< 1 hour)"@,
        Complexity::Easy => "🟢 Easy (1-4 hours)"@,
        Complexity::Medium => "🟡 Medium (4-8 hours)"@,
        Complexity::Hard => "🟠 Hard (8-16 hours)"@,
        Complexity::Expert => "🔴 Expert (16+ hours)"@,
    }
}

impl Complexity {
    /// The display label of the tier.
    pub fn as_str(&self) -> (r: &'static str)
        ensures
            r@ == label_of(*self),
    {
        match self {
            Complexity::Trivial => "🔵 Trivial (< 1 hour)",
            Complexity::Easy => "🟢 Easy (1-4 hours)",
            Complexity::Medium => "🟡 Medium (4-8 hours)",
            Complexity::Hard => "🟠 Hard (8-16 hours)",
            Complexity::Expert => "🔴 Expert (16+ hours)",
        }
    }
}

/// The effort estimate that goes with a tier.
pub open spec fn effort_of(c: Complexity) -> Seq<char> {
    match c {
        Complexity::Trivial => "< 1 hour"@,
        Complexity::Easy => "1-4 hours"@,
        Complexity::Medium => "4-8 hours"@,
        Complexity::Hard => "8-16 hours"@,
        Complexity::Expert => "16+ hours"@,
    }
}

/// The effort estimate of a tier.
pub fn estimate_effort(complexity: &Complexity) -> (r: String)
    ensures
        r@ == effort_of(*complexity),
{
    match complexity {
        Complexity::Trivial => "< 1 hour".to_owned(),
        Complexity::Easy => "1-4 hours".to_owned(),
        Complexity::Medium => "4-8 hours".to_owned(),
        Complexity::Hard => "8-16 hours".to_owned(),
        Complexity::Expert => "16+ hours".to_owned(),
    }
}

/// Distinct tiers have distinct effort estimates.
pub proof fn lemma_effort_injective(a: Complexity, b: Complexity)
    ensures
        effort_of(a) == effort_of(b) ==> a == b,
{
    reveal_strlit("< 1 hour");
    reveal_strlit("1-4 hours");
    reveal_strlit("4-8 hours");
    reveal_strlit("8-16 hours");
    reveal_strlit("16+ hours");
    if effort_of(a) == effort_of(b) {
        assert(effort_of(a)[0] == effort_of(b)[0]);
        assert(effort_of(a)[1] == effort_of(b)[1]);
        assert(effort_of(a).len() == effort_of(b).len());
    }
}

// ---------------------------------------------------------------------------
// Requirements

/// The text after a leading bullet marker (`- `, `* ` or `1. `), if the line has one.
pub open spec fn bullet_rest(line: Seq<char>) -> Option<Seq<char>> {
    if has_prefix(line, "- "@) {
        Some(line.skip("- "@.len() as int))
    } else if has_prefix(line, "* "@) {
        Some(line.skip("* "@.len() as int))
    } else if has_prefix(line, "1. "@) {
        Some(line.skip("1. "@.len() as int))
    } else {
        None
    }
}

/// The line states an obligation: it holds "should", "must" or "need to".
pub open spec fn is_directive(line: Seq<char>) -> bool {
    has_sub(line, "should"@) || has_sub(line, "must"@) || has_sub(line, "need to"@)
}

/// The requirements that one normalized line contributes: the bullet's text when it
/// is longer than three characters, then the whole line when it is a directive.
pub open spec fn line_reqs(line: Seq<char>) -> Seq<Seq<char>> {
    let bullet = match bullet_rest(line) {
        Some(rest) => if rest.len() > 3 {
            seq![rest]
        } else {
            Seq::empty()
        },
        None => Seq::empty(),
    };
    let directive = if is_directive(line) {
        seq![line]
    } else {
        Seq::empty()
    };
    bullet + directive
}

/// A line trimmed and then lowercased.
pub open spec fn normalized(line: Seq<char>) -> Seq<char> {
    lower_of(trim_of(line))
}

/// The requirements of a sequence of raw lines, in order.
pub open spec fn reqs_of_lines(ls: Seq<Seq<char>>) -> Seq<Seq<char>>
    decreases ls.len(),
{
    if ls.len() == 0 {
        Seq::empty()
    } else {
        reqs_of_lines(ls.drop_last()) + line_reqs(normalized(ls.last()))
    }
}

/// The requirements stated in an issue body.
pub open spec fn requirements_of(body: Seq<char>) -> Seq<Seq<char>> {
    reqs_of_lines(lines_of(body))
}

/// The requirements contributed by one line that is already trimmed and lowercased.
pub fn line_requirements(line: &str) -> (r: Vec<String>)
    ensures
        r.deep_view() == line_reqs(line@),
{
    let mut out: Vec<String> = Vec::new();
    let n = line.unicode_len();
    let mut skip: usize = 0;
    if starts_with(line, "- ") {
        skip = "- ".unicode_len();
    } else if starts_with(line, "* ") {
        skip = "* ".unicode_len();
    } else if starts_with(line, "1. ") {
        skip = "1. ".unicode_len();
    }
    if skip > 0 {
        let rest = line.substring_char(skip, n);
        if rest.unicode_len() > 3 {
            out.push(rest.to_owned());
        }
    }
    if contains(line, "should") || contains(line, "must") || contains(line, "need to") {
        out.push(line.to_owned());
    }
    proof {
        reveal_strlit("- ");
        reveal_strlit("* ");
        reveal_strlit("1. ");
        assert(out.deep_view() =~= line_reqs(line@));
    }
    out
}

/// The requirements stated in an issue body: each line is trimmed and lowercased,
/// then contributes its bullet text and, if it is a directive, itself.
pub fn extract_requirements(body: &str) -> (r: Vec<String>)
    ensures
        r.deep_view() == requirements_of(body@),
{
    let ls = lines(body);
    let mut out: Vec<String> = Vec::new();
    let mut i: usize = 0;
    while i < ls.len()
        invariant
            i <= ls.len(),
            ls.deep_view() == lines_of(body@),
            out.deep_view() == reqs_of_lines(ls.deep_view().take(i as int)),
        decreases ls.len() - i,
    {
        let t = trim(ls[i].as_str());
        let low = lowercase(t.as_str());
        let more = line_requirements(low.as_str());
        let ghost before = out.deep_view();
        let mut j: usize = 0;
        while j < more.len()
            invariant
                j <= more.len(),
                out.deep_view() == before + more.deep_view().take(j as int),
            decreases more.len() - j,
        {
            let ghost prev = out.deep_view();
            let item = more[j].clone();
            out.push(item);
            proof {
                assert(out.deep_view() =~= prev.push(more[j as int]@));
                assert(more.deep_view().take(j + 1) =~= more.deep_view().take(j as int).push(
                    more[j as int]@,
                ));
            }
            j = j + 1;
        }
        proof {
            let pre = ls.deep_view().take(i + 1);
            assert(pre.drop_last() =~= ls.deep_view().take(i as int));
            assert(pre.last() == ls[i as int]@);
            assert(more.deep_view().take(j as int) =~= more.deep_view());
        }
        i = i + 1;
    }
    assert(ls.deep_view().take(i as int) =~= ls.deep_view());
    out
}

// ---------------------------------------------------------------------------
// Complexity

/// `n` points when `b` holds, none otherwise.
pub open spec fn pts(b: bool, n: int) -> int {
    if b {
        n
    } else {
        0
    }
}

/// A requirement names concurrency, distribution or cryptography.
pub open spec fn has_heavy_keyword(r: Seq<char>) -> bool {
    has_sub(r, "async"@) || has_sub(r, "concurrent"@) || has_sub(r, "distributed"@) || has_sub(
        r,
        "consensus"@,
    ) || has_sub(r, "crypto"@)
}

/// A requirement names a database, an API, an integration or performance.
pub open spec fn has_medium_keyword(r: Seq<char>) -> bool {
    has_sub(r, "database"@) || has_sub(r, "api"@) || has_sub(r, "integration"@) || has_sub(
        r,
        "performance"@,
    )
}

/// A requirement names a small change.
pub open spec fn has_light_keyword(r: Seq<char>) -> bool {
    has_sub(r, "fix"@) || has_sub(r, "update"@) || has_sub(r, "minor"@) || has_sub(r, "simple"@)
}

/// The points one requirement earns, each keyword set counted at most once:
/// 3 for concurrency or cryptography, 2 for integration, minus 1 for a small change.
pub open spec fn req_points(r: Seq<char>) -> int {
    pts(has_heavy_keyword(r), 3) + pts(has_medium_keyword(r), 2) - pts(has_light_keyword(r), 1)
}

/// The keyword points of a list of requirements.
pub open spec fn keyword_score(reqs: Seq<Seq<char>>) -> int
    decreases reqs.len(),
{
    if reqs.len() == 0 {
        0
    } else {
        keyword_score(reqs.drop_last()) + req_points(reqs.last())
    }
}

/// The adjustment for the number of requirements.
pub open spec fn count_factor(n: int) -> int {
    if n <= 2 {
        -1
    } else if n <= 5 {
        0
    } else if n <= 10 {
        1
    } else {
        2
    }
}

/// The tier that a final score falls in.
pub open spec fn tier_of_score(score: int) -> Complexity {
    if score >= 8 {
        Complexity::Expert
    } else if score >= 5 {
        Complexity::Hard
    } else if score >= 3 {
        Complexity::Medium
    } else if score >= 1 {
        Complexity::Easy
    } else {
        Complexity::Trivial
    }
}

/// The tier of an issue from its requirements and its lowercased title: the
/// title decides first ("security"/"critical", then "refactor"/"architecture",
/// then "test"/"documentation"), else the requirements' score does.
pub open spec fn complexity_of(reqs: Seq<Seq<char>>, title_lower: Seq<char>) -> Complexity {
    if has_sub(title_lower, "security"@) || has_sub(title_lower, "critical"@) {
        Complexity::Expert
    } else if has_sub(title_lower, "refactor"@) || has_sub(title_lower, "architecture"@) {
        Complexity::Hard
    } else if has_sub(title_lower, "test"@) || has_sub(title_lower, "documentation"@) {
        Complexity::Trivial
    } else {
        tier_of_score(keyword_score(reqs) + count_factor(reqs.len() as int))
    }
}

fn points_if(b: bool, n: i128) -> (r: i128)
    ensures
        r == pts(b, n as int),
{
    if b {
        n
    } else {
        0
    }
}

fn requirement_points(r: &str) -> (p: i128)
    ensures
        p == req_points(r@),
        -1 <= p <= 5,
{
    let heavy = contains(r, "async") || contains(r, "concurrent") || contains(r, "distributed")
        || contains(r, "consensus") || contains(r, "crypto");
    let medium = contains(r, "database") || contains(r, "api") || contains(r, "integration")
        || contains(r, "performance");
    let light = contains(r, "fix") || contains(r, "update") || contains(r, "minor") || contains(
        r,
        "simple",
    );
    points_if(heavy, 3) + points_if(medium, 2) - points_if(light, 1)
}

/// The tier of an issue from its requirements and its already lowercased title.
pub fn complexity_for(requirements: &Vec<String>, title_lower: &str) -> (r: Complexity)
    ensures
        r == complexity_of(requirements.deep_view(), title_lower@),
{
    if contains(title_lower, "security") || contains(title_lower, "critical") {
        return Complexity::Expert;
    }
    if contains(title_lower, "refactor") || contains(title_lower, "architecture") {
        return Complexity::Hard;
    }
    if contains(title_lower, "test") || contains(title_lower, "documentation") {
        return Complexity::Trivial;
    }
    let mut score: i128 = 0;
    let mut i: usize = 0;
    while i < requirements.len()
        invariant
            i <= requirements.len(),
            score == keyword_score(requirements.deep_view().take(i as int)),
            -1 * i <= score <= 5 * i,
        decreases requirements.len() - i,
    {
        let p = requirement_points(requirements[i].as_str());
        proof {
            let pre = requirements.deep_view().take(i + 1);
            assert(pre.drop_last() =~= requirements.deep_view().take(i as int));
            assert(pre.last() == requirements[i as int]@);
        }
        score = score + p;
        i = i + 1;
    }
    assert(requirements.deep_view().take(i as int) =~= requirements.deep_view());
    let n = requirements.len();
    let factor: i128 = if n <= 2 {
        -1
    } else if n <= 5 {
        0
    } else if n <= 10 {
        1
    } else {
        2
    };
    let total = score + factor;
    if total >= 8 {
        Complexity::Expert
    } else if total >= 5 {
        Complexity::Hard
    } else if total >= 3 {
        Complexity::Medium
    } else if total >= 1 {
        Complexity::Easy
    } else {
        Complexity::Trivial
    }
}

/// The tier of an issue from its requirements and its title, compared case-insensitively.
pub fn assess_complexity(requirements: &Vec<String>, title: &str) -> (r: Complexity)
    ensures
        r == complexity_of(requirements.deep_view(), lower_of(title@)),
{
    let title_lower = lowercase(title);
    complexity_for(requirements, title_lower.as_str())
}

/// A title that mentions security makes an issue expert work, whatever its requirements.
pub proof fn lemma_security_title_is_expert(reqs: Seq<Seq<char>>, title: Seq<char>)
    requires
        has_sub(lower_of(title), "security"@),
    ensures
        complexity_of(reqs, lower_of(title)) == Complexity::Expert,
{
}

/// A body without bullets or directives yields no requirements, and without a
/// deciding title such an issue is trivial.
pub proof fn lemma_plain_body_is_trivial(body: Seq<char>, title: Seq<char>)
    requires
        forall|i: int|
            0 <= i < lines_of(body).len() ==> {
                let l = #[trigger] normalized(lines_of(body)[i]);
                bullet_rest(l) is None && !is_directive(l)
            },
    ensures
        requirements_of(body) == Seq::<Seq<char>>::empty(),
        !has_sub(lower_of(title), "security"@) && !has_sub(lower_of(title), "critical"@)
            && !has_sub(lower_of(title), "refactor"@) && !has_sub(
            lower_of(title),
            "architecture"@,
        ) ==> complexity_of(requirements_of(body), lower_of(title)) == Complexity::Trivial,
{
    lemma_plain_lines(lines_of(body));
}

proof fn lemma_plain_lines(ls: Seq<Seq<char>>)
    requires
        forall|i: int|
            0 <= i < ls.len() ==> {
                let l = #[trigger] normalized(ls[i]);
                bullet_rest(l) is None && !is_directive(l)
            },
    ensures
        reqs_of_lines(ls) == Seq::<Seq<char>>::empty(),
    decreases ls.len(),
{
    if ls.len() > 0 {
        let l = normalized(ls[ls.len() - 1]);
        assert(bullet_rest(l) is None && !is_directive(l));
        lemma_plain_lines(ls.drop_last());
        assert(line_reqs(l) =~= Seq::<Seq<char>>::empty());
        assert(reqs_of_lines(ls) =~= Seq::<Seq<char>>::empty());
    }
}

// ---------------------------------------------------------------------------
// Risks, dependencies and notes

/// `s` as a one-element list when `b` holds, else the empty list.
pub open spec fn when(b: bool, s: Seq<char>) -> Seq<Seq<char>> {
    if b {
        seq![s]
    } else {
        Seq::empty()
    }
}

/// The risks of an issue, from its lowercased body and its number of requirements,
/// each at most once and in a fixed order.
pub open spec fn risks_of(body_lower: Seq<char>, req_count: int) -> Seq<Seq<char>> {
    when(has_sub(body_lower, "breaking"@), "Breaking change - requires migration guide"@) + when(
        has_sub(body_lower, "production"@) || has_sub(body_lower, "live"@),
        "Production impact - requires thorough testing"@,
    ) + when(
        has_sub(body_lower, "security"@) || has_sub(body_lower, "vulnerability"@),
        "Security-sensitive - requires security review"@,
    ) + when(
        has_sub(body_lower, "api"@) || has_sub(body_lower, "external"@),
        "External dependency - may break if API changes"@,
    ) + when(req_count > 10, "Many requirements - risk of scope creep"@)
}

fn push_when(out: &mut Vec<String>, b: bool, s: &str)
    ensures
        final(out).deep_view() == old(out).deep_view() + when(b, s@),
{
    let ghost before = out.deep_view();
    if b {
        out.push(s.to_owned());
    }
    assert(out.deep_view() =~= before + when(b, s@));
}

/// The risks of an issue from its already lowercased body and its number of requirements.
pub fn risks_for(body_lower: &str, req_count: usize) -> (r: Vec<String>)
    ensures
        r.deep_view() == risks_of(body_lower@, req_count as int),
{
    let mut risks: Vec<String> = Vec::new();
    push_when(
        &mut risks,
        contains(body_lower, "breaking"),
        "Breaking change - requires migration guide",
    );
    push_when(
        &mut risks,
        contains(body_lower, "production") || contains(body_lower, "live"),
        "Production impact - requires thorough testing",
    );
    push_when(
        &mut risks,
        contains(body_lower, "security") || contains(body_lower, "vulnerability"),
        "Security-sensitive - requires security review",
    );
    push_when(
        &mut risks,
        contains(body_lower, "api") || contains(body_lower, "external"),
        "External dependency - may break if API changes",
    );
    push_when(&mut risks, req_count > 10, "Many requirements - risk of scope creep");
    assert(risks.deep_view() =~= risks_of(body_lower@, req_count as int));
    risks
}

/// The risks of an issue, from its body compared case-insensitively and its requirements.
pub fn identify_risks(body: &str, requirements: &Vec<String>) -> (r: Vec<String>)
    ensures
        r.deep_view() == risks_of(lower_of(body@), requirements.len() as int),
{
    let body_lower = lowercase(body);
    risks_for(body_lower.as_str(), requirements.len())
}

/// A body that speaks of a breaking change and of production, and of nothing
/// else that carries a risk, has exactly those two risks, breaking change first.
pub proof fn lemma_breaking_production_risks(body_lower: Seq<char>, req_count: int)
    requires
        has_sub(body_lower, "breaking"@),
        has_sub(body_lower, "production"@),
        !has_sub(body_lower, "security"@),
        !has_sub(body_lower, "vulnerability"@),
        !has_sub(body_lower, "api"@),
        !has_sub(body_lower, "external"@),
        req_count <= 10,
    ensures
        risks_of(body_lower, req_count) == seq![
            "Breaking change - requires migration guide"@,
            "Production impact - requires thorough testing"@,
        ],
{
    assert(risks_of(body_lower, req_count) =~= seq![
        "Breaking change - requires migration guide"@,
        "Production impact - requires thorough testing"@,
    ]);
}

/// The libraries an issue needs, from its lowercased body, each at most once and
/// in a fixed order.
pub open spec fn dependencies_of(body_lower: Seq<char>) -> Seq<Seq<char>> {
    when(
        has_sub(body_lower, "tokio"@) || has_sub(body_lower, "async"@),
        "tokio async runtime"@,
    ) + when(has_sub(body_lower, "serde"@), "serde serialization"@) + when(
        has_sub(body_lower, "database"@) || has_sub(body_lower, "sql"@),
        "database backend"@,
    ) + when(has_sub(body_lower, "api"@) || has_sub(body_lower, "http"@), "HTTP client library"@)
}

/// The libraries an issue needs, from its already lowercased body.
pub fn dependencies_for(body_lower: &str) -> (r: Vec<String>)
    ensures
        r.deep_view() == dependencies_of(body_lower@),
{
    let mut deps: Vec<String> = Vec::new();
    push_when(
        &mut deps,
        contains(body_lower, "tokio") || contains(body_lower, "async"),
        "tokio async runtime",
    );
    push_when(&mut deps, contains(body_lower, "serde"), "serde serialization");
    push_when(
        &mut deps,
        contains(body_lower, "database") || contains(body_lower, "sql"),
        "database backend",
    );
    push_when(
        &mut deps,
        contains(body_lower, "api") || contains(body_lower, "http"),
        "HTTP client library",
    );
    assert(deps.deep_view() =~= dependencies_of(body_lower@));
    deps
}

/// The libraries an issue needs, from its body compared case-insensitively.
pub fn find_dependencies(body: &str) -> (r: Vec<String>)
    ensures
        r.deep_view() == dependencies_of(lower_of(body@)),
{
    let body_lower = lowercase(body);
    dependencies_for(body_lower.as_str())
}

/// The approach note of a tier, one line per point.
pub open spec fn tier_notes(c: Complexity) -> Seq<char> {
    match c {
        Complexity::Expert | Complexity::Hard =>
            "⚠️ Complex implementation - consider phased approach\n- Break into smaller PRs if possible\n- Add comprehensive tests"@,
        Complexity::Medium => "- Standard implementation approach\n- Add unit tests for edge cases"@,
        _ => "- Straightforward fix\n- Quick turnaround expected"@,
    }
}

/// The lines added for a refactoring, each after a line feed.
pub open spec fn refactor_notes() -> Seq<char> {
    "\n- Follow existing code patterns\n- Preserve existing behavior"@
}

/// The implementation notes of an issue: its tier's note, then the refactoring
/// lines when the lowercased title mentions "refactor".
pub open spec fn notes_of(title_lower: Seq<char>, c: Complexity) -> Seq<char> {
    if has_sub(title_lower, "refactor"@) {
        tier_notes(c) + refactor_notes()
    } else {
        tier_notes(c)
    }
}

/// The implementation notes of an issue from its already lowercased title and its tier.
pub fn implementation_notes_for(title_lower: &str, complexity: &Complexity) -> (r: String)
    ensures
        r@ == notes_of(title_lower@, *complexity),
{
    let base = match complexity {
        Complexity::Expert | Complexity::Hard =>
            "⚠️ Complex implementation - consider phased approach\n- Break into smaller PRs if possible\n- Add comprehensive tests",
        Complexity::Medium => "- Standard implementation approach\n- Add unit tests for edge cases",
        _ => "- Straightforward fix\n- Quick turnaround expected",
    };
    let notes = base.to_owned();
    if contains(title_lower, "refactor") {
        notes.concat("\n- Follow existing code patterns\n- Preserve existing behavior")
    } else {
        notes
    }
}

/// The implementation notes of an issue from its title, compared case-insensitively,
/// and its tier.
pub fn generate_implementation_notes(title: &str, complexity: &Complexity) -> (r: String)
    ensures
        r@ == notes_of(lower_of(title@), *complexity),
{
    let title_lower = lowercase(title);
    implementation_notes_for(title_lower.as_str(), complexity)
}

// ---------------------------------------------------------------------------
// The whole analysis

/// The classification of one issue.
#[derive(Debug, Clone)]
pub struct BountyAnalysis {
    pub number: u64,
    pub title: String,
    pub requirements: Vec<String>,
    pub technical_complexity: Complexity,
    pub estimated_effort: String,
    pub risks: Vec<String>,
    pub dependencies: Vec<String>,
    pub implementation_notes: String,
}

/// Classifies an issue from its number, title and body: requirements, tier and
/// matching effort, risks, dependencies and notes.
pub fn analyze_bounty(number: u64, title: &str, body: &str) -> (a: BountyAnalysis)
    ensures
        a.number == number,
        a.title@ == title@,
        a.requirements.deep_view() == requirements_of(body@),
        a.technical_complexity == complexity_of(requirements_of(body@), lower_of(title@)),
        a.estimated_effort@ == effort_of(a.technical_complexity),
        a.risks.deep_view() == risks_of(lower_of(body@), requirements_of(body@).len() as int),
        a.dependencies.deep_view() == dependencies_of(lower_of(body@)),
        a.implementation_notes@ == notes_of(lower_of(title@), a.technical_complexity),
{
    let requirements = extract_requirements(body);
    let complexity = assess_complexity(&requirements, title);
    let effort = estimate_effort(&complexity);
    let risks = identify_risks(body, &requirements);
    let dependencies = find_dependencies(body);
    let notes = generate_implementation_notes(title, &complexity);
    BountyAnalysis {
        number,
        title: title.to_owned(),
        requirements,
        technical_complexity: complexity,
        estimated_effort: effort,
        risks,
        dependencies,
        implementation_notes: notes,
    }
}

} // verus!
