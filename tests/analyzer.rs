use bounty_hunter::analyzer::{
    analyze_bounty, assess_complexity, complexity_for, dependencies_for, estimate_effort,
    extract_requirements, find_dependencies, generate_implementation_notes, identify_risks,
    implementation_notes_for, line_requirements, risks_for, Complexity,
};

fn strings(v: &[&str]) -> Vec<String> {
    v.iter().map(|s| s.to_string()).collect()
}

const ALL: [Complexity; 5] = [
    Complexity::Trivial,
    Complexity::Easy,
    Complexity::Medium,
    Complexity::Hard,
    Complexity::Expert,
];

#[test]
fn effort_is_fixed_per_tier() {
    assert_eq!(estimate_effort(&Complexity::Trivial), "< 1 hour");
    assert_eq!(estimate_effort(&Complexity::Easy), "1-4 hours");
    assert_eq!(estimate_effort(&Complexity::Medium), "4-8 hours");
    assert_eq!(estimate_effort(&Complexity::Hard), "8-16 hours");
    assert_eq!(estimate_effort(&Complexity::Expert), "16+ hours");
}

#[test]
fn effort_is_distinct_and_stable() {
    for a in ALL.iter() {
        assert_eq!(estimate_effort(a), estimate_effort(a));
        for b in ALL.iter() {
            if a != b {
                assert_ne!(estimate_effort(a), estimate_effort(b));
            }
        }
    }
}

#[test]
fn labels_name_each_tier() {
    assert_eq!(Complexity::Trivial.as_str(), "🔵 Trivial (< 1 hour)");
    assert_eq!(Complexity::Expert.as_str(), "🔴 Expert (16+ hours)");
    assert_eq!(Complexity::Medium.as_str(), "🟡 Medium (4-8 hours)");
}

#[test]
fn security_title_is_expert_whatever_the_body() {
    let reqs = strings(&["fix typo", "minor update"]);
    assert_eq!(assess_complexity(&reqs, "Security hole in login"), Complexity::Expert);
    assert_eq!(assess_complexity(&Vec::new(), "SECURITY"), Complexity::Expert);
    let heavy = strings(&["async consensus crypto"; 12]);
    assert_eq!(assess_complexity(&heavy, "security audit"), Complexity::Expert);
}

#[test]
fn title_short_circuits_in_order() {
    let reqs = strings(&["async distributed consensus"; 4]);
    assert_eq!(assess_complexity(&reqs, "Refactor the scheduler"), Complexity::Hard);
    assert_eq!(assess_complexity(&reqs, "Add tests for parser"), Complexity::Trivial);
    assert_eq!(assess_complexity(&reqs, "Critical refactor"), Complexity::Expert);
}

#[test]
fn plain_body_has_no_requirements_and_is_trivial() {
    let body = "This is a plain description.\nNothing else to say here.";
    let reqs = extract_requirements(body);
    assert!(reqs.is_empty());
    assert_eq!(assess_complexity(&reqs, "Improve sync"), Complexity::Trivial);
}

#[test]
fn bulleted_scenario_has_three_requirements() {
    let body = "- fix the bug\n- add database integration\n- handle async errors";
    let reqs = extract_requirements(body);
    assert_eq!(
        reqs,
        strings(&["fix the bug", "add database integration", "handle async errors"])
    );
    // fix -1, database/integration +2 once, async +3, three requirements 0: score 4.
    assert_eq!(assess_complexity(&reqs, "Improve sync"), Complexity::Medium);
    let a = analyze_bounty(1, "Improve sync", body);
    assert_eq!(a.technical_complexity, Complexity::Medium);
    assert_eq!(a.estimated_effort, "4-8 hours");
}

#[test]
fn scores_map_to_tiers() {
    assert_eq!(complexity_for(&strings(&["handle async errors"]), "x"), Complexity::Easy);
    assert_eq!(complexity_for(&strings(&["a", "b", "handle async errors"]), "x"), Complexity::Medium);
    assert_eq!(complexity_for(&strings(&["simple fix"]), "x"), Complexity::Trivial);
    assert_eq!(
        complexity_for(&strings(&["async api", "crypto database", "consensus performance"]), "x"),
        Complexity::Expert
    );
}

#[test]
fn each_keyword_set_counts_once_per_requirement() {
    // 3 once for the heavy set, minus 1 for two requirements: score 2.
    assert_eq!(
        complexity_for(&strings(&["async concurrent distributed consensus crypto"]), "x"),
        Complexity::Easy
    );
    // 3 + 2 - 1 once each, minus 1: score 3.
    assert_eq!(
        complexity_for(&strings(&["async crypto database api simple minor fix"]), "x"),
        Complexity::Medium
    );
}

#[test]
fn count_factor_rewards_long_lists() {
    let six = strings(&["aaaa"; 6]);
    assert_eq!(complexity_for(&six, "x"), Complexity::Easy);
    let eleven = strings(&["aaaa"; 11]);
    assert_eq!(complexity_for(&eleven, "x"), Complexity::Easy);
    let mut twelve = strings(&["aaaa"; 11]);
    twelve.push("add api".to_string());
    assert_eq!(complexity_for(&twelve, "x"), Complexity::Medium);
}

#[test]
fn bullet_markers_are_stripped_once() {
    assert_eq!(line_requirements("- write docs"), strings(&["write docs"]));
    assert_eq!(line_requirements("* write docs"), strings(&["write docs"]));
    assert_eq!(line_requirements("1. write docs"), strings(&["write docs"]));
    assert_eq!(line_requirements("- - nested"), strings(&["- nested"]));
    assert_eq!(line_requirements("- abc"), Vec::<String>::new());
    assert_eq!(line_requirements("1.5 million"), Vec::<String>::new());
}

#[test]
fn directive_lines_count_twice_when_bulleted() {
    assert_eq!(
        line_requirements("- it must compile"),
        strings(&["it must compile", "- it must compile"])
    );
    assert_eq!(line_requirements("we need to ship"), strings(&["we need to ship"]));
}

#[test]
fn extraction_trims_and_lowercases() {
    let body = "  - Implement The Parser  \r\nYou SHOULD add logs\n\n* ok";
    assert_eq!(
        extract_requirements(body),
        strings(&["implement the parser", "you should add logs"])
    );
}

#[test]
fn empty_body_has_no_requirements() {
    assert!(extract_requirements("").is_empty());
}

#[test]
fn breaking_and_production_give_two_risks_in_order() {
    let risks = identify_risks("This is a BREAKING change for production users", &Vec::new());
    assert_eq!(
        risks,
        strings(&[
            "Breaking change - requires migration guide",
            "Production impact - requires thorough testing",
        ])
    );
}

#[test]
fn every_risk_in_order() {
    let reqs = strings(&["aaaa"; 11]);
    let risks = risks_for("breaking live vulnerability external", reqs.len());
    assert_eq!(
        risks,
        strings(&[
            "Breaking change - requires migration guide",
            "Production impact - requires thorough testing",
            "Security-sensitive - requires security review",
            "External dependency - may break if API changes",
            "Many requirements - risk of scope creep",
        ])
    );
    assert!(risks_for("nothing risky", 10).is_empty());
}

#[test]
fn dependencies_in_order() {
    assert_eq!(
        find_dependencies("Uses Tokio, SERDE, a SQL store and an HTTP api"),
        strings(&["tokio async runtime", "serde serialization", "database backend", "HTTP client library"])
    );
    assert_eq!(dependencies_for("async database"), strings(&["tokio async runtime", "database backend"]));
    assert!(dependencies_for("plain").is_empty());
}

#[test]
fn notes_follow_tier_and_title() {
    assert_eq!(
        implementation_notes_for("fix", &Complexity::Medium),
        "- Standard implementation approach\n- Add unit tests for edge cases"
    );
    assert_eq!(
        generate_implementation_notes("Refactor storage", &Complexity::Hard),
        "⚠️ Complex implementation - consider phased approach\n- Break into smaller PRs if possible\n- Add comprehensive tests\n- Follow existing code patterns\n- Preserve existing behavior"
    );
    assert_eq!(
        generate_implementation_notes("Typo", &Complexity::Easy),
        "- Straightforward fix\n- Quick turnaround expected"
    );
}

#[test]
fn analysis_ties_the_parts_together() {
    let a = analyze_bounty(
        42,
        "Add async API integration",
        "- implement async client\n- add database layer\nIt must handle production traffic",
    );
    assert_eq!(a.number, 42);
    assert_eq!(a.title, "Add async API integration");
    assert_eq!(
        a.requirements,
        strings(&["implement async client", "add database layer", "it must handle production traffic"])
    );
    // async +3, database +2, three requirements 0: score 5.
    assert_eq!(a.technical_complexity, Complexity::Hard);
    assert_eq!(a.estimated_effort, "8-16 hours");
    assert_eq!(a.risks, strings(&["Production impact - requires thorough testing"]));
    assert_eq!(a.dependencies, strings(&["tokio async runtime", "database backend"]));
    assert!(a.implementation_notes.starts_with("⚠️ Complex implementation"));
}
