use bounty_hunter::scanner::{
    bounties_from_issues, first_of_each_issue, has_bounty_label, is_reward_issue,
    label_marks_bounty, lead_from_issue, merge_leads, mentions_reward, parse_reward_info,
    rank_leads, reward_info_for, BountyLead, IssueRecord,
};

fn lead(repository: &str, number: u64, reward: &str) -> BountyLead {
    BountyLead {
        number,
        title: format!("Issue {}", number),
        body: String::new(),
        labels: Vec::new(),
        reward_estimate: reward.to_string(),
        difficulty: "Normal".to_string(),
        url: format!("https://example.org/{}/{}", repository, number),
        repository: repository.to_string(),
    }
}

fn issue(number: u64, body: &str, labels: &[&str], is_pull_request: bool) -> IssueRecord {
    IssueRecord {
        number,
        title: format!("Issue {}", number),
        body: body.to_string(),
        labels: labels.iter().map(|s| s.to_string()).collect(),
        is_pull_request,
        html_url: format!("https://example.org/issues/{}", number),
    }
}

#[test]
fn score_follows_the_reward_ladder() {
    assert_eq!(lead("r", 1, "100+ RTC").score(), 100);
    assert_eq!(lead("r", 1, "50 RTC").score(), 80);
    assert_eq!(lead("r", 1, "25 RTC").score(), 50);
    assert_eq!(lead("r", 1, "10 RTC").score(), 20);
    assert_eq!(lead("r", 1, "Unspecified").score(), 20);
}

#[test]
fn reward_tier_takes_the_first_match() {
    assert_eq!(reward_info_for("pays 100 rtc"), ("100+ RTC".to_string(), "Normal".to_string()));
    assert_eq!(reward_info_for("pays 150 rtc").0, "50 RTC");
    assert_eq!(reward_info_for("25 or 10").0, "25 RTC");
    assert_eq!(reward_info_for("10 tokens").0, "10 RTC");
    assert_eq!(reward_info_for("no amount").0, "Unspecified");
}

#[test]
fn difficulty_tiers() {
    assert_eq!(parse_reward_info("A SECURITY issue, high priority").1, "Critical");
    assert_eq!(parse_reward_info("High priority").1, "High");
    assert_eq!(parse_reward_info("Medium effort").1, "Medium");
    assert_eq!(parse_reward_info("whatever").1, "Normal");
}

#[test]
fn reward_words_are_case_insensitive() {
    assert!(is_reward_issue("BOUNTY available"));
    assert!(is_reward_issue("Payment on merge"));
    assert!(!is_reward_issue("Just a bug"));
    assert!(mentions_reward("earn 5 rtc"));
    assert!(!mentions_reward("EARN 5 RTC"));
}

#[test]
fn bounty_labels() {
    assert!(label_marks_bounty("paid-task"));
    assert!(!label_marks_bounty("Bounty"));
    assert!(has_bounty_label(&vec!["bug".to_string(), "Bounty: 50".to_string()]));
    assert!(!has_bounty_label(&vec!["bug".to_string()]));
    assert!(!has_bounty_label(&Vec::new()));
}

#[test]
fn pull_requests_and_plain_issues_are_skipped() {
    assert!(lead_from_issue("o/r", &issue(1, "bounty 100", &[], true)).is_none());
    assert!(lead_from_issue("o/r", &issue(2, "plain bug", &["bug"], false)).is_none());
    let l = lead_from_issue("o/r", &issue(3, "plain bug", &["Reward"], false)).unwrap();
    assert_eq!(l.reward_estimate, "Unspecified");
    assert_eq!(l.repository, "o/r");
}

#[test]
fn leads_are_selected_tagged_and_ranked() {
    let issues = vec![
        issue(1, "Bounty: 25 RTC", &[], false),
        issue(2, "plain bug report", &[], false),
        issue(3, "Bounty: 100 RTC, security", &[], false),
        issue(4, "bounty 100", &[], true),
        issue(5, "Reward 50", &["bug"], false),
    ];
    let leads = bounties_from_issues("owner", "repo", &issues);
    let numbers: Vec<u64> = leads.iter().map(|l| l.number).collect();
    assert_eq!(numbers, vec![3, 5, 1]);
    assert!(leads.iter().all(|l| l.repository == "owner/repo"));
    assert_eq!(leads[0].reward_estimate, "100+ RTC");
    assert_eq!(leads[0].difficulty, "Critical");
    assert_eq!(leads[0].url, "https://example.org/issues/3");
}

#[test]
fn ranking_is_stable_within_a_score() {
    let leads = vec![
        lead("r", 1, "10 RTC"),
        lead("r", 2, "100+ RTC"),
        lead("r", 3, "Unspecified"),
        lead("r", 4, "100+ RTC"),
        lead("r", 5, "25 RTC"),
    ];
    let ranked: Vec<u64> = rank_leads(&leads).iter().map(|l| l.number).collect();
    assert_eq!(ranked, vec![2, 4, 5, 1, 3]);
    assert!(rank_leads(&Vec::new()).is_empty());
}

#[test]
fn merge_keeps_one_lead_per_issue() {
    let a = vec![lead("repoA", 7, "50 RTC"), lead("repoA", 8, "10 RTC")];
    let b = vec![lead("repoB", 7, "10 RTC"), lead("repoA", 7, "50 RTC")];
    let merged = merge_leads(&vec![a, b]);
    let with_key = merged.iter().filter(|l| l.repository == "repoA" && l.number == 7).count();
    assert_eq!(with_key, 1);
    let keys: Vec<(String, u64)> = merged.iter().map(|l| (l.repository.clone(), l.number)).collect();
    assert_eq!(
        keys,
        vec![("repoA".to_string(), 7), ("repoA".to_string(), 8), ("repoB".to_string(), 7)]
    );
}

#[test]
fn merge_keeps_the_highest_ranked_copy() {
    let a = vec![lead("repoA", 7, "10 RTC")];
    let b = vec![lead("repoA", 7, "100+ RTC")];
    let merged = merge_leads(&vec![a, b]);
    assert_eq!(merged.len(), 1);
    assert_eq!(merged[0].reward_estimate, "100+ RTC");
    assert!(merge_leads(&Vec::new()).is_empty());
}

#[test]
fn dedup_needs_no_adjacency() {
    let leads = vec![lead("x", 1, "a"), lead("y", 1, "a"), lead("x", 1, "b")];
    let kept = first_of_each_issue(&leads);
    assert_eq!(kept.len(), 2);
    assert_eq!(kept[0].reward_estimate, "a");
    assert_eq!(kept[1].repository, "y");
}
