//! Selection of bounty leads among issues, their reward tiers, and their ranking.

use vstd::prelude::*;
use crate::text::{contains, has_sub, lower_of, lowercase};

verus! {

/// One issue as the code host lists it.
pub struct IssueRecord {
    pub number: u64,
    pub title: String,
    pub body: String,
    pub labels: Vec<String>,
    pub is_pull_request: bool,
    pub html_url: String,
}

/// A candidate bounty: an open issue with its reward and difficulty tiers, tagged
/// with the repository it came from.
#[derive(Debug, Clone)]
pub struct BountyLead {
    pub number: u64,
    pub title: String,
    pub body: String,
    pub labels: Vec<String>,
    pub reward_estimate: String,
    pub difficulty: String,
    pub url: String,
    pub repository: String,
}

/// The contents of a lead.
pub struct LeadView {
    pub number: u64,
    pub title: Seq<char>,
    pub body: Seq<char>,
    pub labels: Seq<Seq<char>>,
    pub reward_estimate: Seq<char>,
    pub difficulty: Seq<char>,
    pub url: Seq<char>,
    pub repository: Seq<char>,
}

impl View for BountyLead {
    type V = LeadView;

    open spec fn view(&self) -> LeadView {
        LeadView {
            number: self.number,
            title: self.title@,
            body: self.body@,
            labels: self.labels.deep_view(),
            reward_estimate: self.reward_estimate@,
            difficulty: self.difficulty@,
            url: self.url@,
            repository: self.repository@,
        }
    }
}

/// The rank of a reward text: 100 for "100", else 80 for "50", else 50 for "25",
/// else 20.
pub open spec fn score_of(reward: Seq<char>) -> u64 {
    if has_sub(reward, "100"@) {
        100
    } else if has_sub(reward, "50"@) {
        80
    } else if has_sub(reward, "25"@) {
        50
    } else {
        20
    }
}

/// Copies a list of texts.
fn copy_texts(v: &Vec<String>) -> (r: Vec<String>)
    ensures
        r.deep_view() == v.deep_view(),
{
    let mut out: Vec<String> = Vec::new();
    let mut i: usize = 0;
    while i < v.len()
        invariant
            i <= v.len(),
            out.deep_view() == v.deep_view().take(i as int),
        decreases v.len() - i,
    {
        let ghost before = out.deep_view();
        let s = v[i].clone();
        out.push(s);
        assert(out.deep_view() =~= before.push(v[i as int]@));
        assert(v.deep_view().take(i + 1) =~= v.deep_view().take(i as int).push(v[i as int]@));
        i = i + 1;
    }
    assert(v.deep_view().take(i as int) =~= v.deep_view());
    out
}

impl BountyLead {
    /// The lead's rank: 100 when its reward text holds "100", else 80 for "50",
    /// else 50 for "25", else 20.
    pub fn score(&self) -> (r: u64)
        ensures
            r == score_of(self.reward_estimate@),
    {
        let reward = self.reward_estimate.as_str();
        if contains(reward, "100") {
            100
        } else if contains(reward, "50") {
            80
        } else if contains(reward, "25") {
            50
        } else {
            20
        }
    }

    /// A copy of the lead with the same contents.
    pub fn duplicate(&self) -> (r: BountyLead)
        ensures
            r@ == self@,
    {
        BountyLead {
            number: self.number,
            title: self.title.clone(),
            body: self.body.clone(),
            labels: copy_texts(&self.labels),
            reward_estimate: self.reward_estimate.clone(),
            difficulty: self.difficulty.clone(),
            url: self.url.clone(),
            repository: self.repository.clone(),
        }
    }
}

// ---------------------------------------------------------------------------
// Reward and difficulty tiers

/// The reward tier of a lowercased body: the first of "100", "50", "25", "10"
/// that it holds decides.
pub open spec fn reward_of(body_lower: Seq<char>) -> Seq<char> {
    if has_sub(body_lower, "100"@) {
        "100+ RTC"@
    } else if has_sub(body_lower, "50"@) {
        "50 RTC"@
    } else if has_sub(body_lower, "25"@) {
        "25 RTC"@
    } else if has_sub(body_lower, "10"@) {
        "10 RTC"@
    } else {
        "Unspecified"@
    }
}

/// The difficulty tier of a lowercased body.
pub open spec fn difficulty_of(body_lower: Seq<char>) -> Seq<char> {
    if has_sub(body_lower, "critical"@) || has_sub(body_lower, "security"@) {
        "Critical"@
    } else if has_sub(body_lower, "high"@) {
        "High"@
    } else if has_sub(body_lower, "medium"@) {
        "Medium"@
    } else {
        "Normal"@
    }
}

/// A lowercased body speaks of a reward.
pub open spec fn reward_text(body_lower: Seq<char>) -> bool {
    has_sub(body_lower, "rtc"@) || has_sub(body_lower, "reward"@) || has_sub(body_lower, "bounty"@)
        || has_sub(body_lower, "payment"@)
}

/// A lowercased label marks a bounty.
pub open spec fn bounty_label(label_lower: Seq<char>) -> bool {
    has_sub(label_lower, "bounty"@) || has_sub(label_lower, "reward"@) || has_sub(
        label_lower,
        "paid"@,
    )
}

/// One of the labels, compared case-insensitively, marks a bounty.
pub open spec fn bounty_labelled(labels: Seq<Seq<char>>) -> bool {
    exists|i: int| 0 <= i < labels.len() && #[trigger] bounty_label(lower_of(labels[i]))
}

/// Whether an already lowercased label marks a bounty.
pub fn label_marks_bounty(label_lower: &str) -> (r: bool)
    ensures
        r == bounty_label(label_lower@),
{
    contains(label_lower, "bounty") || contains(label_lower, "reward") || contains(
        label_lower,
        "paid",
    )
}

/// Whether one of the labels, compared case-insensitively, marks a bounty.
pub fn has_bounty_label(labels: &Vec<String>) -> (r: bool)
    ensures
        r == bounty_labelled(labels.deep_view()),
{
    let mut i: usize = 0;
    while i < labels.len()
        invariant
            i <= labels.len(),
            forall|k: int| 0 <= k < i ==> !#[trigger] bounty_label(lower_of(labels.deep_view()[k])),
        decreases labels.len() - i,
    {
        let low = lowercase(labels[i].as_str());
        if label_marks_bounty(low.as_str()) {
            assert(bounty_label(lower_of(labels.deep_view()[i as int])));
            return true;
        }
        i = i + 1;
    }
    false
}

/// Whether an already lowercased body speaks of a reward.
pub fn mentions_reward(body_lower: &str) -> (r: bool)
    ensures
        r == reward_text(body_lower@),
{
    contains(body_lower, "rtc") || contains(body_lower, "reward") || contains(body_lower, "bounty")
        || contains(body_lower, "payment")
}

/// Whether a body, compared case-insensitively, speaks of a reward.
pub fn is_reward_issue(body: &str) -> (r: bool)
    ensures
        r == reward_text(lower_of(body@)),
{
    let body_lower = lowercase(body);
    mentions_reward(body_lower.as_str())
}

/// The reward and difficulty tiers of an already lowercased body.
pub fn reward_info_for(body_lower: &str) -> (r: (String, String))
    ensures
        r.0@ == reward_of(body_lower@),
        r.1@ == difficulty_of(body_lower@),
{
    let reward = if contains(body_lower, "100") {
        "100+ RTC".to_owned()
    } else if contains(body_lower, "50") {
        "50 RTC".to_owned()
    } else if contains(body_lower, "25") {
        "25 RTC".to_owned()
    } else if contains(body_lower, "10") {
        "10 RTC".to_owned()
    } else {
        "Unspecified".to_owned()
    };
    let difficulty = if contains(body_lower, "critical") || contains(body_lower, "security") {
        "Critical".to_owned()
    } else if contains(body_lower, "high") {
        "High".to_owned()
    } else if contains(body_lower, "medium") {
        "Medium".to_owned()
    } else {
        "Normal".to_owned()
    };
    (reward, difficulty)
}

/// The reward and difficulty tiers of a body, compared case-insensitively.
pub fn parse_reward_info(body: &str) -> (r: (String, String))
    ensures
        r.0@ == reward_of(lower_of(body@)),
        r.1@ == difficulty_of(lower_of(body@)),
{
    let body_lower = lowercase(body);
    reward_info_for(body_lower.as_str())
}

// ---------------------------------------------------------------------------
// Selection

/// An issue is a lead: it is no pull request, and a label or its body speaks of a bounty.
pub open spec fn accepts(issue: IssueRecord) -> bool {
    !issue.is_pull_request && (bounty_labelled(issue.labels.deep_view()) || reward_text(
        lower_of(issue.body@),
    ))
}

/// The lead made of an accepted issue of `repository`.
pub open spec fn lead_of(repository: Seq<char>, issue: IssueRecord) -> LeadView {
    LeadView {
        number: issue.number,
        title: issue.title@,
        body: issue.body@,
        labels: issue.labels.deep_view(),
        reward_estimate: reward_of(lower_of(issue.body@)),
        difficulty: difficulty_of(lower_of(issue.body@)),
        url: issue.html_url@,
        repository,
    }
}

/// The leads among `issues`, in their order.
pub open spec fn leads_of(repository: Seq<char>, issues: Seq<IssueRecord>) -> Seq<LeadView>
    decreases issues.len(),
{
    if issues.len() == 0 {
        Seq::empty()
    } else {
        let pre = leads_of(repository, issues.drop_last());
        if accepts(issues.last()) {
            pre.push(lead_of(repository, issues.last()))
        } else {
            pre
        }
    }
}

/// The contents of each lead of a list.
pub open spec fn views(s: Seq<BountyLead>) -> Seq<LeadView> {
    s.map_values(|l: BountyLead| l@)
}

proof fn lemma_views_push(s: Seq<BountyLead>, x: BountyLead)
    ensures
        views(s.push(x)) == views(s).push(x@),
{
    assert(views(s.push(x)) =~= views(s).push(x@));
}

/// The lead made of an issue of `repository`, if the issue is one.
pub fn lead_from_issue(repository: &str, issue: &IssueRecord) -> (r: Option<BountyLead>)
    ensures
        r is Some <==> accepts(*issue),
        r is Some ==> r->0@ == lead_of(repository@, *issue),
{
    if issue.is_pull_request {
        return None;
    }
    let body_lower = lowercase(issue.body.as_str());
    if !has_bounty_label(&issue.labels) && !mentions_reward(body_lower.as_str()) {
        return None;
    }
    let (reward, difficulty) = reward_info_for(body_lower.as_str());
    Some(
        BountyLead {
            number: issue.number,
            title: issue.title.clone(),
            body: issue.body.clone(),
            labels: copy_texts(&issue.labels),
            reward_estimate: reward,
            difficulty,
            url: issue.html_url.clone(),
            repository: repository.to_owned(),
        },
    )
}

/// The name under which a repository's leads are tagged: `owner/repo`.
pub open spec fn repository_name(owner: Seq<char>, repo: Seq<char>) -> Seq<char> {
    owner + "/"@ + repo
}

/// The leads among the issues of `owner/repo`, ranked.
pub fn bounties_from_issues(owner: &str, repo: &str, issues: &Vec<IssueRecord>) -> (r: Vec<
    BountyLead,
>)
    ensures
        views(r@) == ranked(leads_of(repository_name(owner@, repo@), issues@)),
{
    let repository = owner.to_owned().concat("/").concat(repo);
    let mut leads: Vec<BountyLead> = Vec::new();
    let mut i: usize = 0;
    while i < issues.len()
        invariant
            i <= issues.len(),
            repository@ == repository_name(owner@, repo@),
            views(leads@) == leads_of(repository@, issues@.take(i as int)),
        decreases issues.len() - i,
    {
        let found = lead_from_issue(repository.as_str(), &issues[i]);
        proof {
            let pre = issues@.take(i + 1);
            assert(pre.drop_last() =~= issues@.take(i as int));
            assert(pre.last() == issues@[i as int]);
        }
        match found {
            Some(lead) => {
                proof {
                    lemma_views_push(leads@, lead);
                }
                leads.push(lead);
            },
            None => {},
        }
        i = i + 1;
    }
    assert(issues@.take(i as int) =~= issues@);
    rank_leads(&leads)
}

// ---------------------------------------------------------------------------
// Ranking and merging

/// The leads of `s` whose rank is `k`, in their order.
pub open spec fn with_score(s: Seq<LeadView>, k: u64) -> Seq<LeadView>
    decreases s.len(),
{
    if s.len() == 0 {
        Seq::empty()
    } else if score_of(s.last().reward_estimate) == k {
        with_score(s.drop_last(), k).push(s.last())
    } else {
        with_score(s.drop_last(), k)
    }
}

/// `s` ordered by decreasing rank, leads of equal rank in their order.
pub open spec fn ranked(s: Seq<LeadView>) -> Seq<LeadView> {
    with_score(s, 100) + with_score(s, 80) + with_score(s, 50) + with_score(s, 20)
}

proof fn lemma_with_score_only(s: Seq<LeadView>, k: u64)
    ensures
        forall|i: int|
            0 <= i < with_score(s, k).len() ==> score_of(
                (#[trigger] with_score(s, k)[i]).reward_estimate,
            ) == k,
    decreases s.len(),
{
    if s.len() > 0 {
        lemma_with_score_only(s.drop_last(), k);
        let pre = with_score(s.drop_last(), k);
        assert forall|i: int| 0 <= i < with_score(s, k).len() implies score_of(
            (#[trigger] with_score(s, k)[i]).reward_estimate,
        ) == k by {
            if i < pre.len() {
                assert(with_score(s, k)[i] == pre[i]);
            }
        }
    }
}

/// Ranked leads come in order of non-increasing rank.
pub proof fn lemma_ranked_is_sorted(s: Seq<LeadView>)
    ensures
        forall|i: int, j: int|
            0 <= i < j < ranked(s).len() ==> score_of((#[trigger] ranked(s)[i]).reward_estimate)
                >= score_of((#[trigger] ranked(s)[j]).reward_estimate),
{
    let a = with_score(s, 100);
    let b = with_score(s, 80);
    let c = with_score(s, 50);
    let d = with_score(s, 20);
    let r = ranked(s);
    lemma_with_score_only(s, 100);
    lemma_with_score_only(s, 80);
    lemma_with_score_only(s, 50);
    lemma_with_score_only(s, 20);
    assert forall|i: int| 0 <= i < r.len() implies {
        let sc = score_of((#[trigger] r[i]).reward_estimate);
        &&& (i < a.len() ==> sc == 100)
        &&& (a.len() <= i < a.len() + b.len() ==> sc == 80)
        &&& (a.len() + b.len() <= i < a.len() + b.len() + c.len() ==> sc == 50)
        &&& (a.len() + b.len() + c.len() <= i ==> sc == 20)
    } by {
        if i < a.len() {
            assert(r[i] == a[i]);
        } else if i < a.len() + b.len() {
            assert(r[i] == b[i - a.len()]);
        } else if i < a.len() + b.len() + c.len() {
            assert(r[i] == c[i - a.len() - b.len()]);
        } else {
            assert(r[i] == d[i - a.len() - b.len() - c.len()]);
        }
    }
}

fn push_with_score(out: &mut Vec<BountyLead>, leads: &Vec<BountyLead>, k: u64)
    ensures
        views(final(out)@) == views(old(out)@) + with_score(views(leads@), k),
{
    let ghost start = views(out@);
    let mut i: usize = 0;
    while i < leads.len()
        invariant
            i <= leads.len(),
            views(out@) == start + with_score(views(leads@).take(i as int), k),
        decreases leads.len() - i,
    {
        proof {
            let pre = views(leads@).take(i + 1);
            assert(pre.drop_last() =~= views(leads@).take(i as int));
            assert(pre.last() == leads@[i as int]@);
        }
        if leads[i].score() == k {
            let lead = leads[i].duplicate();
            proof {
                lemma_views_push(out@, lead);
            }
            out.push(lead);
        }
        i = i + 1;
    }
    assert(views(leads@).take(i as int) =~= views(leads@));
}

/// Orders leads by decreasing rank; leads of equal rank keep their order.
pub fn rank_leads(leads: &Vec<BountyLead>) -> (r: Vec<BountyLead>)
    ensures
        views(r@) == ranked(views(leads@)),
{
    let mut out: Vec<BountyLead> = Vec::new();
    assert(views(out@) =~= Seq::<LeadView>::empty());
    push_with_score(&mut out, leads, 100);
    push_with_score(&mut out, leads, 80);
    push_with_score(&mut out, leads, 50);
    push_with_score(&mut out, leads, 20);
    assert(views(out@) =~= ranked(views(leads@)));
    out
}

/// Two leads stand for the same issue.
pub open spec fn same_issue(a: LeadView, b: LeadView) -> bool {
    a.repository == b.repository && a.number == b.number
}

/// Some lead of `s` stands for the issue `number` of `repository`.
pub open spec fn has_issue(s: Seq<LeadView>, repository: Seq<char>, number: u64) -> bool {
    exists|j: int|
        0 <= j < s.len() && (#[trigger] s[j]).repository == repository && s[j].number == number
}

/// The first lead of each issue in `s`, in their order.
pub open spec fn first_of_each(s: Seq<LeadView>) -> Seq<LeadView>
    decreases s.len(),
{
    if s.len() == 0 {
        Seq::empty()
    } else if has_issue(s.drop_last(), s.last().repository, s.last().number) {
        first_of_each(s.drop_last())
    } else {
        first_of_each(s.drop_last()).push(s.last())
    }
}

/// The lists one after the other.
pub open spec fn concat_all(ss: Seq<Seq<LeadView>>) -> Seq<LeadView>
    decreases ss.len(),
{
    if ss.len() == 0 {
        Seq::empty()
    } else {
        concat_all(ss.drop_last()) + ss.last()
    }
}

/// The leads of several sources, ranked together, with one lead for each issue:
/// the first in rank order.
pub open spec fn merged(sources: Seq<Seq<LeadView>>) -> Seq<LeadView> {
    first_of_each(ranked(concat_all(sources)))
}

/// The leads of each source, as lists of contents.
pub open spec fn source_views(sources: Seq<Vec<BountyLead>>) -> Seq<Seq<LeadView>> {
    sources.map_values(|v: Vec<BountyLead>| views(v@))
}

/// Keeps the first lead of each issue, in order.
pub fn first_of_each_issue(leads: &Vec<BountyLead>) -> (r: Vec<BountyLead>)
    ensures
        views(r@) == first_of_each(views(leads@)),
{
    let mut out: Vec<BountyLead> = Vec::new();
    let mut i: usize = 0;
    while i < leads.len()
        invariant
            i <= leads.len(),
            views(out@) == first_of_each(views(leads@).take(i as int)),
        decreases leads.len() - i,
    {
        let mut seen = false;
        let mut j: usize = 0;
        while j < i
            invariant
                i < leads.len(),
                j <= i,
                seen == has_issue(
                    views(leads@).take(j as int),
                    leads@[i as int].repository@,
                    leads@[i as int].number,
                ),
            decreases i - j,
        {
            if leads[j].number == leads[i].number && leads[j].repository == leads[i].repository {
                seen = true;
            }
            proof {
                let a = views(leads@).take(j + 1);
                let b = views(leads@).take(j as int);
                let rep = leads@[i as int].repository@;
                let num = leads@[i as int].number;
                if has_issue(a, rep, num) && !has_issue(b, rep, num) {
                    let w = choose|w: int|
                        0 <= w < a.len() && (#[trigger] a[w]).repository == rep && a[w].number
                            == num;
                    if w < j {
                        assert(b[w] == a[w]);
                    }
                }
                if has_issue(b, rep, num) {
                    let w = choose|w: int|
                        0 <= w < b.len() && (#[trigger] b[w]).repository == rep && b[w].number
                            == num;
                    assert(a[w] == b[w]);
                }
                if leads[j as int].number == num && leads[j as int].repository@ == rep {
                    assert(a[j as int] == leads@[j as int]@);
                }
            }
            j = j + 1;
        }
        proof {
            let pre = views(leads@).take(i + 1);
            assert(pre.drop_last() =~= views(leads@).take(i as int));
            assert(pre.last() == leads@[i as int]@);
        }
        if !seen {
            let lead = leads[i].duplicate();
            proof {
                lemma_views_push(out@, lead);
            }
            out.push(lead);
        }
        i = i + 1;
    }
    assert(views(leads@).take(i as int) =~= views(leads@));
    out
}

/// Merges the leads of several sources: all of them ranked together, then one
/// lead kept for each issue, the first in rank order.
pub fn merge_leads(sources: &Vec<Vec<BountyLead>>) -> (r: Vec<BountyLead>)
    ensures
        views(r@) == merged(source_views(sources@)),
{
    let mut all: Vec<BountyLead> = Vec::new();
    let mut i: usize = 0;
    while i < sources.len()
        invariant
            i <= sources.len(),
            views(all@) == concat_all(source_views(sources@).take(i as int)),
        decreases sources.len() - i,
    {
        let ghost start = views(all@);
        let src = &sources[i];
        let mut j: usize = 0;
        while j < src.len()
            invariant
                j <= src.len(),
                views(all@) == start + views(src@).take(j as int),
            decreases src.len() - j,
        {
            let lead = src[j].duplicate();
            proof {
                lemma_views_push(all@, lead);
                assert(views(src@).take(j + 1) =~= views(src@).take(j as int).push(src@[j as int]@));
            }
            all.push(lead);
            j = j + 1;
        }
        proof {
            let pre = source_views(sources@).take(i + 1);
            assert(pre.drop_last() =~= source_views(sources@).take(i as int));
            assert(pre.last() == views(sources@[i as int]@));
            assert(views(src@).take(j as int) =~= views(src@));
        }
        i = i + 1;
    }
    assert(source_views(sources@).take(i as int) =~= source_views(sources@));
    let ranked_all = rank_leads(&all);
    first_of_each_issue(&ranked_all)
}

proof fn lemma_concat_all_has(ss: Seq<Seq<LeadView>>, i: int, j: int)
    requires
        0 <= i < ss.len(),
        0 <= j < ss[i].len(),
    ensures
        has_issue(concat_all(ss), ss[i][j].repository, ss[i][j].number),
    decreases ss.len(),
{
    let pre = concat_all(ss.drop_last());
    if i == ss.len() - 1 {
        let p = pre.len() + j;
        assert(concat_all(ss)[p] == ss[i][j]);
    } else {
        assert(ss.drop_last()[i] == ss[i]);
        lemma_concat_all_has(ss.drop_last(), i, j);
        let p = choose|p: int|
            0 <= p < pre.len() && (#[trigger] pre[p]).repository == ss[i][j].repository
                && pre[p].number == ss[i][j].number;
        assert(concat_all(ss)[p] == pre[p]);
    }
}

proof fn lemma_with_score_has(s: Seq<LeadView>, p: int)
    requires
        0 <= p < s.len(),
    ensures
        has_issue(
            with_score(s, score_of(s[p].reward_estimate)),
            s[p].repository,
            s[p].number,
        ),
    decreases s.len(),
{
    let k = score_of(s[p].reward_estimate);
    let pre = with_score(s.drop_last(), k);
    if p == s.len() - 1 {
        assert(with_score(s, k)[pre.len() as int] == s[p]);
    } else {
        assert(s.drop_last()[p] == s[p]);
        lemma_with_score_has(s.drop_last(), p);
        let q = choose|q: int|
            0 <= q < pre.len() && (#[trigger] pre[q]).repository == s[p].repository
                && pre[q].number == s[p].number;
        assert(with_score(s, k)[q] == pre[q]);
    }
}

proof fn lemma_ranked_has(s: Seq<LeadView>, rep: Seq<char>, num: u64)
    requires
        has_issue(s, rep, num),
    ensures
        has_issue(ranked(s), rep, num),
{
    let p = choose|p: int| 0 <= p < s.len() && (#[trigger] s[p]).repository == rep && s[p].number == num;
    lemma_with_score_has(s, p);
    let k = score_of(s[p].reward_estimate);
    let part = with_score(s, k);
    let q = choose|q: int| 0 <= q < part.len() && (#[trigger] part[q]).repository == rep && part[q].number == num;
    let a = with_score(s, 100);
    let b = with_score(s, 80);
    let c = with_score(s, 50);
    let d = with_score(s, 20);
    let r = ranked(s);
    if k == 100 {
        assert(r[q] == a[q]);
    } else if k == 80 {
        assert(r[a.len() + q] == b[q]);
    } else if k == 50 {
        assert(r[a.len() + b.len() + q] == c[q]);
    } else {
        assert(r[a.len() + b.len() + c.len() + q] == d[q]);
    }
}

proof fn lemma_first_of_each(s: Seq<LeadView>)
    ensures
        forall|rep: Seq<char>, num: u64|
            has_issue(s, rep, num) ==> #[trigger] has_issue(first_of_each(s), rep, num),
        forall|a: int|
            0 <= a < first_of_each(s).len() ==> has_issue(
                s,
                (#[trigger] first_of_each(s)[a]).repository,
                first_of_each(s)[a].number,
            ),
        forall|a: int, b: int|
            0 <= a < b < first_of_each(s).len() ==> !same_issue(
                #[trigger] first_of_each(s)[a],
                #[trigger] first_of_each(s)[b],
            ),
    decreases s.len(),
{
    if s.len() > 0 {
        let d = s.drop_last();
        let x = s.last();
        let pre = first_of_each(d);
        let fe = first_of_each(s);
        lemma_first_of_each(d);
        assert forall|rep: Seq<char>, num: u64| has_issue(s, rep, num) implies #[trigger] has_issue(
            fe,
            rep,
            num,
        ) by {
            let p = choose|p: int| 0 <= p < s.len() && (#[trigger] s[p]).repository == rep && s[p].number == num;
            if p < s.len() - 1 {
                assert(d[p] == s[p]);
                assert(has_issue(d, rep, num));
                assert(has_issue(pre, rep, num));
                let q = choose|q: int| 0 <= q < pre.len() && (#[trigger] pre[q]).repository == rep && pre[q].number == num;
                assert(fe[q] == pre[q]);
            } else if has_issue(d, rep, num) {
                assert(has_issue(pre, rep, num));
                let q = choose|q: int| 0 <= q < pre.len() && (#[trigger] pre[q]).repository == rep && pre[q].number == num;
                assert(fe[q] == pre[q]);
            } else {
                assert(fe[pre.len() as int] == x);
            }
        }
        assert forall|a: int| 0 <= a < fe.len() implies has_issue(
            s,
            (#[trigger] fe[a]).repository,
            fe[a].number,
        ) by {
            if a < pre.len() {
                assert(fe[a] == pre[a]);
                assert(has_issue(d, pre[a].repository, pre[a].number));
                let q = choose|q: int| 0 <= q < d.len() && (#[trigger] d[q]).repository == pre[a].repository && d[q].number == pre[a].number;
                assert(s[q] == d[q]);
            } else {
                assert(s[s.len() - 1] == x);
            }
        }
        assert forall|a: int, b: int| 0 <= a < b < fe.len() implies !same_issue(
            #[trigger] fe[a],
            #[trigger] fe[b],
        ) by {
            if b < pre.len() {
                assert(fe[a] == pre[a] && fe[b] == pre[b]);
            } else {
                assert(fe[b] == x);
                assert(fe[a] == pre[a]);
                assert(has_issue(d, pre[a].repository, pre[a].number));
            }
        }
    }
}

/// A merge holds exactly one lead for each issue that some source offers.
pub proof fn lemma_merge_one_lead_per_issue(sources: Seq<Seq<LeadView>>, i: int, j: int)
    requires
        0 <= i < sources.len(),
        0 <= j < sources[i].len(),
    ensures
        ({
            let m = merged(sources);
            let x = sources[i][j];
            exists|a: int|
                0 <= a < m.len() && same_issue(#[trigger] m[a], x) && forall|b: int|
                    0 <= b < m.len() && #[trigger] same_issue(m[b], x) ==> b == a
        }),
{
    let x = sources[i][j];
    let all = concat_all(sources);
    let r = ranked(all);
    let m = merged(sources);
    lemma_concat_all_has(sources, i, j);
    lemma_ranked_has(all, x.repository, x.number);
    lemma_first_of_each(r);
    assert(has_issue(m, x.repository, x.number));
    let a = choose|a: int| 0 <= a < m.len() && (#[trigger] m[a]).repository == x.repository && m[a].number == x.number;
    assert forall|b: int| 0 <= b < m.len() && #[trigger] same_issue(m[b], x) implies b == a by {
        if b < a {
            assert(!same_issue(m[b], m[a]));
        } else if a < b {
            assert(!same_issue(m[a], m[b]));
        }
    }
    assert(same_issue(m[a], x));
}

} // verus!
