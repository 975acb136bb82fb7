//! Outcomes of the requests that claim a bounty and submit work for it.

use vstd::prelude::*;

verus! {

/// The outcome of one request, or of a sequence of them.
#[derive(Debug, Clone)]
pub struct SubmitResult {
    pub success: bool,
    pub action: String,
    pub url: Option<String>,
    pub message: String,
}

/// The contents of an outcome.
pub struct SubmitView {
    pub success: bool,
    pub action: Seq<char>,
    pub url: Option<Seq<char>>,
    pub message: Seq<char>,
}

impl View for SubmitResult {
    type V = SubmitView;

    open spec fn view(&self) -> SubmitView {
        SubmitView {
            success: self.success,
            action: self.action@,
            url: match self.url {
                Some(u) => Some(u@),
                None => None,
            },
            message: self.message@,
        }
    }
}

/// The requests made to the code host.
#[derive(Debug, Clone, Copy, PartialEq, Eq, Structural)]
pub enum Request {
    CreatePr,
    PostComment,
    UpdateIssue,
    SubmitReview,
}

/// The outcome of a request. On success `detail` is the new pull request's or
/// comment's address, or the review's event; on failure it is the host's error text.
pub open spec fn outcome_of(request: Request, succeeded: bool, detail: Seq<char>) -> SubmitView {
    if succeeded {
        match request {
            Request::CreatePr => SubmitView {
                success: true,
                action: "PR Created"@,
                url: Some(detail),
                message: "PR created successfully: "@ + detail,
            },
            Request::PostComment => SubmitView {
                success: true,
                action: "Comment Posted"@,
                url: Some(detail),
                message: "Comment posted successfully"@,
            },
            Request::UpdateIssue => SubmitView {
                success: true,
                action: "Issue Updated"@,
                url: None,
                message: "Issue updated successfully"@,
            },
            Request::SubmitReview => SubmitView {
                success: true,
                action: "Review Submitted"@,
                url: None,
                message: "Review submitted: "@ + detail,
            },
        }
    } else {
        match request {
            Request::CreatePr => SubmitView {
                success: false,
                action: "PR Creation Failed"@,
                url: None,
                message: "Failed to create PR: "@ + detail,
            },
            Request::PostComment => SubmitView {
                success: false,
                action: "Comment Failed"@,
                url: None,
                message: "Failed to post comment: "@ + detail,
            },
            Request::UpdateIssue => SubmitView {
                success: false,
                action: "Update Failed"@,
                url: None,
                message: "Failed to update issue: "@ + detail,
            },
            Request::SubmitReview => SubmitView {
                success: false,
                action: "Review Failed"@,
                url: None,
                message: "Failed to submit review: "@ + detail,
            },
        }
    }
}

fn outcome(success: bool, action: &str, url: Option<String>, message: String) -> (r: SubmitResult)
    ensures
        r.success == success,
        r.action@ == action@,
        r.url == url,
        r.message == message,
{
    SubmitResult { success, action: action.to_owned(), url, message }
}

/// The outcome of a request, from whether the host accepted it and its detail.
pub fn request_outcome(request: Request, succeeded: bool, detail: &str) -> (r: SubmitResult)
    ensures
        r@ == outcome_of(request, succeeded, detail@),
{
    if succeeded {
        match request {
            Request::CreatePr => outcome(
                true,
                "PR Created",
                Some(detail.to_owned()),
                "PR created successfully: ".to_owned().concat(detail),
            ),
            Request::PostComment => outcome(
                true,
                "Comment Posted",
                Some(detail.to_owned()),
                "Comment posted successfully".to_owned(),
            ),
            Request::UpdateIssue => outcome(
                true,
                "Issue Updated",
                None,
                "Issue updated successfully".to_owned(),
            ),
            Request::SubmitReview => outcome(
                true,
                "Review Submitted",
                None,
                "Review submitted: ".to_owned().concat(detail),
            ),
        }
    } else {
        match request {
            Request::CreatePr => outcome(
                false,
                "PR Creation Failed",
                None,
                "Failed to create PR: ".to_owned().concat(detail),
            ),
            Request::PostComment => outcome(
                false,
                "Comment Failed",
                None,
                "Failed to post comment: ".to_owned().concat(detail),
            ),
            Request::UpdateIssue => outcome(
                false,
                "Update Failed",
                None,
                "Failed to update issue: ".to_owned().concat(detail),
            ),
            Request::SubmitReview => outcome(
                false,
                "Review Failed",
                None,
                "Failed to submit review: "
                    .to_owned().concat(detail),
            ),
        }
    }
}

/// The labels that mark a claimed issue: the given one, then "claimed".
pub fn claim_labels(add_label: &str) -> (r: Vec<String>)
    ensures
        r.deep_view() == seq![add_label@, "claimed"@],
{
    let mut v: Vec<String> = Vec::new();
    v.push(add_label.to_owned());
    v.push("claimed".to_owned());
    assert(v.deep_view() =~= seq![add_label@, "claimed"@]);
    v
}

/// The labels that mark an issue whose work was submitted.
pub fn submission_labels() -> (r: Vec<String>)
    ensures
        r.deep_view() == seq!["submitted"@, "under-review"@],
{
    let mut v: Vec<String> = Vec::new();
    v.push("submitted".to_owned());
    v.push("under-review".to_owned());
    assert(v.deep_view() =~= seq!["submitted"@, "under-review"@]);
    v
}

/// The outcome of a claim, once its comment was posted and its labels set: it
/// succeeds as the labelling did and points at the comment.
pub open spec fn claim_of(comment: SubmitView, label: SubmitView) -> SubmitView {
    SubmitView {
        success: label.success,
        action: "Bounty Claimed"@,
        url: comment.url,
        message: "Bounty claimed. Comment: "@ + comment.message + ", Label: "@ + label.message,
    }
}

/// The outcome of a claim from the outcomes of its comment and of its labelling.
pub fn claim_result(comment: &SubmitResult, label: &SubmitResult) -> (r: SubmitResult)
    ensures
        r@ == claim_of(comment@, label@),
{
    let url = match &comment.url {
        Some(u) => Some(u.clone()),
        None => None,
    };
    let message = "Bounty claimed. Comment: ".to_owned().concat(comment.message.as_str()).concat(
        ", Label: ",
    ).concat(label.message.as_str());
    outcome(label.success, "Bounty Claimed", url, message)
}

/// The outcome of a submission, once its comment was posted and the issue relabelled:
/// it succeeds as the relabelling did and points at the pull request.
pub open spec fn completion_of(update: SubmitView, pr_url: Seq<char>) -> SubmitView {
    SubmitView {
        success: update.success,
        action: "Submission Complete"@,
        url: Some(pr_url),
        message: "Submission complete. PR: "@ + pr_url + ", Status updated"@,
    }
}

/// The outcome of a submission from the outcome of the relabelling and the pull
/// request's address.
pub fn completion_result(update: &SubmitResult, pr_url: &str) -> (r: SubmitResult)
    ensures
        r@ == completion_of(update@, pr_url@),
{
    let message = "Submission complete. PR: ".to_owned().concat(pr_url).concat(", Status updated");
    outcome(update.success, "Submission Complete", Some(pr_url.to_owned()), message)
}

/// What follows the posting of a claim or submission comment.
pub enum NextStep {
    /// The work ends with this outcome.
    Finish(SubmitResult),
    /// The issue's labels are to be set to these.
    SetLabels(Vec<String>),
}

impl SubmitResult {
    /// A copy of the outcome with the same contents.
    pub fn duplicate(&self) -> (r: SubmitResult)
        ensures
            r@ == self@,
    {
        let url = match &self.url {
            Some(u) => Some(u.clone()),
            None => None,
        };
        SubmitResult {
            success: self.success,
            action: self.action.clone(),
            url,
            message: self.message.clone(),
        }
    }
}

/// The step after a comment was posted: a failed comment ends the work with its
/// own outcome; a posted one leads to setting `labels`.
pub open spec fn step_after(comment: SubmitView, labels: Seq<Seq<char>>, r: NextStep) -> bool {
    match r {
        NextStep::Finish(f) => !comment.success && f@ == comment,
        NextStep::SetLabels(l) => comment.success && l.deep_view() == labels,
    }
}

/// The step of a claim after its comment: on success, label the issue with
/// `add_label` and "claimed".
pub fn claim_next(comment: &SubmitResult, add_label: &str) -> (r: NextStep)
    ensures
        step_after(comment@, seq![add_label@, "claimed"@], r),
{
    if comment.success {
        NextStep::SetLabels(claim_labels(add_label))
    } else {
        NextStep::Finish(comment.duplicate())
    }
}

/// The step of a submission after its comment: on success, label the issue as
/// submitted and under review.
pub fn completion_next(comment: &SubmitResult) -> (r: NextStep)
    ensures
        step_after(comment@, seq!["submitted"@, "under-review"@], r),
{
    if comment.success {
        NextStep::SetLabels(submission_labels())
    } else {
        NextStep::Finish(comment.duplicate())
    }
}

} // verus!
