use prism::work_items::{classify_own, classify_pull_requests, parse_pr_node, Category, RawPullRequest};

fn node(number: i64, draft: bool, reviews: &[&str], requests: i64) -> RawPullRequest {
    RawPullRequest {
        number: Some(number),
        title: Some(format!("Title {}", number)),
        repo: Some("owner/repo".to_string()),
        author_login: Some("octocat".to_string()),
        author_avatar: Some("https://avatars.example/octocat".to_string()),
        url: Some(format!("https://github.com/owner/repo/pull/{}", number)),
        is_draft: Some(draft),
        review_states: reviews.iter().map(|s| s.to_string()).collect(),
        review_request_count: Some(requests),
    }
}

#[test]
fn example_three_own_items() {
    let own = vec![
        node(1, false, &["APPROVED"], 0),
        node(2, true, &["APPROVED"], 0),
        node(3, false, &[], 2),
    ];
    let data = classify_pull_requests(&vec![], &own);
    assert!(data.needs_review.is_empty());
    assert_eq!(data.approved.len(), 1);
    assert_eq!(data.approved[0].number, 1);
    assert_eq!(data.approved[0].status, Some("approved".to_string()));
    assert_eq!(data.drafts.len(), 1);
    assert_eq!(data.drafts[0].number, 2);
    assert_eq!(data.drafts[0].status, None);
    assert_eq!(data.waiting_for_reviewers.len(), 1);
    assert_eq!(data.waiting_for_reviewers[0].number, 3);
    assert_eq!(data.waiting_for_reviewers[0].status, None);
}

#[test]
fn draft_with_approval_is_a_draft() {
    let n = node(7, true, &["CHANGES_REQUESTED", "APPROVED"], 1);
    assert_eq!(classify_own(&n), Category::Draft);
    let data = classify_pull_requests(&vec![], &vec![n]);
    assert_eq!(data.drafts.len(), 1);
    assert!(data.approved.is_empty());
    assert!(data.waiting_for_reviewers.is_empty());
}

#[test]
fn missing_author_login_is_dropped() {
    let mut bad = node(4, false, &["APPROVED"], 0);
    bad.author_login = None;
    assert!(parse_pr_node(&bad).is_none());
    let good = node(5, false, &[], 0);
    let data = classify_pull_requests(&vec![bad.clone(), good.clone()], &vec![bad, good]);
    assert_eq!(data.needs_review.len(), 1);
    assert_eq!(data.needs_review[0].number, 5);
    assert!(data.approved.is_empty());
    assert!(data.drafts.is_empty());
    assert_eq!(data.waiting_for_reviewers.len(), 1);
    assert_eq!(data.waiting_for_reviewers[0].number, 5);
}

#[test]
fn each_missing_field_drops_the_node() {
    for field in 0..6 {
        let mut n = node(9, false, &[], 0);
        match field {
            0 => n.number = None,
            1 => n.title = None,
            2 => n.repo = None,
            3 => n.author_login = None,
            4 => n.author_avatar = None,
            _ => n.url = None,
        }
        assert!(parse_pr_node(&n).is_none());
    }
    let mut n = node(9, false, &[], 0);
    n.is_draft = None;
    n.review_request_count = None;
    assert!(parse_pr_node(&n).is_some());
    assert_eq!(classify_own(&n), Category::WaitingForReviewers);
}

#[test]
fn own_items_partition() {
    let own = vec![
        node(1, false, &["APPROVED"], 0),
        node(2, true, &[], 0),
        node(3, false, &[], 0),
        node(4, false, &["CHANGES_REQUESTED"], 3),
        node(5, true, &["APPROVED"], 0),
        node(6, false, &["CHANGES_REQUESTED", "APPROVED"], 0),
    ];
    let data = classify_pull_requests(&vec![], &own);
    assert_eq!(data.drafts.len() + data.approved.len() + data.waiting_for_reviewers.len(), 6);
    let nums = |v: &Vec<prism::work_items::PullRequest>| v.iter().map(|p| p.number).collect::<Vec<i32>>();
    assert_eq!(nums(&data.approved), vec![1, 6]);
    assert_eq!(nums(&data.drafts), vec![2, 5]);
    assert_eq!(nums(&data.waiting_for_reviewers), vec![3, 4]);
}

#[test]
fn search_items_always_need_review() {
    let search = vec![node(10, true, &["APPROVED"], 0), node(11, false, &[], 0)];
    let data = classify_pull_requests(&search, &vec![]);
    assert_eq!(data.needs_review.len(), 2);
    assert_eq!(data.needs_review[0].number, 10);
    assert_eq!(data.needs_review[0].status, None);
    assert_eq!(data.needs_review[1].title, "Title 11");
    assert_eq!(data.needs_review[1].repo, "owner/repo");
    assert_eq!(data.needs_review[1].author, "octocat");
    assert_eq!(data.needs_review[1].avatar, "https://avatars.example/octocat");
    assert_eq!(data.needs_review[1].url, "https://github.com/owner/repo/pull/11");
    assert!(data.drafts.is_empty());
}

#[test]
fn empty_fetch_gives_empty_buckets() {
    let data = classify_pull_requests(&vec![], &vec![]);
    assert!(data.needs_review.is_empty());
    assert!(data.approved.is_empty());
    assert!(data.waiting_for_reviewers.is_empty());
    assert!(data.drafts.is_empty());
}

#[test]
fn approval_is_case_sensitive() {
    let n = node(12, false, &["approved"], 0);
    assert_eq!(classify_own(&n), Category::WaitingForReviewers);
}
