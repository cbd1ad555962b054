//! Normalising fetched pull requests and sorting them into buckets.
use vstd::prelude::*;

verus! {

/// A pull request, normalised from one node of the query result.
#[derive(Debug, Clone)]
pub struct PullRequest {
    pub number: i32,
    pub title: String,
    pub repo: String,
    pub author: String,
    pub avatar: String,
    pub url: String,
    pub status: Option<String>,
}

/// What a pull request holds, with its strings as character sequences.
pub struct PullRequestView {
    pub number: i32,
    pub title: Seq<char>,
    pub repo: Seq<char>,
    pub author: Seq<char>,
    pub avatar: Seq<char>,
    pub url: Seq<char>,
    pub status: Option<Seq<char>>,
}

impl View for PullRequest {
    type V = PullRequestView;

    open spec fn view(&self) -> PullRequestView {
        PullRequestView {
            number: self.number,
            title: self.title@,
            repo: self.repo@,
            author: self.author@,
            avatar: self.avatar@,
            url: self.url@,
            status: match self.status {
                Some(s) => Some(s@),
                None => None,
            },
        }
    }
}

/// The four buckets of one fetch.
#[derive(Debug)]
pub struct PullRequestData {
    pub needs_review: Vec<PullRequest>,
    pub approved: Vec<PullRequest>,
    pub waiting_for_reviewers: Vec<PullRequest>,
    pub drafts: Vec<PullRequest>,
}

/// One node of the query result as it was decoded, every field optional.
/// `review_states` holds the states of the node's reviews, empty where the
/// node has none or the field was absent.
#[derive(Debug, Clone)]
pub struct RawPullRequest {
    pub number: Option<i64>,
    pub title: Option<String>,
    pub repo: Option<String>,
    pub author_login: Option<String>,
    pub author_avatar: Option<String>,
    pub url: Option<String>,
    pub is_draft: Option<bool>,
    pub review_states: Vec<String>,
    pub review_request_count: Option<i64>,
}

/// The bucket that one of the user's own pull requests falls into.
#[derive(Debug, Clone, Copy, PartialEq, Eq, Structural)]
pub enum Category {
    Draft,
    Approved,
    WaitingForReviewers,
}

/// The normalised record of a node, or `None` where a required field is missing.
pub open spec fn parsed(n: RawPullRequest) -> Option<PullRequestView> {
    if n.number is Some && n.title is Some && n.repo is Some && n.author_login is Some
        && n.author_avatar is Some && n.url is Some {
        Some(
            PullRequestView {
                number: n.number->Some_0 as i32,
                title: n.title->Some_0@,
                repo: n.repo->Some_0@,
                author: n.author_login->Some_0@,
                avatar: n.author_avatar->Some_0@,
                url: n.url->Some_0@,
                status: None,
            },
        )
    } else {
        None
    }
}

pub open spec fn approved_state() -> Seq<char> {
    "APPROVED"@
}

/// Some review of the node is in state APPROVED.
pub open spec fn has_approval(n: RawPullRequest) -> bool {
    exists|i: int| 0 <= i < n.review_states.len() && #[trigger] n.review_states@[i]@ == approved_state()
}

/// Drafts first, then approval; everything else is left waiting, whether
/// or not review requests are outstanding.
pub open spec fn category(n: RawPullRequest) -> Category {
    if n.is_draft == Some(true) {
        Category::Draft
    } else if has_approval(n) {
        Category::Approved
    } else {
        Category::WaitingForReviewers
    }
}

/// The record that lands in a bucket: approved ones carry the status label.
pub open spec fn labelled(n: RawPullRequest) -> PullRequestView
    recommends
        parsed(n) is Some,
{
    let pr = parsed(n)->Some_0;
    if category(n) == Category::Approved {
        PullRequestView { status: Some("approved"@), ..pr }
    } else {
        pr
    }
}

pub open spec fn views(v: Seq<PullRequest>) -> Seq<PullRequestView> {
    v.map_values(|p: PullRequest| p@)
}

/// The records of the well-formed nodes, in order; the others are dropped.
pub open spec fn parse_all(s: Seq<RawPullRequest>) -> Seq<PullRequestView>
    decreases s.len(),
{
    if s.len() == 0 {
        Seq::empty()
    } else {
        let rest = parse_all(s.drop_last());
        match parsed(s.last()) {
            Some(p) => rest.push(p),
            None => rest,
        }
    }
}

/// The labelled records of the well-formed nodes of category `c`, in order.
pub open spec fn bucket(s: Seq<RawPullRequest>, c: Category) -> Seq<PullRequestView>
    decreases s.len(),
{
    if s.len() == 0 {
        Seq::empty()
    } else {
        let rest = bucket(s.drop_last(), c);
        if parsed(s.last()) is Some && category(s.last()) == c {
            rest.push(labelled(s.last()))
        } else {
            rest
        }
    }
}

proof fn lemma_bucket_skip(s: Seq<RawPullRequest>, i: int, c: Category)
    requires
        0 <= i < s.len(),
        !(parsed(s[i]) is Some && category(s[i]) == c),
    ensures
        bucket(s, c) == bucket(s.remove(i), c),
    decreases s.len(),
{
    if i == s.len() - 1 {
        assert(s.remove(i) == s.drop_last());
    } else {
        lemma_bucket_skip(s.drop_last(), i, c);
        assert(s.remove(i).drop_last() == s.drop_last().remove(i));
        assert(s.remove(i).last() == s.last());
    }
}

proof fn lemma_bucket_take(s: Seq<RawPullRequest>, i: int, c: Category)
    requires
        0 <= i < s.len(),
        parsed(s[i]) is Some,
        category(s[i]) == c,
    ensures
        bucket(s, c).len() == bucket(s.remove(i), c).len() + 1,
    decreases s.len(),
{
    if i == s.len() - 1 {
        assert(s.remove(i) == s.drop_last());
    } else {
        lemma_bucket_take(s.drop_last(), i, c);
        assert(s.remove(i).drop_last() == s.drop_last().remove(i));
        assert(s.remove(i).last() == s.last());
    }
}

proof fn lemma_parse_all_skip(s: Seq<RawPullRequest>, i: int)
    requires
        0 <= i < s.len(),
        parsed(s[i]) is None,
    ensures
        parse_all(s) == parse_all(s.remove(i)),
    decreases s.len(),
{
    if i == s.len() - 1 {
        assert(s.remove(i) == s.drop_last());
    } else {
        lemma_parse_all_skip(s.drop_last(), i);
        assert(s.remove(i).drop_last() == s.drop_last().remove(i));
        assert(s.remove(i).last() == s.last());
    }
}

/// Every well-formed node of the user's own pull requests lands in exactly one
/// of the drafts, approved and waiting buckets: the three together hold as
/// many records as there are well-formed nodes, and a node's record lands in
/// the bucket of its category and in no other: taking it out shortens that
/// bucket by one and leaves the other two as they are.
pub proof fn lemma_own_items_partition(own: Seq<RawPullRequest>)
    ensures
        bucket(own, Category::Draft).len() + bucket(own, Category::Approved).len() + bucket(
            own,
            Category::WaitingForReviewers,
        ).len() == parse_all(own).len(),
        forall|i: int, c: Category|
            0 <= i < own.len() && parsed(own[i]) is Some && c != category(own[i]) ==> bucket(own, c)
                == #[trigger] bucket(own.remove(i), c),
        forall|i: int|
            0 <= i < own.len() && parsed(#[trigger] own[i]) is Some ==> bucket(own, category(own[i])).len()
                == bucket(own.remove(i), category(own[i])).len() + 1,
    decreases own.len(),
{
    if own.len() > 0 {
        lemma_own_items_partition(own.drop_last());
    }
    assert forall|i: int, c: Category|
        0 <= i < own.len() && parsed(own[i]) is Some && c != category(own[i]) implies bucket(own, c)
        == #[trigger] bucket(own.remove(i), c) by {
        lemma_bucket_skip(own, i, c);
    }
    assert forall|i: int| 0 <= i < own.len() && parsed(#[trigger] own[i]) is Some implies bucket(
        own,
        category(own[i]),
    ).len() == bucket(own.remove(i), category(own[i])).len() + 1 by {
        lemma_bucket_take(own, i, category(own[i]));
    }
}

/// A draft is never approved: whatever its reviews, a draft node lands in
/// the drafts bucket and leaves the approved bucket as it would be without it.
pub proof fn lemma_draft_precedence(own: Seq<RawPullRequest>, i: int)
    requires
        0 <= i < own.len(),
        own[i].is_draft == Some(true),
    ensures
        category(own[i]) == Category::Draft,
        bucket(own, Category::Approved) == bucket(own.remove(i), Category::Approved),
        bucket(own, Category::WaitingForReviewers) == bucket(
            own.remove(i),
            Category::WaitingForReviewers,
        ),
{
    lemma_bucket_skip(own, i, Category::Approved);
    lemma_bucket_skip(own, i, Category::WaitingForReviewers);
}

/// A node that lacks a required field changes none of the four buckets,
/// wherever it stands among the other nodes.
pub proof fn lemma_malformed_dropped(
    search: Seq<RawPullRequest>,
    own: Seq<RawPullRequest>,
    n: RawPullRequest,
    i: int,
    j: int,
)
    requires
        parsed(n) is None,
        0 <= i <= search.len(),
        0 <= j <= own.len(),
    ensures
        parse_all(search.insert(i, n)) == parse_all(search),
        forall|c: Category| #[trigger] bucket(own.insert(j, n), c) == bucket(own, c),
{
    assert(search.insert(i, n).remove(i) == search);
    lemma_parse_all_skip(search.insert(i, n), i);
    assert(own.insert(j, n).remove(j) == own);
    assert forall|c: Category| #[trigger] bucket(own.insert(j, n), c) == bucket(own, c) by {
        lemma_bucket_skip(own.insert(j, n), j, c);
    }
}

/// Normalises one node: `None` where the number, title, repository, author
/// login, avatar or URL is missing.
pub fn parse_pr_node(node: &RawPullRequest) -> (r: Option<PullRequest>)
    ensures
        match r {
            Some(pr) => parsed(*node) == Some(pr@),
            None => parsed(*node) is None,
        },
{
    let number = match node.number {
        Some(n) => n,
        None => return None,
    };
    let title = match &node.title {
        Some(t) => t.clone(),
        None => return None,
    };
    let repo = match &node.repo {
        Some(t) => t.clone(),
        None => return None,
    };
    let author = match &node.author_login {
        Some(t) => t.clone(),
        None => return None,
    };
    let avatar = match &node.author_avatar {
        Some(t) => t.clone(),
        None => return None,
    };
    let url = match &node.url {
        Some(t) => t.clone(),
        None => return None,
    };
    Some(
        PullRequest {
            number: #[verifier::truncate] (number as i32),
            title,
            repo,
            author,
            avatar,
            url,
            status: None,
        },
    )
}

/// Whether some review of the node is in state APPROVED.
pub fn node_has_approval(node: &RawPullRequest) -> (r: bool)
    ensures
        r == has_approval(*node),
{
    let approved = "APPROVED".to_owned();
    let mut i: usize = 0;
    while i < node.review_states.len()
        invariant
            0 <= i <= node.review_states.len(),
            approved@ == approved_state(),
            forall|j: int| 0 <= j < i ==> #[trigger] node.review_states@[j]@ != approved_state(),
        decreases node.review_states.len() - i,
    {
        if node.review_states[i] == approved {
            return true;
        }
        i = i + 1;
    }
    false
}

/// The bucket of one of the user's own pull requests.
pub fn classify_own(node: &RawPullRequest) -> (r: Category)
    ensures
        r == category(*node),
{
    if node.is_draft == Some(true) {
        Category::Draft
    } else if node_has_approval(node) {
        Category::Approved
    } else {
        Category::WaitingForReviewers
    }
}

/// Sorts one fetch into its buckets: every well-formed node of `search` goes
/// to `needs_review` as it is; every well-formed node of `own` goes to the
/// bucket of its category, approved ones labelled "approved"; malformed nodes
/// are dropped. Each bucket keeps the order of its source.
pub fn classify_pull_requests(search: &Vec<RawPullRequest>, own: &Vec<RawPullRequest>) -> (r:
    PullRequestData)
    ensures
        views(r.needs_review@) == parse_all(search@),
        views(r.drafts@) == bucket(own@, Category::Draft),
        views(r.approved@) == bucket(own@, Category::Approved),
        views(r.waiting_for_reviewers@) == bucket(own@, Category::WaitingForReviewers),
{
    let mut needs_review: Vec<PullRequest> = Vec::new();
    let mut i: usize = 0;
    while i < search.len()
        invariant
            0 <= i <= search.len(),
            views(needs_review@) == parse_all(search@.subrange(0, i as int)),
        decreases search.len() - i,
    {
        proof {
            assert(search@.subrange(0, i + 1).drop_last() == search@.subrange(0, i as int));
        }
        match parse_pr_node(&search[i]) {
            Some(pr) => {
                needs_review.push(pr);
            },
            None => {},
        }
        proof {
            assert(views(needs_review@) == parse_all(search@.subrange(0, i + 1)));
        }
        i = i + 1;
    }
    proof {
        assert(search@.subrange(0, search.len() as int) == search@);
    }
    let mut approved: Vec<PullRequest> = Vec::new();
    let mut waiting_for_reviewers: Vec<PullRequest> = Vec::new();
    let mut drafts: Vec<PullRequest> = Vec::new();
    let mut k: usize = 0;
    while k < own.len()
        invariant
            0 <= k <= own.len(),
            views(drafts@) == bucket(own@.subrange(0, k as int), Category::Draft),
            views(approved@) == bucket(own@.subrange(0, k as int), Category::Approved),
            views(waiting_for_reviewers@) == bucket(
                own@.subrange(0, k as int),
                Category::WaitingForReviewers,
            ),
        decreases own.len() - k,
    {
        let ghost prefix = own@.subrange(0, k + 1);
        proof {
            assert(prefix.drop_last() == own@.subrange(0, k as int));
            assert(prefix.last() == own@[k as int]);
        }
        match parse_pr_node(&own[k]) {
            Some(pr) => {
                let mut pr = pr;
                match classify_own(&own[k]) {
                    Category::Draft => {
                        drafts.push(pr);
                    },
                    Category::Approved => {
                        pr.status = Some("approved".to_owned());
                        approved.push(pr);
                    },
                    Category::WaitingForReviewers => {
                        waiting_for_reviewers.push(pr);
                    },
                }
            },
            None => {},
        }
        proof {
            assert(views(drafts@) == bucket(prefix, Category::Draft));
            assert(views(approved@) == bucket(prefix, Category::Approved));
            assert(views(waiting_for_reviewers@) == bucket(prefix, Category::WaitingForReviewers));
        }
        k = k + 1;
    }
    proof {
        assert(own@.subrange(0, own.len() as int) == own@);
    }
    PullRequestData { needs_review, approved, waiting_for_reviewers, drafts }
}

} // verus!
