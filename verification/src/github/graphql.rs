//! GitHub GraphQL replies, and the library values they turn into.
use vstd::prelude::*;
use crate::clock::{UtcTime, parse_timestamp, parsed_timestamp, timestamp_or, timestamp_or_now};
use crate::github::workflow::{conclusion_from_name, status_from_name, CheckConclusion, CheckRun,
    CheckStatus, CheckSuite};
use crate::order::{sort_by_timestamp, sorted_by_stamp};
use crate::types::comment::{Comment, CommentThread, IssueComment, ReviewComment, User};

verus! {

broadcast use vstd::string::group_string_axioms;

/// A GitHub GraphQL request that failed.
#[derive(Debug)]
pub enum GraphQLError {
    RequestFailed(String),
}

/// The message shown for a `GraphQLError`.
pub open spec fn graphql_error_text(e: GraphQLError) -> Seq<char> {
    match e {
        GraphQLError::RequestFailed(msg) => "Request failed: "@ + msg@,
    }
}

impl GraphQLError {
    /// The message of the error, as its `Display` writes it.
    pub fn message(&self) -> (s: String)
        ensures
            s@ == graphql_error_text(*self),
    {
        match self {
            GraphQLError::RequestFailed(msg) => {
                let mut s = String::from_str("Request failed: ");
                s.append(msg.as_str());
                s
            },
        }
    }
}

/// A pull request as the related-pull-requests query returns it.
pub struct PrInfo {
    pub number: u64,
    pub title: String,
    pub head_ref_name: String,
    pub base_ref_name: String,
}

/// The open pull request whose head is the queried base (the parent), and the open pull
/// requests whose base is the queried head (the children).
pub struct RelatedPrs {
    pub parent: Option<PrInfo>,
    pub children: Vec<PrInfo>,
}

/// The parent is the first pull request found by head; the children are all found by base.
pub fn related_prs_from_nodes(prs_by_head: Vec<PrInfo>, prs_by_base: Vec<PrInfo>) -> (r:
    RelatedPrs)
    ensures
        match r.parent {
            Some(p) => prs_by_head@.len() > 0 && p == prs_by_head@[0],
            None => prs_by_head@.len() == 0,
        },
        r.children@ == prs_by_base@,
{
    let mut by_head = prs_by_head;
    let parent = if by_head.len() > 0 {
        Some(by_head.remove(0))
    } else {
        None
    };
    RelatedPrs { parent, children: prs_by_base }
}

/// Whether a review thread is resolved after a `resolveReviewThread` mutation:
/// what the reply reports, false when it reports nothing.
pub fn resolved_after_resolve(reported: Option<bool>) -> (b: bool)
    ensures
        b == match reported {
            Some(v) => v,
            None => false,
        },
{
    match reported {
        Some(v) => v,
        None => false,
    }
}

/// Whether a review thread is resolved after an `unresolveReviewThread` mutation:
/// what the reply reports, true when it reports nothing.
pub fn resolved_after_unresolve(reported: Option<bool>) -> (b: bool)
    ensures
        b == match reported {
            Some(v) => v,
            None => true,
        },
{
    match reported {
        Some(v) => v,
        None => true,
    }
}


// ---------------------------------------------------------------------------
// Pull request comments
// ---------------------------------------------------------------------------

/// The author of a comment, as GraphQL returns it.
pub struct Author {
    pub login: String,
}

/// A comment of a review thread, as GraphQL returns it.
pub struct ThreadCommentNode {
    pub id: String,
    pub database_id: i64,
    pub body: String,
    pub author: Option<Author>,
    pub created_at: String,
    pub path: Option<String>,
    pub line: Option<i32>,
    pub original_line: Option<i32>,
}

/// A review thread, as GraphQL returns it.
pub struct ReviewThreadNode {
    pub id: String,
    pub is_resolved: bool,
    pub path: Option<String>,
    pub line: Option<i32>,
    pub comments: Vec<ThreadCommentNode>,
}

/// An issue comment of a pull request, as GraphQL returns it.
pub struct IssueCommentNode {
    pub id: String,
    pub database_id: i64,
    pub body: String,
    pub author: Option<Author>,
    pub created_at: String,
}

/// The login of an author, or `unknown` without one.
pub open spec fn login_or_unknown(a: Option<Author>) -> Seq<char> {
    match a {
        Some(x) => x.login@,
        None => "unknown"@,
    }
}

/// A line number of the API as the comment model holds it.
pub open spec fn line_of(l: Option<i32>) -> Option<u32> {
    match l {
        Some(v) => Some(v as u32),
        None => None,
    }
}

/// The path of a comment, else that of its thread, else empty.
pub open spec fn comment_path(own: Option<String>, thread: Option<String>) -> Seq<char> {
    match own {
        Some(p) => p@,
        None => match thread {
            Some(p) => p@,
            None => Seq::empty(),
        },
    }
}

/// A user with the given login and no profile URL.
pub open spec fn user_is(u: User, login: Seq<char>) -> bool {
    u.login@ == login && u.html_url.is_none()
}

/// `rc` is the review comment made of comment node `c` of a thread with path `thread_path`,
/// with `now` standing in for a creation time that does not parse.
pub open spec fn review_comment_from(
    rc: ReviewComment,
    thread_path: Option<String>,
    c: ThreadCommentNode,
    now: UtcTime,
) -> bool {
    &&& rc.id == c.database_id as u64
    &&& rc.node_id == Some(c.id)
    &&& rc.path@ == comment_path(c.path, thread_path)
    &&& rc.line == line_of(c.line)
    &&& rc.original_line == line_of(c.original_line)
    &&& rc.body == c.body
    &&& user_is(rc.user, login_or_unknown(c.author))
    &&& (rc.created_at, rc.created_at_nanos) == timestamp_or(c.created_at@, now)
    &&& rc.html_url@.len() == 0
    &&& rc.commit_id@.len() == 0
    &&& rc.original_commit_id@.len() == 0
    &&& rc.diff_hunk@.len() == 0
    &&& rc.in_reply_to_id.is_none()
    &&& rc.pull_request_review_id.is_none()
}

/// `cs` are the review comments made of the comments of thread `node`, in the order of the reply.
pub open spec fn comments_from(cs: Seq<ReviewComment>, node: ReviewThreadNode, now: UtcTime) -> bool {
    &&& cs.len() == node.comments@.len()
    &&& forall|i: int|
        0 <= i < cs.len() ==> review_comment_from(
            #[trigger] cs[i],
            node.path,
            node.comments@[i],
            now,
        )
}

/// `t` is the thread of `sorted`: its first comment is the root, the others are replies.
pub open spec fn thread_of_sorted(t: CommentThread, node: ReviewThreadNode, sorted: Seq<ReviewComment>) -> bool {
    &&& t.thread_id == Some(node.id)
    &&& t.is_resolved == node.is_resolved
    &&& t.root == Comment::Review(sorted[0])
    &&& t.replies@ == sorted.drop_first().map_values(|c: ReviewComment| Comment::Review(c))
}

/// `t` is the thread made of review thread `node`: its comments sorted by creation time
/// (stably), the first as root and the others as replies.
pub open spec fn thread_from(t: CommentThread, node: ReviewThreadNode, now: UtcTime) -> bool {
    exists|cs: Seq<ReviewComment>|
        #[trigger] comments_from(cs, node, now) && thread_of_sorted(t, node, sorted_by_stamp(cs))
}

/// `t` is the single-comment thread made of issue comment `n`.
pub open spec fn issue_thread_from(t: CommentThread, n: IssueCommentNode, now: UtcTime) -> bool {
    &&& t.thread_id.is_none()
    &&& !t.is_resolved
    &&& t.replies@.len() == 0
    &&& t.root matches Comment::Issue(ic) && {
        &&& ic.id == n.database_id as u64
        &&& ic.node_id == Some(n.id)
        &&& ic.body == n.body
        &&& user_is(ic.user, login_or_unknown(n.author))
        &&& (ic.created_at, ic.created_at_nanos) == timestamp_or(n.created_at@, now)
        &&& ic.html_url@.len() == 0
    }
}

/// The review threads that have at least one comment, in order.
pub open spec fn threads_with_comments(s: Seq<ReviewThreadNode>) -> Seq<ReviewThreadNode>
    decreases s.len(),
{
    if s.len() == 0 {
        s
    } else {
        let p = threads_with_comments(s.drop_last());
        if s.last().comments@.len() > 0 {
            p.push(s.last())
        } else {
            p
        }
    }
}

/// `pre` holds a thread for each review thread with comments, then one for each issue comment.
pub open spec fn threads_before_sorting(
    pre: Seq<CommentThread>,
    review_threads: Seq<ReviewThreadNode>,
    issues: Seq<IssueCommentNode>,
    now: UtcTime,
) -> bool {
    let kept = threads_with_comments(review_threads);
    &&& pre.len() == kept.len() + issues.len()
    &&& forall|i: int| 0 <= i < kept.len() ==> thread_from(#[trigger] pre[i], kept[i], now)
    &&& forall|j: int|
        0 <= j < issues.len() ==> issue_thread_from(#[trigger] pre[kept.len() + j], issues[j], now)
}

fn login_text(author: &Option<Author>) -> (s: String)
    ensures
        s@ == login_or_unknown(*author),
{
    match author {
        Some(a) => a.login.clone(),
        None => String::from_str("unknown"),
    }
}

fn line_value(l: Option<i32>) -> (r: Option<u32>)
    ensures
        r == line_of(l),
{
    match l {
        Some(v) => Some(v as u32),
        None => None,
    }
}

fn review_comment_of(thread_path: &Option<String>, c: &ThreadCommentNode, now: UtcTime) -> (rc: ReviewComment)
    ensures
        review_comment_from(rc, *thread_path, *c, now),
{
    let path = match &c.path {
        Some(p) => p.clone(),
        None => match thread_path {
            Some(p) => p.clone(),
            None => String::new(),
        },
    };
    let (created_at, created_at_nanos) = timestamp_or_now(c.created_at.as_str(), now);
    ReviewComment {
        id: c.database_id as u64,
        node_id: Some(c.id.clone()),
        path,
        line: line_value(c.line),
        original_line: line_value(c.original_line),
        body: c.body.clone(),
        user: User { login: login_text(&c.author), html_url: None },
        created_at,
        created_at_nanos,
        html_url: String::new(),
        commit_id: String::new(),
        original_commit_id: String::new(),
        diff_hunk: String::new(),
        in_reply_to_id: None,
        pull_request_review_id: None,
    }
}

fn thread_of_node(node: &ReviewThreadNode, now: UtcTime) -> (t: CommentThread)
    requires
        node.comments@.len() > 0,
    ensures
        thread_from(t, *node, now),
{
    let mut cs: Vec<ReviewComment> = Vec::new();
    let n = node.comments.len();
    let mut i: usize = 0;
    while i < n
        invariant
            n == node.comments@.len(),
            i <= n,
            cs@.len() == i,
            forall|k: int|
                0 <= k < i ==> review_comment_from(
                    #[trigger] cs@[k],
                    node.path,
                    node.comments@[k],
                    now,
                ),
        decreases n - i,
    {
        cs.push(review_comment_of(&node.path, &node.comments[i], now));
        i = i + 1;
    }
    let ghost unsorted = cs@;
    assert(comments_from(unsorted, *node, now));
    let mut sorted = sort_by_timestamp(cs);
    proof {
        crate::order::lemma_sorted_by_stamp(unsorted);
    }
    let root = sorted.remove(0);
    let ghost rest = sorted@;
    let mut replies: Vec<Comment> = Vec::new();
    let m = sorted.len();
    let mut j: usize = 0;
    while j < m
        invariant
            m == rest.len(),
            sorted@ == rest.skip(j as int),
            j <= m,
            replies@ == rest.take(j as int).map_values(|c: ReviewComment| Comment::Review(c)),
        decreases m - j,
    {
        let c = sorted.remove(0);
        assert(c == rest[j as int]) by {
            assert(rest.skip(j as int)[0] == rest[j as int]);
        }
        replies.push(Comment::Review(c));
        assert(replies@ =~= rest.take(j + 1).map_values(|c: ReviewComment| Comment::Review(c)));
        assert(sorted@ =~= rest.skip(j + 1));
        j = j + 1;
    }
    assert(rest.take(m as int) =~= rest);
    let t = CommentThread {
        thread_id: Some(node.id.clone()),
        is_resolved: node.is_resolved,
        root: Comment::Review(root),
        replies,
    };
    assert(thread_of_sorted(t, *node, sorted_by_stamp(unsorted)));
    t
}

fn issue_thread_of(n: &IssueCommentNode, now: UtcTime) -> (t: CommentThread)
    ensures
        issue_thread_from(t, *n, now),
{
    let (created_at, created_at_nanos) = timestamp_or_now(n.created_at.as_str(), now);
    CommentThread::single(
        Comment::Issue(
            IssueComment {
                id: n.database_id as u64,
                node_id: Some(n.id.clone()),
                body: n.body.clone(),
                user: User { login: login_text(&n.author), html_url: None },
                created_at,
                created_at_nanos,
                html_url: String::new(),
            },
        ),
    )
}

/// The threads of a pull request made of its review threads and issue comments, sorted by
/// creation time; `now` stands in for a creation time that does not parse.
pub fn comment_threads(
    review_threads: &Vec<ReviewThreadNode>,
    issue_comments: &Vec<IssueCommentNode>,
    now: UtcTime,
) -> (threads: Vec<CommentThread>)
    ensures
        exists|pre: Seq<CommentThread>|
            #[trigger] threads_before_sorting(pre, review_threads@, issue_comments@, now)
                && threads@ == sorted_by_stamp(pre),
{
    let mut threads: Vec<CommentThread> = Vec::new();
    let n = review_threads.len();
    let mut i: usize = 0;
    while i < n
        invariant
            n == review_threads@.len(),
            i <= n,
            threads@.len() == threads_with_comments(review_threads@.take(i as int)).len(),
            forall|k: int|
                0 <= k < threads@.len() ==> thread_from(
                    #[trigger] threads@[k],
                    threads_with_comments(review_threads@.take(i as int))[k],
                    now,
                ),
        decreases n - i,
    {
        assert(review_threads@.take(i + 1).drop_last() =~= review_threads@.take(i as int));
        let node = &review_threads[i];
        if node.comments.len() > 0 {
            let t = thread_of_node(node, now);
            threads.push(t);
        }
        i = i + 1;
    }
    assert(review_threads@.take(n as int) =~= review_threads@);
    let ghost kept = threads_with_comments(review_threads@);
    let k0 = threads.len();
    let m = issue_comments.len();
    let mut j: usize = 0;
    while j < m
        invariant
            m == issue_comments@.len(),
            j <= m,
            k0 == kept.len(),
            kept == threads_with_comments(review_threads@),
            threads@.len() == k0 + j,
            forall|k: int| 0 <= k < k0 ==> thread_from(#[trigger] threads@[k], kept[k], now),
            forall|k: int|
                0 <= k < j ==> issue_thread_from(#[trigger] threads@[k0 + k], issue_comments@[k], now),
        decreases m - j,
    {
        let t = issue_thread_of(&issue_comments[j], now);
        threads.push(t);
        assert forall|k: int| 0 <= k < j + 1 implies issue_thread_from(
            #[trigger] threads@[k0 + k],
            issue_comments@[k],
            now,
        ) by {}
        j = j + 1;
    }
    let ghost pre = threads@;
    assert(threads_before_sorting(pre, review_threads@, issue_comments@, now));
    sort_by_timestamp(threads)
}



// ---------------------------------------------------------------------------
// Check suites of the latest commit
// ---------------------------------------------------------------------------

/// The app that ran a check suite, as GraphQL returns it.
pub struct AppInfo {
    pub name: String,
}

/// A check run, as GraphQL returns it.
pub struct CheckRunNode {
    pub name: String,
    pub status: String,
    pub conclusion: Option<String>,
    pub started_at: Option<String>,
    pub completed_at: Option<String>,
    pub details_url: Option<String>,
}

/// A check suite, as GraphQL returns it.
pub struct CheckSuiteNode {
    pub app: Option<AppInfo>,
    pub status: String,
    pub conclusion: Option<String>,
    pub check_runs: Option<Vec<CheckRunNode>>,
}

/// A commit with its check suites, as GraphQL returns it.
pub struct CommitNode {
    pub check_suites: Option<Vec<CheckSuiteNode>>,
}

/// The conclusion an optional API name stands for.
pub open spec fn conclusion_of(c: Option<String>) -> Option<CheckConclusion> {
    match c {
        Some(name) => Some(conclusion_from_name(name@)),
        None => None,
    }
}

/// The time stamp of an optional API time; none when absent or not parsing.
pub open spec fn time_of(t: Option<String>) -> Option<UtcTime> {
    match t {
        Some(text) => parsed_timestamp(text@),
        None => None,
    }
}

/// The check run made of a check run node.
pub open spec fn run_of(n: CheckRunNode) -> CheckRun {
    CheckRun {
        name: n.name,
        status: status_from_name(n.status@),
        conclusion: conclusion_of(n.conclusion),
        started_at: time_of(n.started_at),
        completed_at: time_of(n.completed_at),
        details_url: n.details_url,
    }
}

/// The runs of a suite node; none when the node has no run connection.
pub open spec fn runs_of(runs: Option<Vec<CheckRunNode>>) -> Seq<CheckRun> {
    match runs {
        Some(v) => v@.map_values(|n: CheckRunNode| run_of(n)),
        None => Seq::empty(),
    }
}

/// `s` is the check suite made of suite node `n`.
pub open spec fn suite_from(s: CheckSuite, n: CheckSuiteNode) -> bool {
    &&& s.app_name@ == match n.app {
        Some(a) => a.name@,
        None => "Unknown"@,
    }
    &&& s.status == status_from_name(n.status@)
    &&& s.conclusion == conclusion_of(n.conclusion)
    &&& s.check_runs@ == runs_of(n.check_runs)
}

/// The suite nodes of all commits, in order; commits without suites add none.
pub open spec fn suite_nodes(commits: Seq<CommitNode>) -> Seq<CheckSuiteNode>
    decreases commits.len(),
{
    if commits.len() == 0 {
        Seq::empty()
    } else {
        suite_nodes(commits.drop_last()) + match commits.last().check_suites {
            Some(v) => v@,
            None => Seq::empty(),
        }
    }
}

fn optional_time(t: &Option<String>) -> (r: Option<UtcTime>)
    ensures
        r == time_of(*t),
{
    match t {
        Some(text) => parse_timestamp(text.as_str()),
        None => None,
    }
}

fn run_of_node(n: &CheckRunNode) -> (r: CheckRun)
    ensures
        r == run_of(*n),
{
    CheckRun {
        name: n.name.clone(),
        status: CheckStatus::from_str(n.status.as_str()),
        conclusion: match &n.conclusion {
            Some(c) => Some(CheckConclusion::from_str(c.as_str())),
            None => None,
        },
        started_at: optional_time(&n.started_at),
        completed_at: optional_time(&n.completed_at),
        details_url: n.details_url.clone(),
    }
}

fn suite_of_node(n: &CheckSuiteNode) -> (s: CheckSuite)
    ensures
        suite_from(s, *n),
{
    let app_name = match &n.app {
        Some(a) => a.name.clone(),
        None => String::from_str("Unknown"),
    };
    let mut check_runs: Vec<CheckRun> = Vec::new();
    match &n.check_runs {
        Some(runs) => {
            let k = runs.len();
            let mut i: usize = 0;
            while i < k
                invariant
                    k == runs@.len(),
                    i <= k,
                    check_runs@ == runs@.take(i as int).map_values(|r: CheckRunNode| run_of(r)),
                decreases k - i,
            {
                check_runs.push(run_of_node(&runs[i]));
                assert(check_runs@ =~= runs@.take(i + 1).map_values(|r: CheckRunNode| run_of(r)));
                i = i + 1;
            }
            assert(runs@.take(k as int) =~= runs@);
        },
        None => {
            assert(check_runs@ =~= Seq::<CheckRun>::empty());
        },
    }
    CheckSuite {
        app_name,
        status: CheckStatus::from_str(n.status.as_str()),
        conclusion: match &n.conclusion {
            Some(c) => Some(CheckConclusion::from_str(c.as_str())),
            None => None,
        },
        check_runs,
    }
}

/// The check suites of the commits of a reply, in order.
pub fn check_suites_of(commits: &Vec<CommitNode>) -> (suites: Vec<CheckSuite>)
    ensures
        suites@.len() == suite_nodes(commits@).len(),
        forall|i: int| 0 <= i < suites@.len() ==> suite_from(#[trigger] suites@[i], suite_nodes(commits@)[i]),
{
    let mut suites: Vec<CheckSuite> = Vec::new();
    let n = commits.len();
    let mut c: usize = 0;
    while c < n
        invariant
            n == commits@.len(),
            c <= n,
            suites@.len() == suite_nodes(commits@.take(c as int)).len(),
            forall|i: int|
                0 <= i < suites@.len() ==> suite_from(
                    #[trigger] suites@[i],
                    suite_nodes(commits@.take(c as int))[i],
                ),
        decreases n - c,
    {
        assert(commits@.take(c + 1).drop_last() =~= commits@.take(c as int));
        let ghost prev = suite_nodes(commits@.take(c as int));
        match &commits[c].check_suites {
            Some(nodes) => {
                let k = nodes.len();
                let mut j: usize = 0;
                while j < k
                    invariant
                        k == nodes@.len(),
                        j <= k,
                        prev == suite_nodes(commits@.take(c as int)),
                        suite_nodes(commits@.take(c + 1)) == prev + nodes@,
                        suites@.len() == prev.len() + j,
                        forall|i: int|
                            0 <= i < suites@.len() ==> suite_from(
                                #[trigger] suites@[i],
                                (prev + nodes@)[i],
                            ),
                    decreases k - j,
                {
                    suites.push(suite_of_node(&nodes[j]));
                    j = j + 1;
                }
            },
            None => {
                assert(suite_nodes(commits@.take(c + 1)) =~= prev);
            },
        }
        c = c + 1;
    }
    assert(commits@.take(n as int) =~= commits@);
    suites
}

/// The suites of a check-runs reply: an error when the reply reports GraphQL errors, or
/// when it could not be read; else the suites of its commits.
pub fn check_suites_from_reply(errors: Option<String>, commits: Result<Vec<CommitNode>, String>) -> (r:
    Result<Vec<CheckSuite>, GraphQLError>)
    ensures
        match errors {
            Some(e) => r matches Err(GraphQLError::RequestFailed(msg)) && msg@ == "GraphQL error: "@
                + e@,
            None => match commits {
                Err(p) => r matches Err(GraphQLError::RequestFailed(msg)) && msg@ == "Parse error: "@
                    + p@,
                Ok(cs) => r matches Ok(suites) && suites@.len() == suite_nodes(cs@).len() && forall|
                    i: int,
                | 0 <= i < suites@.len() ==> suite_from(#[trigger] suites@[i], suite_nodes(cs@)[i]),
            },
        },
{
    match errors {
        Some(e) => {
            let mut msg = String::from_str("GraphQL error: ");
            msg.append(e.as_str());
            Err(GraphQLError::RequestFailed(msg))
        },
        None => match commits {
            Err(p) => {
                let mut msg = String::from_str("Parse error: ");
                msg.append(p.as_str());
                Err(GraphQLError::RequestFailed(msg))
            },
            Ok(cs) => Ok(check_suites_of(&cs)),
        },
    }
}

} // verus!
