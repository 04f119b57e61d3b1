//! Pending review comments of the viewer.
use vstd::prelude::*;
use crate::clock::{UtcTime, timestamp_or, timestamp_or_now};
use crate::github::graphql::{login_or_unknown, user_is, Author};
use crate::order::{sort_by_timestamp, sorted_by_stamp};
use crate::text::str_eq;
use crate::types::comment::{Comment, CommentThread, ReviewComment, User};

verus! {

broadcast use vstd::string::group_string_axioms;

/// Why pending review comments could not be fetched, edited or deleted.
#[derive(Debug)]
pub enum PendingCommentsError {
    RequestFailed(String),
}

/// The message shown for a `PendingCommentsError`.
pub open spec fn pending_error_text(e: PendingCommentsError) -> Seq<char> {
    match e {
        PendingCommentsError::RequestFailed(msg) => "Request failed: "@ + msg@,
    }
}

impl PendingCommentsError {
    /// The message of the error, as its `Display` writes it.
    pub fn message(&self) -> (s: String)
        ensures
            s@ == pending_error_text(*self),
    {
        match self {
            PendingCommentsError::RequestFailed(msg) => {
                let mut s = String::from_str("Request failed: ");
                s.append(msg.as_str());
                s
            },
        }
    }
}


/// A commit reference of a review comment, as GraphQL returns it.
pub struct PendingCommitNode {
    pub oid: Option<String>,
}

/// A comment of a review, as GraphQL returns it.
pub struct PendingReviewCommentNode {
    pub id: String,
    pub database_id: i64,
    pub body: String,
    pub path: Option<String>,
    pub line: Option<i32>,
    pub original_line: Option<i32>,
    pub created_at: String,
    pub html_url: Option<String>,
    pub diff_hunk: Option<String>,
    pub commit: Option<PendingCommitNode>,
    pub original_commit: Option<PendingCommitNode>,
}

/// A review of a pull request, as GraphQL returns it.
pub struct PendingReviewNode {
    pub state: String,
    pub author: Option<Author>,
    pub comments: Vec<PendingReviewCommentNode>,
}

/// A positive line number; none for zero, negative or absent.
pub open spec fn positive_line(l: Option<i32>) -> Option<u32> {
    match l {
        Some(v) => if v > 0 {
            Some(v as u32)
        } else {
            None
        },
        None => None,
    }
}

/// The commit id named by an optional commit node, if it names one.
pub open spec fn oid_of(c: Option<PendingCommitNode>) -> Option<Seq<char>> {
    match c {
        Some(n) => match n.oid {
            Some(o) => Some(o@),
            None => None,
        },
        None => None,
    }
}

/// A text, or the empty text.
pub open spec fn text_or_empty(t: Option<String>) -> Seq<char> {
    match t {
        Some(s) => s@,
        None => Seq::empty(),
    }
}

/// `rc` is the comment made of pending comment `c` of a review by `login`, on a pull request
/// whose head commit is `head`, with `now` standing in for a time that does not parse.
pub open spec fn pending_comment_from(
    rc: ReviewComment,
    login: Seq<char>,
    head: Seq<char>,
    c: PendingReviewCommentNode,
    now: UtcTime,
) -> bool {
    let commit = match oid_of(c.commit) {
        Some(o) => o,
        None => head,
    };
    &&& rc.id == (if c.database_id > 0 { c.database_id } else { 0 }) as u64
    &&& rc.node_id == Some(c.id)
    &&& rc.path@ == text_or_empty(c.path)
    &&& rc.line == positive_line(c.line)
    &&& rc.original_line == positive_line(c.original_line)
    &&& rc.body == c.body
    &&& user_is(rc.user, login)
    &&& (rc.created_at, rc.created_at_nanos) == timestamp_or(c.created_at@, now)
    &&& rc.html_url@ == text_or_empty(c.html_url)
    &&& rc.commit_id@ == commit
    &&& rc.original_commit_id@ == match oid_of(c.original_commit) {
        Some(o) => o,
        None => commit,
    }
    &&& rc.diff_hunk@ == text_or_empty(c.diff_hunk)
    &&& rc.in_reply_to_id.is_none()
    &&& rc.pull_request_review_id.is_none()
}

/// Whether a review is a pending review of `viewer`.
pub open spec fn is_viewers_pending(r: PendingReviewNode, viewer: Seq<char>) -> bool {
    r.state@ == "PENDING"@ && login_or_unknown(r.author) == viewer
}

/// The comments of the viewer's pending reviews, in order, each with its author's login.
pub open spec fn pending_comments(reviews: Seq<PendingReviewNode>, viewer: Seq<char>) -> Seq<
    (Seq<char>, PendingReviewCommentNode),
>
    decreases reviews.len(),
{
    if reviews.len() == 0 {
        Seq::empty()
    } else {
        let r = reviews.last();
        pending_comments(reviews.drop_last(), viewer) + if is_viewers_pending(r, viewer) {
            r.comments@.map_values(|c: PendingReviewCommentNode| (login_or_unknown(r.author), c))
        } else {
            Seq::empty()
        }
    }
}

/// `t` is the single-comment thread of a pending comment.
pub open spec fn pending_thread_from(
    t: CommentThread,
    login: Seq<char>,
    head: Seq<char>,
    c: PendingReviewCommentNode,
    now: UtcTime,
) -> bool {
    &&& t.thread_id.is_none()
    &&& !t.is_resolved
    &&& t.replies@.len() == 0
    &&& t.root matches Comment::Review(rc) && pending_comment_from(rc, login, head, c, now)
}

/// `pre` holds a thread for each comment of the viewer's pending reviews, in order.
pub open spec fn pending_before_sorting(
    pre: Seq<CommentThread>,
    reviews: Seq<PendingReviewNode>,
    viewer: Seq<char>,
    head: Seq<char>,
    now: UtcTime,
) -> bool {
    let cs = pending_comments(reviews, viewer);
    &&& pre.len() == cs.len()
    &&& forall|i: int|
        0 <= i < cs.len() ==> pending_thread_from(#[trigger] pre[i], cs[i].0, head, cs[i].1, now)
}

fn text_value(t: &Option<String>) -> (s: String)
    ensures
        s@ == text_or_empty(*t),
{
    match t {
        Some(v) => v.clone(),
        None => String::new(),
    }
}

fn positive_line_value(l: Option<i32>) -> (r: Option<u32>)
    ensures
        r == positive_line(l),
{
    match l {
        Some(v) => if v > 0 {
            Some(v as u32)
        } else {
            None
        },
        None => None,
    }
}

fn oid_value(c: &Option<PendingCommitNode>) -> (r: Option<String>)
    ensures
        match r {
            Some(o) => oid_of(*c) == Some(o@),
            None => oid_of(*c).is_none(),
        },
{
    match c {
        Some(n) => match &n.oid {
            Some(o) => Some(o.clone()),
            None => None,
        },
        None => None,
    }
}

fn pending_comment_of(login: &String, head: &String, c: &PendingReviewCommentNode, now: UtcTime) -> (rc:
    ReviewComment)
    ensures
        pending_comment_from(rc, login@, head@, *c, now),
{
    let commit_id = match oid_value(&c.commit) {
        Some(o) => o,
        None => head.clone(),
    };
    let original_commit_id = match oid_value(&c.original_commit) {
        Some(o) => o,
        None => commit_id.clone(),
    };
    let id: i64 = if c.database_id > 0 {
        c.database_id
    } else {
        0
    };
    let (created_at, created_at_nanos) = timestamp_or_now(c.created_at.as_str(), now);
    ReviewComment {
        id: id as u64,
        node_id: Some(c.id.clone()),
        path: text_value(&c.path),
        line: positive_line_value(c.line),
        original_line: positive_line_value(c.original_line),
        body: c.body.clone(),
        user: User { login: login.clone(), html_url: None },
        created_at,
        created_at_nanos,
        html_url: text_value(&c.html_url),
        commit_id,
        original_commit_id,
        diff_hunk: text_value(&c.diff_hunk),
        in_reply_to_id: None,
        pull_request_review_id: None,
    }
}

/// The viewer's pending review comments, one thread each, sorted by creation time; `now`
/// stands in for a creation time that does not parse, the head commit for a missing commit.
pub fn pending_threads(
    reviews: &Vec<PendingReviewNode>,
    viewer_login: &str,
    head_ref_oid: Option<String>,
    now: UtcTime,
) -> (threads: Vec<CommentThread>)
    ensures
        exists|pre: Seq<CommentThread>|
            #[trigger] pending_before_sorting(
                pre,
                reviews@,
                viewer_login@,
                text_or_empty(head_ref_oid),
                now,
            ) && threads@ == sorted_by_stamp(pre),
{
    let head = text_value(&head_ref_oid);
    let mut threads: Vec<CommentThread> = Vec::new();
    let n = reviews.len();
    let mut i: usize = 0;
    while i < n
        invariant
            n == reviews@.len(),
            i <= n,
            head@ == text_or_empty(head_ref_oid),
            threads@.len() == pending_comments(reviews@.take(i as int), viewer_login@).len(),
            forall|k: int|
                0 <= k < threads@.len() ==> pending_thread_from(
                    #[trigger] threads@[k],
                    pending_comments(reviews@.take(i as int), viewer_login@)[k].0,
                    head@,
                    pending_comments(reviews@.take(i as int), viewer_login@)[k].1,
                    now,
                ),
        decreases n - i,
    {
        assert(reviews@.take(i + 1).drop_last() =~= reviews@.take(i as int));
        let ghost prev = pending_comments(reviews@.take(i as int), viewer_login@);
        let review = &reviews[i];
        let author_login = match &review.author {
            Some(a) => a.login.clone(),
            None => String::from_str("unknown"),
        };
        if str_eq(review.state.as_str(), "PENDING") && str_eq(author_login.as_str(), viewer_login) {
            let ghost added = review.comments@.map_values(
                |c: PendingReviewCommentNode| (login_or_unknown(review.author), c),
            );
            assert(pending_comments(reviews@.take(i + 1), viewer_login@) == prev + added);
            let k = review.comments.len();
            let mut j: usize = 0;
            while j < k
                invariant
                    k == review.comments@.len(),
                    j <= k,
                    author_login@ == login_or_unknown(review.author),
                    added == review.comments@.map_values(
                        |c: PendingReviewCommentNode| (login_or_unknown(review.author), c),
                    ),
                    threads@.len() == prev.len() + j,
                    forall|q: int|
                        0 <= q < threads@.len() ==> pending_thread_from(
                            #[trigger] threads@[q],
                            (prev + added)[q].0,
                            head@,
                            (prev + added)[q].1,
                            now,
                        ),
                decreases k - j,
            {
                let rc = pending_comment_of(&author_login, &head, &review.comments[j], now);
                threads.push(CommentThread::single(Comment::Review(rc)));
                j = j + 1;
            }
        } else {
            assert(pending_comments(reviews@.take(i + 1), viewer_login@) =~= prev);
        }
        i = i + 1;
    }
    assert(reviews@.take(n as int) =~= reviews@);
    let ghost pre = threads@;
    assert(pending_before_sorting(pre, reviews@, viewer_login@, head@, now));
    sort_by_timestamp(threads)
}


} // verus!
