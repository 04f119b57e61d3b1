//! Comment data: review comments on lines of code, issue comments, and threads.
use vstd::prelude::*;
use crate::clock::UtcTime;
use crate::order::Timestamped;
use crate::text::{line_count, lines_of};
use crate::ui::markup::{clean_body, cleaned_body};
use crate::ui::render::{comment_block, lemma_comment_block_len};

verus! {

/// User information
pub struct User {
    pub login: String,
    pub html_url: Option<String>,
}

/// A review comment on a specific line of code.
/// `created_at` is the creation time in whole seconds since the Unix epoch (UTC), and
/// `created_at_nanos` the nanoseconds past that second.
pub struct ReviewComment {
    pub id: u64,
    pub node_id: Option<String>,
    pub path: String,
    pub line: Option<u32>,
    pub original_line: Option<u32>,
    pub body: String,
    pub user: User,
    pub created_at: i64,
    pub created_at_nanos: u32,
    pub html_url: String,
    pub commit_id: String,
    pub original_commit_id: String,
    pub diff_hunk: String,
    pub in_reply_to_id: Option<u64>,
    pub pull_request_review_id: Option<u64>,
}

/// A general issue comment on the PR.
/// `created_at` is the creation time in whole seconds since the Unix epoch (UTC), and
/// `created_at_nanos` the nanoseconds past that second.
pub struct IssueComment {
    pub id: u64,
    pub node_id: Option<String>,
    pub body: String,
    pub user: User,
    pub created_at: i64,
    pub created_at_nanos: u32,
    pub html_url: String,
}

/// Unified comment type
pub enum Comment {
    Review(ReviewComment),
    Issue(IssueComment),
}

/// A root comment with its replies, as shown in the sidebar.
pub struct CommentThread {
    pub thread_id: Option<String>,
    pub is_resolved: bool,
    pub root: Comment,
    pub replies: Vec<Comment>,
}

impl Clone for User {
    fn clone(&self) -> (r: Self)
        ensures
            r == *self,
    {
        User { login: self.login.clone(), html_url: self.html_url.clone() }
    }
}

impl Clone for ReviewComment {
    fn clone(&self) -> (r: Self)
        ensures
            r == *self,
    {
        ReviewComment {
            id: self.id,
            node_id: self.node_id.clone(),
            path: self.path.clone(),
            line: self.line,
            original_line: self.original_line,
            body: self.body.clone(),
            user: self.user.clone(),
            created_at: self.created_at,
            created_at_nanos: self.created_at_nanos,
            html_url: self.html_url.clone(),
            commit_id: self.commit_id.clone(),
            original_commit_id: self.original_commit_id.clone(),
            diff_hunk: self.diff_hunk.clone(),
            in_reply_to_id: self.in_reply_to_id,
            pull_request_review_id: self.pull_request_review_id,
        }
    }
}

impl Clone for IssueComment {
    fn clone(&self) -> (r: Self)
        ensures
            r == *self,
    {
        IssueComment {
            id: self.id,
            node_id: self.node_id.clone(),
            body: self.body.clone(),
            user: self.user.clone(),
            created_at: self.created_at,
            created_at_nanos: self.created_at_nanos,
            html_url: self.html_url.clone(),
        }
    }
}

impl Clone for Comment {
    fn clone(&self) -> (r: Self)
        ensures
            r == *self,
    {
        match self {
            Comment::Review(c) => Comment::Review(c.clone()),
            Comment::Issue(c) => Comment::Issue(c.clone()),
        }
    }
}

/// Two threads with the same id, resolution, root and replies.
pub open spec fn same_thread(a: CommentThread, b: CommentThread) -> bool {
    &&& a.thread_id == b.thread_id
    &&& a.is_resolved == b.is_resolved
    &&& a.root == b.root
    &&& a.replies@ == b.replies@
}

/// Two sequences of threads that agree thread by thread.
pub open spec fn same_threads(a: Seq<CommentThread>, b: Seq<CommentThread>) -> bool {
    &&& a.len() == b.len()
    &&& forall|i: int| 0 <= i < a.len() ==> same_thread(#[trigger] a[i], b[i])
}

impl Clone for CommentThread {
    fn clone(&self) -> (r: Self)
        ensures
            same_thread(r, *self),
    {
        let replies = self.replies.clone();
        assert(replies@ =~= self.replies@);
        CommentThread {
            thread_id: self.thread_id.clone(),
            is_resolved: self.is_resolved,
            root: self.root.clone(),
            replies,
        }
    }
}

impl ReviewComment {
    /// The line to navigate to: the current line, else the original one.
    pub open spec fn spec_navigation_line(&self) -> Option<u32> {
        match self.line {
            Some(l) => Some(l),
            None => self.original_line,
        }
    }

    /// Outdated: the comment had a line when written, and that line is gone from the diff.
    pub open spec fn spec_is_line_deleted(&self) -> bool {
        self.line.is_none() && self.original_line.is_some()
    }

    /// The line to navigate to: the current line, else the original one.
    pub fn navigation_line(&self) -> (l: Option<u32>)
        ensures
            l == self.spec_navigation_line(),
    {
        match self.line {
            Some(l) => Some(l),
            None => self.original_line,
        }
    }

    /// Whether the line the comment was written on is gone from the diff.
    pub fn is_line_deleted(&self) -> (b: bool)
        ensures
            b == self.spec_is_line_deleted(),
    {
        self.line.is_none() && self.original_line.is_some()
    }
}

/// Number of lines a comment takes when rendered:
/// separator, header, author/time, sub-separator, the lines of the body once HTML is removed
/// from it (at least one), separator.
pub open spec fn comment_height_of(body: Seq<char>) -> nat {
    let n = lines_of(cleaned_body(body)).len();
    5 + if n == 0 { 1 } else { n }
}

impl Comment {
    /// The login of the comment's author.
    pub open spec fn spec_author(&self) -> Seq<char> {
        match self {
            Comment::Review(c) => c.user.login@,
            Comment::Issue(c) => c.user.login@,
        }
    }

    /// The text of the comment.
    pub open spec fn spec_body(&self) -> Seq<char> {
        match self {
            Comment::Review(c) => c.body@,
            Comment::Issue(c) => c.body@,
        }
    }

    /// The nanoseconds past the second of the comment's creation.
    pub open spec fn spec_created_nanos(&self) -> u32 {
        match self {
            Comment::Review(c) => c.created_at_nanos,
            Comment::Issue(c) => c.created_at_nanos,
        }
    }

    /// When the comment was created: its whole seconds since the Unix epoch.
    pub open spec fn spec_created_at(&self) -> i64 {
        match self {
            Comment::Review(c) => c.created_at,
            Comment::Issue(c) => c.created_at,
        }
    }

    /// File and line of a review comment that has a line; none for anything else.
    pub open spec fn spec_location(&self) -> Option<(Seq<char>, u32)> {
        match self {
            Comment::Review(c) => match c.line {
                Some(l) => Some((c.path@, l)),
                None => None,
            },
            Comment::Issue(_) => None,
        }
    }

    /// The number of lines the comment takes when rendered.
    pub open spec fn spec_height(&self) -> nat {
        comment_height_of(self.spec_body())
    }

    /// The login of the comment's author.
    pub fn author(&self) -> (a: &str)
        ensures
            a@ == self.spec_author(),
    {
        match self {
            Comment::Review(c) => c.user.login.as_str(),
            Comment::Issue(c) => c.user.login.as_str(),
        }
    }

    /// The text of the comment.
    pub fn body(&self) -> (b: &str)
        ensures
            b@ == self.spec_body(),
    {
        match self {
            Comment::Review(c) => c.body.as_str(),
            Comment::Issue(c) => c.body.as_str(),
        }
    }

    /// The nanoseconds past the second of the comment's creation.
    pub fn created_nanos(&self) -> (n: u32)
        ensures
            n == self.spec_created_nanos(),
    {
        match self {
            Comment::Review(c) => c.created_at_nanos,
            Comment::Issue(c) => c.created_at_nanos,
        }
    }

    /// When the comment was created: its whole seconds since the Unix epoch.
    pub fn created_at(&self) -> (t: i64)
        ensures
            t == self.spec_created_at(),
    {
        match self {
            Comment::Review(c) => c.created_at,
            Comment::Issue(c) => c.created_at,
        }
    }

    /// File and line of a review comment that has a line.
    pub fn location(&self) -> (loc: Option<(&str, u32)>)
        ensures
            match loc {
                Some((p, l)) => self.spec_location() == Some((p@, l)),
                None => self.spec_location().is_none(),
            },
    {
        match self {
            Comment::Review(c) => match c.line {
                Some(l) => Some((c.path.as_str(), l)),
                None => None,
            },
            Comment::Issue(_) => None,
        }
    }

    /// Number of lines this comment takes when rendered: `5 + max(1, lines of the cleaned
    /// body)`, the length of its block.
    pub fn height(&self) -> (h: usize)
        requires
            self.spec_height() <= usize::MAX,
        ensures
            h == self.spec_height(),
            forall|prefix: Seq<char>, resolved: bool, now: UtcTime|
                h == #[trigger] comment_block(*self, prefix, resolved, now).len(),
    {
        proof {
            assert forall|prefix: Seq<char>, resolved: bool, now: UtcTime|
                self.spec_height() == #[trigger] comment_block(*self, prefix, resolved, now).len() by {
                lemma_comment_block_len(*self, prefix, resolved, now);
            }
        }
        let cleaned = clean_body(self.body());
        let n = line_count(cleaned.as_str());
        if n == 0 {
            6
        } else {
            5 + n
        }
    }
}

/// A copy of a list of threads.
pub fn clone_threads(v: &Vec<CommentThread>) -> (r: Vec<CommentThread>)
    ensures
        same_threads(r@, v@),
{
    let mut r: Vec<CommentThread> = Vec::new();
    let mut i: usize = 0;
    while i < v.len()
        invariant
            i <= v@.len(),
            r@.len() == i,
            forall|j: int| 0 <= j < i ==> same_thread(#[trigger] r@[j], v@[j]),
        decreases v@.len() - i,
    {
        r.push(v[i].clone());
        i = i + 1;
    }
    r
}

impl CommentThread {
    /// A thread made of a single comment, unresolved and without id.
    pub fn single(comment: Comment) -> (t: Self)
        ensures
            t.thread_id.is_none(),
            !t.is_resolved,
            t.root == comment,
            t.replies@.len() == 0,
    {
        CommentThread { thread_id: None, is_resolved: false, root: comment, replies: Vec::new() }
    }

    /// Creation time of the thread: that of its root comment.
    pub fn created_at(&self) -> (t: i64)
        ensures
            t == self.root.spec_created_at(),
    {
        self.root.created_at()
    }
}

/// A number that orders instants as the pairs (seconds, nanoseconds) order, which is how
/// `chrono` orders `DateTime<Utc>` (a leap second, with 10^9 nanoseconds and more, comes
/// before the next second).
pub open spec fn instant_key(secs: i64, nanos: u32) -> i128 {
    (secs * 0x1_0000_0000 + nanos) as i128
}

fn instant_key_exec(secs: i64, nanos: u32) -> (t: i128)
    ensures
        t == instant_key(secs, nanos),
{
    secs as i128 * 0x1_0000_0000 + nanos as i128
}

/// Two instants compare by their keys as by their (seconds, nanoseconds) pairs.
pub proof fn lemma_instant_key_orders_pairs(s1: i64, n1: u32, s2: i64, n2: u32)
    ensures
        instant_key(s1, n1) <= instant_key(s2, n2) <==> (s1 < s2 || (s1 == s2 && n1 <= n2)),
{
    if s1 < s2 {
        assert(s1 * 0x1_0000_0000 + 0x1_0000_0000 <= s2 * 0x1_0000_0000) by (nonlinear_arith)
            requires
                s1 < s2,
        ;
    } else if s1 > s2 {
        assert(s2 * 0x1_0000_0000 + 0x1_0000_0000 <= s1 * 0x1_0000_0000) by (nonlinear_arith)
            requires
                s2 < s1,
        ;
    }
}

impl Timestamped for ReviewComment {
    open spec fn stamp(&self) -> i128 {
        instant_key(self.created_at, self.created_at_nanos)
    }

    fn timestamp(&self) -> (t: i128) {
        instant_key_exec(self.created_at, self.created_at_nanos)
    }
}

impl Timestamped for CommentThread {
    open spec fn stamp(&self) -> i128 {
        instant_key(self.root.spec_created_at(), self.root.spec_created_nanos())
    }

    fn timestamp(&self) -> (t: i128) {
        instant_key_exec(self.root.created_at(), self.root.created_nanos())
    }
}

} // verus!
