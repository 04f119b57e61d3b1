use neogh::github::graphql::{comment_threads, check_suites_from_reply, Author, GraphQLError, IssueCommentNode, ReviewThreadNode, ThreadCommentNode};
use neogh::github::pending::{pending_threads, PendingCommitNode, PendingReviewCommentNode, PendingReviewNode};
use neogh::types::Comment;

const NOW_SECS: i64 = 1_700_000_000;
const NOW: (i64, u32) = (NOW_SECS, 0);

fn tc(id: &str, db: i64, body: &str, author: Option<&str>, at: &str, path: Option<&str>, line: Option<i32>) -> ThreadCommentNode {
    ThreadCommentNode {
        id: id.to_string(),
        database_id: db,
        body: body.to_string(),
        author: author.map(|a| Author { login: a.to_string() }),
        created_at: at.to_string(),
        path: path.map(|p| p.to_string()),
        line,
        original_line: None,
    }
}

#[test]
fn comment_threads_from_graphql_nodes() {
    let review_threads = vec![
        ReviewThreadNode {
            id: "RT1".to_string(),
            is_resolved: true,
            path: Some("src/thread.rs".to_string()),
            line: Some(3),
            comments: vec![
                tc("C2", 2, "reply", Some("bob"), "2024-01-01T00:10:00Z", None, Some(3)),
                tc("C1", 1, "root", None, "2024-01-01T00:05:00Z", Some("src/own.rs"), Some(3)),
            ],
        },
        ReviewThreadNode { id: "RT2".to_string(), is_resolved: false, path: None, line: None, comments: vec![] },
    ];
    let issues = vec![IssueCommentNode {
        id: "IC1".to_string(),
        database_id: 9,
        body: "general".to_string(),
        author: Some(Author { login: "carol".to_string() }),
        created_at: "2024-01-01T00:00:00Z".to_string(),
    }];
    let threads = comment_threads(&review_threads, &issues, NOW);
    assert_eq!(threads.len(), 2);
    assert!(matches!(threads[0].root, Comment::Issue(ref ic) if ic.body == "general" && ic.user.login == "carol"));
    assert_eq!(threads[0].created_at(), 1704067200);
    let t = &threads[1];
    assert_eq!(t.thread_id.as_deref(), Some("RT1"));
    assert!(t.is_resolved);
    match &t.root {
        Comment::Review(rc) => {
            assert_eq!(rc.body, "root");
            assert_eq!(rc.user.login, "unknown");
            assert_eq!(rc.path, "src/own.rs");
            assert_eq!(rc.node_id.as_deref(), Some("C1"));
        }
        _ => panic!("expected a review comment"),
    }
    assert_eq!(t.replies.len(), 1);
    match &t.replies[0] {
        Comment::Review(rc) => {
            assert_eq!(rc.path, "src/thread.rs");
            assert_eq!(rc.line, Some(3));
        }
        _ => panic!("expected a review reply"),
    }
}

#[test]
fn unparsable_times_stand_at_now() {
    let issues = vec![IssueCommentNode {
        id: "IC".to_string(),
        database_id: 1,
        body: "b".to_string(),
        author: None,
        created_at: "yesterday".to_string(),
    }];
    let threads = comment_threads(&Vec::new(), &issues, (NOW_SECS, 7));
    assert_eq!(threads[0].created_at(), NOW_SECS);
    assert_eq!(threads[0].root.created_nanos(), 7);
}

fn pc(id: &str, db: i64, line: Option<i32>, at: &str, commit: Option<&str>) -> PendingReviewCommentNode {
    PendingReviewCommentNode {
        id: id.to_string(),
        database_id: db,
        body: format!("body {}", id),
        path: Some("src/p.rs".to_string()),
        line,
        original_line: Some(0),
        created_at: at.to_string(),
        html_url: None,
        diff_hunk: Some("@@".to_string()),
        commit: commit.map(|c| PendingCommitNode { oid: Some(c.to_string()) }),
        original_commit: None,
    }
}

#[test]
fn pending_threads_of_the_viewer() {
    let reviews = vec![
        PendingReviewNode {
            state: "PENDING".to_string(),
            author: Some(Author { login: "me".to_string() }),
            comments: vec![
                pc("P2", 5, Some(7), "2024-01-02T00:00:00Z", None),
                pc("P1", -3, Some(0), "2024-01-01T00:00:00Z", Some("abc")),
            ],
        },
        PendingReviewNode {
            state: "COMMENTED".to_string(),
            author: Some(Author { login: "me".to_string() }),
            comments: vec![pc("X", 1, None, "2024-01-01T00:00:00Z", None)],
        },
        PendingReviewNode {
            state: "PENDING".to_string(),
            author: Some(Author { login: "other".to_string() }),
            comments: vec![pc("Y", 1, None, "2024-01-01T00:00:00Z", None)],
        },
    ];
    let threads = pending_threads(&reviews, "me", Some("head".to_string()), NOW);
    assert_eq!(threads.len(), 2);
    match (&threads[0].root, &threads[1].root) {
        (Comment::Review(first), Comment::Review(second)) => {
            assert_eq!(first.node_id.as_deref(), Some("P1"));
            assert_eq!(first.id, 0);
            assert_eq!(first.line, None);
            assert_eq!(first.original_line, None);
            assert_eq!(first.commit_id, "abc");
            assert_eq!(first.original_commit_id, "abc");
            assert_eq!(second.commit_id, "head");
            assert_eq!(second.line, Some(7));
            assert_eq!(second.user.login, "me");
            assert_eq!(second.diff_hunk, "@@");
        }
        _ => panic!("expected review comments"),
    }
    assert!(threads.iter().all(|t| t.thread_id.is_none() && t.replies.is_empty()));
}

#[test]
fn check_run_reply_that_cannot_be_read() {
    match check_suites_from_reply(None, Err("missing field".to_string())) {
        Err(GraphQLError::RequestFailed(m)) => assert_eq!(m, "Parse error: missing field"),
        _ => panic!("expected an error"),
    }
}

#[test]
fn comments_within_one_second_keep_their_order_in_time() {
    let issue = |id: &str, at: &str| IssueCommentNode {
        id: id.to_string(),
        database_id: 1,
        body: id.to_string(),
        author: None,
        created_at: at.to_string(),
    };
    let issues = vec![issue("later", "2024-01-01T00:00:00.500Z"), issue("earlier", "2024-01-01T00:00:00.100Z")];
    let threads = comment_threads(&Vec::new(), &issues, NOW);
    assert_eq!(threads[0].root.body(), "earlier");
    assert_eq!(threads[1].root.body(), "later");
    assert_eq!(threads[0].root.created_nanos(), 100_000_000);
    assert_eq!(threads[0].created_at(), 1704067200);
}

#[test]
fn a_leap_second_comes_before_the_next_second() {
    let issue = |id: &str, at: &str| IssueCommentNode {
        id: id.to_string(),
        database_id: 1,
        body: id.to_string(),
        author: None,
        created_at: at.to_string(),
    };
    let issues = vec![issue("next", "2017-01-01T00:00:00.200Z"), issue("leap", "2016-12-31T23:59:60.500Z")];
    let threads = comment_threads(&Vec::new(), &issues, NOW);
    assert_eq!(threads[0].root.body(), "leap");
    assert_eq!(threads[0].root.created_nanos(), 1_500_000_000);
    assert_eq!(threads[1].root.body(), "next");
}
