use neogh::text::{is_blank_str, join_strings, line_count, replace_str, split_lines, str_eq, trim};
use neogh::types::{Comment, CommentThread, IssueComment, ReviewComment, SidebarMode, User};
use neogh::order::sort_by_timestamp;

fn user(login: &str) -> User {
    User { login: login.to_string(), html_url: None }
}

fn review(id: u64, path: &str, line: Option<u32>, original: Option<u32>, body: &str, at: i64) -> ReviewComment {
    ReviewComment {
        id,
        node_id: Some(format!("RC_{}", id)),
        path: path.to_string(),
        line,
        original_line: original,
        body: body.to_string(),
        user: user("alice"),
        created_at: at,
        created_at_nanos: 0,
        html_url: String::new(),
        commit_id: String::new(),
        original_commit_id: String::new(),
        diff_hunk: String::new(),
        in_reply_to_id: None,
        pull_request_review_id: None,
    }
}

fn issue(id: u64, body: &str, at: i64) -> IssueComment {
    IssueComment {
        id,
        node_id: Some(format!("IC_{}", id)),
        body: body.to_string(),
        user: user("bob"),
        created_at: at,
        created_at_nanos: 0,
        html_url: String::new(),
    }
}

#[test]
fn split_lines_like_str_lines() {
    let lines = split_lines("a\r\nb\n\nc\n");
    assert_eq!(lines, vec!["a".to_string(), "b".to_string(), String::new(), "c".to_string()]);
    assert_eq!(split_lines("").len(), 0);
    assert_eq!(line_count("one\ntwo"), 2);
}

#[test]
fn trim_and_blank() {
    assert_eq!(trim("  src/lib.rs \t"), "src/lib.rs");
    assert!(is_blank_str(" \n\t"));
    assert!(!is_blank_str(" x "));
    assert!(str_eq("abc", "abc"));
    assert!(!str_eq("abc", "abd"));
}

#[test]
fn replace_and_join() {
    assert_eq!(replace_str("a&amp;b&amp;", "&amp;", "&"), "a&b&");
    assert_eq!(replace_str("aaa", "aa", "b"), "ba");
    let parts = vec!["x".to_string(), "y".to_string(), "z".to_string()];
    assert_eq!(join_strings(&parts, "\n"), "x\ny\nz");
    assert_eq!(join_strings(&Vec::new(), ","), "");
}

#[test]
fn sidebar_mode_toggle_and_display() {
    assert_eq!(SidebarMode::Comments.toggle(), SidebarMode::Actions);
    assert_eq!(SidebarMode::Actions.toggle(), SidebarMode::Comments);
    assert_eq!(SidebarMode::PendingReview.toggle(), SidebarMode::PendingReview);
    assert_eq!(SidebarMode::Comments.toggle().toggle(), SidebarMode::Comments);
    assert_eq!(SidebarMode::Comments.to_display(), "Comments");
    assert_eq!(SidebarMode::Actions.to_display(), "Actions");
    assert_eq!(SidebarMode::PendingReview.to_display(), "Pending Review");
    assert_eq!(SidebarMode::default(), SidebarMode::Comments);
}

#[test]
fn review_comment_lines_and_locations() {
    let current = review(1, "src/a.rs", Some(10), Some(8), "hi", 0);
    assert_eq!(current.navigation_line(), Some(10));
    assert!(!current.is_line_deleted());
    let outdated = review(2, "src/a.rs", None, Some(8), "hi", 0);
    assert_eq!(outdated.navigation_line(), Some(8));
    assert!(outdated.is_line_deleted());
    let c = Comment::Review(current);
    assert_eq!(c.location(), Some(("src/a.rs", 10)));
    assert_eq!(Comment::Review(outdated).location(), None);
    let i = Comment::Issue(issue(3, "general", 5));
    assert_eq!(i.location(), None);
    assert_eq!(i.author(), "bob");
    assert_eq!(i.body(), "general");
    assert_eq!(i.created_at(), 5);
}

#[test]
fn comment_height_counts_body_lines() {
    assert_eq!(Comment::Issue(issue(1, "", 0)).height(), 6);
    assert_eq!(Comment::Issue(issue(1, "one", 0)).height(), 6);
    assert_eq!(Comment::Issue(issue(1, "one\ntwo\nthree", 0)).height(), 8);
    assert_eq!(Comment::Issue(issue(1, "text\n<!-- hidden -->", 0)).height(), 6);
    assert_eq!(Comment::Issue(issue(1, "<!-- only a note -->", 0)).height(), 6);
}

#[test]
fn sort_by_timestamp_is_stable_and_ascending() {
    let threads = vec![
        CommentThread::single(Comment::Issue(issue(1, "late", 30))),
        CommentThread::single(Comment::Issue(issue(2, "early", 10))),
        CommentThread::single(Comment::Issue(issue(3, "tie", 30))),
        CommentThread::single(Comment::Issue(issue(4, "first", 5))),
    ];
    let sorted = sort_by_timestamp(threads);
    let bodies: Vec<&str> = sorted.iter().map(|t| t.root.body()).collect();
    assert_eq!(bodies, vec!["first", "early", "late", "tie"]);
    assert_eq!(sorted[0].created_at(), 5);
}
