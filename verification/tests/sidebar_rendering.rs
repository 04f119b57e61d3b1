use neogh::actions::ActionsNavigator;
use neogh::github::pr::{PrChain, PrInfo};
use neogh::github::{CheckConclusion, CheckRun, CheckStatus, CheckSuite};
use neogh::types::{Comment, CommentThread, IssueComment, ReviewComment, User};
use neogh::ui::actions_buffer::render_suite;
use neogh::ui::markup::clean_body;
use neogh::ui::navigation::{jump_plan, lines_fit};
use neogh::ui::relative_time::{age_text_at, elapsed_seconds_exec};
use neogh::ui::render::{render_chain_header, render_comment_lines_with_prefix};
use neogh::ui::{ActionsBuffer, CommentBuffer, Navigator};

const NOW_SECS: i64 = 1_700_000_000;
const NOW: (i64, u32) = (NOW_SECS, 0);

fn rule() -> String {
    "━".repeat(47)
}

fn light() -> String {
    "─".repeat(47)
}

fn review(path: &str, line: Option<u32>, body: &str, at: i64) -> Comment {
    Comment::Review(ReviewComment {
        id: 1,
        node_id: Some("RC_1".to_string()),
        path: path.to_string(),
        line,
        original_line: None,
        body: body.to_string(),
        user: User { login: "alice".to_string(), html_url: None },
        created_at: at,
        created_at_nanos: 0,
        html_url: String::new(),
        commit_id: String::new(),
        original_commit_id: String::new(),
        diff_hunk: String::new(),
        in_reply_to_id: None,
        pull_request_review_id: None,
    })
}

fn issue(body: &str, at: i64) -> Comment {
    Comment::Issue(IssueComment {
        id: 2,
        node_id: Some("IC_2".to_string()),
        body: body.to_string(),
        user: User { login: "bob".to_string(), html_url: None },
        created_at: at,
        created_at_nanos: 0,
        html_url: String::new(),
    })
}

fn thread(root: Comment, replies: Vec<Comment>, resolved: bool) -> CommentThread {
    CommentThread { thread_id: Some("T".to_string()), is_resolved: resolved, root, replies }
}

fn info(n: u64, base: &str) -> PrInfo {
    PrInfo { number: n, title: format!("PR {}", n), head_ref: format!("b{}", n), base_ref: base.to_string() }
}

#[test]
fn relative_ages() {
    assert_eq!(age_text_at(NOW, (NOW_SECS - 30, 0), true), "just now");
    assert_eq!(age_text_at(NOW, (NOW_SECS + 500, 0), true), "just now");
    assert_eq!(age_text_at(NOW, (NOW_SECS - 60, 0), true), "1 minute ago");
    assert_eq!(age_text_at(NOW, (NOW_SECS - 7200, 0), true), "2 hours ago");
    assert_eq!(age_text_at(NOW, (NOW_SECS - 86400 * 3, 0), true), "3 days ago");
    assert_eq!(age_text_at(NOW, (NOW_SECS - 86400 * 35, 0), true), "5 weeks ago");
    assert_eq!(age_text_at(NOW, (NOW_SECS - 604800 * 110, 0), true), "2 years ago");
    assert_eq!(age_text_at(NOW, (NOW_SECS - 604800 * 110, 0), false), "110 weeks ago");
}

#[test]
fn clean_body_strips_markup_and_entities() {
    assert_eq!(clean_body("<b>hi</b> &amp; bye"), "hi & bye");
    assert_eq!(clean_body("a<!-- hidden -->b"), "ab");
    assert_eq!(clean_body("&lt;tag&gt; &quot;q&quot; it&#39;s"), "<tag> \"q\" it's");
    assert_eq!(clean_body("x <!-- a --> y <!-- b --> z"), "x  y  z");
}

#[test]
fn chain_header_lines() {
    assert!(render_chain_header(&None).is_empty());
    let single = PrChain { chain: vec![info(1, "main")], current_index: 0 };
    assert!(render_chain_header(&Some(single)).is_empty());
    let chain = PrChain { chain: vec![info(1, "main"), info(2, "b1"), info(3, "b2")], current_index: 1 };
    let lines = render_chain_header(&Some(chain));
    assert_eq!(lines, vec![rule(), "PR Chain: main ← #1 ← #2 (viewing) ← #3".to_string(), rule()]);
}

#[test]
fn comment_block_lines() {
    let c = review("src/a.rs", Some(12), "<p>Fix this</p>\nplease", NOW_SECS - 7200);
    let lines = render_comment_lines_with_prefix(&c, "", true, NOW);
    assert_eq!(
        lines,
        vec![
            rule(),
            "📝 Review Comment · src/a.rs:12 ✓ [resolved]".to_string(),
            "@alice • 2 hours ago".to_string(),
            light(),
            "Fix this".to_string(),
            "please".to_string(),
            rule(),
        ]
    );
    let reply = render_comment_lines_with_prefix(&issue("", NOW_SECS), "└─", false, NOW);
    assert_eq!(reply[1], "└─💬 Issue Comment");
    assert_eq!(reply[2], "└─@bob • just now");
    assert_eq!(reply[4], "└─ ");
    assert_eq!(reply.len(), 6);
}

#[test]
fn comment_buffer_line_map() {
    let threads = vec![
        thread(review("a.rs", Some(1), "one", NOW_SECS), vec![issue("reply", NOW_SECS)], false),
        thread(issue("two", NOW_SECS), vec![issue("r2", NOW_SECS)], true),
    ];
    let mut b = CommentBuffer::new(threads);
    b.initialize_collapsed();
    assert!(!b.is_collapsed(0));
    assert!(b.is_collapsed(1));
    let lines = b.render(NOW);
    assert_eq!(lines.len(), 6 + 6 + 6);
    assert_eq!(b.line_for_thread(0), Some(0));
    assert_eq!(b.line_for_thread(1), Some(12));
    assert_eq!(b.line_for_thread(2), None);
    assert_eq!(b.line_to_thread_index(7), Some(0));
    assert_eq!(b.line_to_thread_index(12), Some(1));
    assert_eq!(b.line_to_thread_index(18), None);
    b.toggle_collapse(1);
    assert!(!b.is_collapsed(1));
    b.toggle_collapse(1);
    assert!(b.is_collapsed(1));
    b.set_collapsed(1, false);
    let lines = b.render(NOW);
    assert_eq!(lines.len(), 24);
    assert_eq!(lines[19], "└─💬 Issue Comment");
    b.set_thread_resolved(0, true);
    assert!(b.threads()[0].is_resolved);
}

#[test]
fn empty_comment_buffer_with_chain() {
    let mut b = CommentBuffer::new(Vec::new());
    b.set_chain(Some(PrChain { chain: vec![info(1, "main"), info(2, "b1")], current_index: 0 }));
    let lines = b.render(NOW);
    assert_eq!(
        lines,
        vec![
            rule(),
            "PR Chain: main ← #1 (viewing) ← #2".to_string(),
            rule(),
            rule(),
            "No comments yet.".to_string(),
            "Comments will appear here when available.".to_string(),
            rule(),
        ]
    );
    assert_eq!(b.line_for_thread(0), None);
}

fn run(name: &str, conclusion: Option<CheckConclusion>, status: CheckStatus, url: Option<&str>) -> CheckRun {
    CheckRun {
        name: name.to_string(),
        status,
        conclusion,
        started_at: Some((NOW_SECS - 120, 0)),
        completed_at: if conclusion.is_some() { Some((NOW_SECS - 60, 0)) } else { None },
        details_url: url.map(|u| u.to_string()),
    }
}

#[test]
fn suite_rendering_and_map() {
    let suite = CheckSuite {
        app_name: "GitHub Actions".to_string(),
        status: CheckStatus::Completed,
        conclusion: Some(CheckConclusion::Success),
        check_runs: vec![
            run("build", Some(CheckConclusion::Success), CheckStatus::Completed, Some("https://ci/1")),
            run("lint", None, CheckStatus::InProgress, None),
        ],
    };
    let lines = render_suite(&suite, NOW);
    assert_eq!(
        lines,
        vec![
            rule(),
            "✅ GitHub Actions (✅ Success)".to_string(),
            light(),
            "  ✅ build (completed 1 minute ago)".to_string(),
            "  🔄 lint (started 2 minutes ago)".to_string(),
            rule(),
        ]
    );
    let empty = CheckSuite { app_name: "X".to_string(), status: CheckStatus::Queued, conclusion: None, check_runs: vec![] };
    let mut b = ActionsBuffer::new(vec![suite, empty]);
    assert!(!b.is_empty());
    let all = b.render(NOW);
    assert_eq!(all.len(), 6 + 5);
    assert_eq!(all[7], "🔄 X (⏳ Queued)");
    assert_eq!(all[9], "  No check runs");
    assert_eq!(b.line_for_suite(1), Some(6));
    assert_eq!(b.suite_line_range(1), Some((6, 11)));
    assert_eq!(b.line_to_suite_index(3), Some(0));
    assert_eq!(b.line_to_suite_index(11), None);
    let mut none = ActionsBuffer::new(vec![]);
    assert!(none.is_empty());
    assert_eq!(none.render(NOW)[1], "No workflow runs found.");
}

#[test]
fn navigator_moves_and_lines() {
    let comments = vec![issue("a", NOW_SECS), issue("b\nc", NOW_SECS), issue("d", NOW_SECS)];
    assert!(lines_fit(&comments));
    let mut n = Navigator::new(comments);
    assert_eq!(n.current_index(), 0);
    assert!(n.prev().is_some());
    assert_eq!(n.current_index(), 0);
    n.next();
    n.next();
    n.next();
    assert_eq!(n.current_index(), 2);
    n.prev();
    assert_eq!(n.current_index(), 1);
    assert_eq!(n.line_for_index(1), Some(6));
    assert_eq!(n.line_for_index(2), Some(13));
    assert_eq!(n.index_for_line(12), Some(1));
    assert_eq!(n.index_for_line(19), None);
    n.set_index(7);
    assert_eq!(n.current_index(), 1);
    assert_eq!(n.current().map(|c| c.body().to_string()), Some("b\nc".to_string()));
    let mut e = Navigator::new(Vec::new());
    assert!(e.is_empty());
    assert!(e.next().is_none());
}

#[test]
fn actions_navigator_moves() {
    let mut a = ActionsNavigator::new(2);
    a.prev();
    assert_eq!(a.current_index(), 0);
    a.next();
    a.next();
    assert_eq!(a.current_index(), 1);
    a.set_index(5);
    assert_eq!(a.current_index(), 1);
    a.set_index(0);
    assert_eq!(a.current_index(), 0);
    assert!(ActionsNavigator::new(0).is_empty());
}

#[test]
fn jump_plans() {
    assert_eq!(jump_plan(&review("src/x.rs", Some(4), "b", NOW_SECS)), Ok(("edit src/x.rs".to_string(), 4)));
    assert_eq!(jump_plan(&review("src/x.rs", None, "b", NOW_SECS)), Err("Review comment has no line number".to_string()));
    assert_eq!(jump_plan(&issue("b", NOW_SECS)), Err("Issue comments have no file location".to_string()));
}

#[test]
fn height_is_the_number_of_rendered_lines() {
    for body in ["", "one", "a\nb", "text\n<!-- hidden -->", "<b>x</b>\n<!-- y -->\nz"] {
        let c = issue(body, NOW_SECS);
        assert_eq!(c.height(), render_comment_lines_with_prefix(&c, "", false, NOW).len());
    }
}

#[test]
fn suite_ranges_follow_one_another_after_the_chain_header() {
    let two_runs = CheckSuite {
        app_name: "CI".to_string(),
        status: CheckStatus::Completed,
        conclusion: Some(CheckConclusion::Failure),
        check_runs: vec![
            run("a", Some(CheckConclusion::Failure), CheckStatus::Completed, None),
            run("b", Some(CheckConclusion::Success), CheckStatus::Completed, None),
        ],
    };
    let no_runs = CheckSuite { app_name: "Y".to_string(), status: CheckStatus::Queued, conclusion: None, check_runs: vec![] };
    let mut b = ActionsBuffer::new(vec![no_runs, two_runs]);
    b.set_chain(Some(PrChain { chain: vec![info(1, "main"), info(2, "b1")], current_index: 1 }));
    let lines = b.render(NOW);
    assert_eq!(lines.len(), 3 + 5 + 6);
    assert_eq!(b.suite_line_range(0), Some((3, 8)));
    assert_eq!(b.suite_line_range(1), Some((8, 14)));
    assert_eq!(b.suite_line_range(2), None);
    assert_eq!(b.line_for_suite(1), Some(8));
    assert_eq!(b.line_to_suite_index(2), None);
    assert_eq!(b.line_to_suite_index(3), Some(0));
    assert_eq!(b.line_to_suite_index(7), Some(0));
    assert_eq!(b.line_to_suite_index(8), Some(1));
    assert_eq!(b.line_to_suite_index(13), Some(1));
    assert_eq!(b.line_to_suite_index(14), None);
}

#[test]
fn collapsing_a_thread_removes_only_its_replies() {
    let threads = vec![
        thread(issue("first", NOW_SECS), vec![issue("r1", NOW_SECS), issue("r2\nmore", NOW_SECS)], false),
        thread(issue("second", NOW_SECS), vec![issue("r3", NOW_SECS)], false),
    ];
    let mut b = CommentBuffer::new(threads);
    b.set_chain(Some(PrChain { chain: vec![info(1, "main"), info(2, "b1")], current_index: 0 }));
    let before = b.render(NOW);
    assert_eq!(before.len(), 3 + 6 + 6 + 7 + 6 + 6);
    let start = b.line_for_thread(0).unwrap();
    let next = b.line_for_thread(1).unwrap();
    assert_eq!((start, next), (3, 3 + 19));
    for l in [start, next] {
        assert_eq!(before[l], rule());
    }
    b.toggle_collapse(0);
    let after = b.render(NOW);
    let root_end = start + 6;
    let mut expected: Vec<String> = before[..root_end].to_vec();
    expected.extend_from_slice(&before[next..]);
    assert_eq!(after, expected);
    assert_eq!(b.line_for_thread(1), Some(root_end));
    assert_eq!(b.line_to_thread_index(root_end), Some(1));
    assert_eq!(b.line_to_thread_index(root_end - 1), Some(0));
    assert_eq!(b.line_to_thread_index(2), None);
}

#[test]
fn ages_count_fractions_of_a_second() {
    // created 10:00:59.5, seen 10:01:59.2: 59.7 seconds, still under a minute
    let created = (36059, 500_000_000);
    assert_eq!(age_text_at((36119, 200_000_000), created, true), "just now");
    assert_eq!(age_text_at((36119, 500_000_000), created, true), "1 minute ago");
    // seen 0.5 s before it was created: a future time is "just now"
    assert_eq!(age_text_at((36059, 0), created, false), "just now");
}

#[test]
fn ages_count_a_leap_second() {
    // 23:59:60.5, seen at 00:01:00 the next day: 59.5 seconds
    let leap = (86399, 1_500_000_000);
    assert_eq!(age_text_at((86460, 0), leap, true), "just now");
    assert_eq!(age_text_at((86460, 500_000_000), leap, true), "1 minute ago");
}

#[test]
fn elapsed_seconds_agree_with_chrono() {
    let cases: [((i64, u32), (i64, u32)); 7] = [
        ((36119, 200_000_000), (36059, 500_000_000)),
        ((36059, 0), (36059, 500_000_000)),
        ((86460, 0), (86399, 1_500_000_000)),
        ((36119, 500_000_000), (36059, 1_200_000_000)),
        ((36059, 1_200_000_000), (36119, 500_000_000)),
        ((-100, 300), (-7_000_000, 999_999_999)),
        ((1_700_000_000, 0), (1_600_000_000, 123)),
    ];
    for (now, then) in cases {
        let a = chrono::DateTime::from_timestamp(now.0, now.1).unwrap();
        let b = chrono::DateTime::from_timestamp(then.0, then.1).unwrap();
        assert_eq!(elapsed_seconds_exec(now, then), a.signed_duration_since(b).num_seconds() as i128);
    }
}
