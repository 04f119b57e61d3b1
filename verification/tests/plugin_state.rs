use neogh::github::pr::{PrChain, PrInfo};
use neogh::github::{CheckConclusion, CheckRun, CheckStatus, CheckSuite, PullRequest};
use neogh::plugin::{
    chain_loaded_message, collapse_message, edit_body_from_lines, edit_lines, pending_loaded_message,
    prefetch_numbers, render_loading_lines, review_comment_lines, review_submit_command, suites_loaded_message,
    switched_message, thread_reply_command, threads_fit, threads_loaded_message, CommentAction,
    EditableCommentKind, JumpTarget, Outcome, PluginState, SwitchStep,
};
use neogh::types::{Comment, CommentThread, IssueComment, ReviewComment, SidebarMode, User};

const NOW_SECS: i64 = 1_700_000_000;
const NOW: (i64, u32) = (NOW_SECS, 0);

fn review(login: &str, path: &str, line: Option<u32>, original: Option<u32>, node: Option<&str>) -> Comment {
    Comment::Review(ReviewComment {
        id: 1,
        node_id: node.map(|n| n.to_string()),
        path: path.to_string(),
        line,
        original_line: original,
        body: "review body".to_string(),
        user: User { login: login.to_string(), html_url: None },
        created_at: NOW_SECS,
        created_at_nanos: 0,
        html_url: String::new(),
        commit_id: String::new(),
        original_commit_id: String::new(),
        diff_hunk: String::new(),
        in_reply_to_id: None,
        pull_request_review_id: None,
    })
}

fn issue(login: &str, node: Option<&str>) -> Comment {
    Comment::Issue(IssueComment {
        id: 2,
        node_id: node.map(|n| n.to_string()),
        body: "issue body".to_string(),
        user: User { login: login.to_string(), html_url: None },
        created_at: NOW_SECS,
        created_at_nanos: 0,
        html_url: String::new(),
    })
}

fn thread(id: Option<&str>, root: Comment, replies: Vec<Comment>, resolved: bool) -> CommentThread {
    CommentThread { thread_id: id.map(|s| s.to_string()), is_resolved: resolved, root, replies }
}

fn pr(number: u64) -> PullRequest {
    PullRequest {
        number,
        title: format!("PR {}", number),
        html_url: String::new(),
        head_ref: format!("b{}", number),
        base_ref: "main".to_string(),
        owner: "octo".to_string(),
        repo: "repo".to_string(),
    }
}

fn info(n: u64) -> PrInfo {
    PrInfo { number: n, title: format!("PR {}", n), head_ref: format!("b{}", n), base_ref: "main".to_string() }
}

fn sample_threads() -> Vec<CommentThread> {
    vec![
        thread(Some("T1"), review("alice", "src/a.rs", Some(10), None, Some("RC1")), vec![issue("bob", None)], false),
        thread(None, issue("alice", Some("IC2")), vec![], false),
        thread(Some("T3"), review("carol", "src/b.rs", None, Some(4), None), vec![], true),
    ]
}

fn info_text<T>(o: &Outcome<T>) -> Option<&str> {
    match o {
        Outcome::Info(m) => Some(m.as_str()),
        _ => None,
    }
}

fn state_with(threads: Vec<CommentThread>) -> PluginState {
    assert!(threads_fit(&threads));
    PluginState::new(threads)
}

#[test]
fn new_and_loading_states() {
    let s = state_with(sample_threads());
    assert!(!s.is_loading);
    assert_eq!(s.mode, SidebarMode::Comments);
    assert!(!s.buffer.is_collapsed(0));
    assert!(s.buffer.is_collapsed(2));
    let l = PluginState::loading();
    assert!(l.is_loading);
    assert!(l.threads.is_empty());
}

#[test]
fn navigation_while_loading_or_empty() {
    let mut l = PluginState::loading();
    assert_eq!(info_text(&l.next_comment()), Some("Still loading..."));
    let mut e = state_with(Vec::new());
    assert_eq!(info_text(&e.next_comment()), Some("No comments to navigate"));
    e.mode = SidebarMode::Actions;
    assert_eq!(info_text(&e.prev_comment()), Some("No workflows to navigate"));
    e.mode = SidebarMode::PendingReview;
    assert_eq!(info_text(&e.next_comment()), Some("No pending comments to navigate"));
}

#[test]
fn next_and_prev_follow_the_rendered_lines() {
    let mut s = state_with(sample_threads());
    s.render_lines(NOW);
    match s.next_comment() {
        Outcome::Proceed(line) => assert_eq!(line, Some(12)),
        _ => panic!("expected a move"),
    }
    assert_eq!(s.navigator.current_index(), 1);
    s.next_comment();
    s.next_comment();
    assert_eq!(s.navigator.current_index(), 2);
    assert_eq!(s.cursor_line(), Some(18));
    match s.prev_comment() {
        Outcome::Proceed(line) => assert_eq!(line, Some(12)),
        _ => panic!("expected a move"),
    }
    s.follow_cursor(3);
    assert_eq!(s.navigator.current_index(), 0);
    s.follow_cursor(500);
    assert_eq!(s.navigator.current_index(), 0);
}

#[test]
fn collapse_toggles_twice_back() {
    let mut s = state_with(sample_threads());
    match s.toggle_collapse() {
        Outcome::Proceed((idx, now)) => {
            assert_eq!(idx, 0);
            assert!(now);
            assert_eq!(collapse_message(idx, now), "Thread 0 collapsed: true");
        }
        _ => panic!("expected a toggle"),
    }
    match s.toggle_collapse() {
        Outcome::Proceed((_, now)) => assert!(!now),
        _ => panic!("expected a toggle"),
    }
    s.mode = SidebarMode::Actions;
    assert_eq!(info_text(&s.toggle_collapse()), Some("Collapse only works in Comments mode"));
}

#[test]
fn resolve_flow() {
    let mut s = state_with(sample_threads());
    match s.resolve_target() {
        Outcome::Proceed((idx, id, resolved)) => {
            assert_eq!((idx, id.as_str(), resolved), (0, "T1", false));
            assert_eq!(s.apply_resolution(idx, !resolved), "Thread resolved");
        }
        _ => panic!("expected a thread"),
    }
    assert!(s.threads[0].is_resolved);
    assert!(s.buffer.is_collapsed(0));
    assert_eq!(s.apply_resolution(0, false), "Thread unresolved");
    assert!(!s.threads[0].is_resolved);
    assert!(s.buffer.is_collapsed(0));
    s.navigator.set_index(1);
    assert_eq!(info_text(&s.resolve_target()), Some("Cannot resolve issue comments or threads without thread ID"));
    let e = state_with(Vec::new());
    assert!(matches!(e.resolve_target(), Outcome::Warn(ref m) if m == "No thread selected"));
}

#[test]
fn jump_targets() {
    let mut s = state_with(sample_threads());
    match s.jump_target() {
        Outcome::Proceed(Some(JumpTarget::File { path, command, line })) => {
            assert_eq!(path, "src/a.rs");
            assert_eq!(command, "edit src/a.rs");
            assert_eq!(line, 10);
        }
        _ => panic!("expected a file"),
    }
    s.navigator.set_index(1);
    assert_eq!(info_text(&s.jump_target()), Some("This is an issue comment with no file location"));
    s.navigator.set_index(2);
    s.mode = SidebarMode::PendingReview;
    assert_eq!(info_text(&s.jump_target()), Some("Pending comment has no file location"));
    let mut a = state_with(Vec::new());
    a.mode = SidebarMode::Actions;
    assert!(matches!(a.jump_target(), Outcome::Proceed(None)));
    let runs = vec![CheckRun {
        name: "build".to_string(),
        status: CheckStatus::Completed,
        conclusion: Some(CheckConclusion::Success),
        started_at: None,
        completed_at: None,
        details_url: Some("https://ci/run/1".to_string()),
    }];
    let suite = CheckSuite { app_name: "CI".to_string(), status: CheckStatus::Completed, conclusion: None, check_runs: runs };
    let empty = CheckSuite { app_name: "E".to_string(), status: CheckStatus::Queued, conclusion: None, check_runs: vec![] };
    a.set_check_suites(vec![suite, empty], None);
    match a.jump_target() {
        Outcome::Proceed(Some(JumpTarget::Url(cmd))) => assert_eq!(cmd, "silent !open 'https://ci/run/1'"),
        _ => panic!("expected a link"),
    }
    a.actions_navigator.set_index(1);
    assert_eq!(info_text(&a.jump_target()), Some("No check runs in this suite"));
    let mut e = state_with(Vec::new());
    assert_eq!(info_text(&e.jump_target()), Some("No comments to jump to"));
    e.is_loading = true;
    assert_eq!(info_text(&e.jump_target()), Some("Still loading..."));
}

#[test]
fn switch_modes() {
    let mut s = state_with(sample_threads());
    assert!(matches!(s.switch_mode(), Outcome::Proceed(SwitchStep::Show)));
    assert_eq!(s.mode, SidebarMode::Actions);
    assert_eq!(switched_message(s.mode), "Switched to Actions mode");
    assert!(matches!(s.switch_mode(), Outcome::Proceed(SwitchStep::Show)));
    assert_eq!(s.mode, SidebarMode::Comments);
    s.current_pr = Some(pr(8));
    match s.switch_mode() {
        Outcome::Proceed(SwitchStep::FetchActions(p)) => assert_eq!(p.number, 8),
        _ => panic!("expected a fetch"),
    }
    s.mode = SidebarMode::PendingReview;
    assert_eq!(info_text(&s.switch_mode()), Some("Mode switching is disabled in pending review sidebar"));
    assert_eq!(s.mode, SidebarMode::PendingReview);
}

#[test]
fn chain_moves_and_cache() {
    let mut s = state_with(sample_threads());
    assert_eq!(info_text(&s.chain_move(true)), Some("No PR chain detected"));
    let chain = PrChain { chain: vec![info(1), info(2), info(3)], current_index: 1 };
    s.show_fetched_threads(sample_threads(), pr(2), Some(chain));
    assert_eq!(s.cached_threads(2).map(|t| t.len()), Some(3));
    assert!(s.cached_threads(1).is_none());
    match s.chain_move(true) {
        Outcome::Proceed(Some(m)) => {
            assert_eq!((m.target.number, m.index, m.owner.as_str(), m.repo.as_str()), (1, 0, "octo", "repo"));
            s.show_chain_threads(m.target.number, vec![], m.index);
        }
        _ => panic!("expected a move"),
    }
    assert_eq!(s.render_lines(NOW)[1], "PR Chain: main ← #1 (viewing) ← #2 ← #3");
    assert_eq!(s.pr_chain.as_ref().map(|c| c.current_index), Some(0));
    assert_eq!(info_text(&s.chain_move(true)), Some("Already at the root PR (no parent)"));
    match s.chain_move(false) {
        Outcome::Proceed(Some(m)) => assert_eq!((m.target.number, m.index), (2, 1)),
        _ => panic!("expected a move"),
    }
    assert_eq!(s.cached_threads(1).map(|t| t.len()), Some(0));
    assert_eq!(s.cached_threads(2).map(|t| t.len()), Some(3));
    s.mode = SidebarMode::PendingReview;
    assert_eq!(info_text(&s.chain_move(false)), Some("Chain navigation is disabled in pending review sidebar"));
    let tip = PrChain { chain: vec![info(1), info(2)], current_index: 1 };
    s.mode = SidebarMode::Comments;
    s.pr_chain = Some(tip);
    assert_eq!(info_text(&s.chain_move(false)), Some("Already at the tip PR (no child)"));
    assert_eq!(prefetch_numbers(&PrChain { chain: vec![info(1), info(2), info(3)], current_index: 1 }, 2), vec![1, 3]);
}

#[test]
fn prefetched_entries_are_kept() {
    let mut s = state_with(Vec::new());
    s.cache_threads(4, sample_threads());
    assert_eq!(s.cached_threads(4).map(|t| t.len()), Some(3));
    s.cache_suites(4, vec![]);
    assert_eq!(s.cached_suites(4).map(|t| t.len()), Some(0));
    assert!(s.cached_suites(5).is_none());
}

#[test]
fn suites_cache_and_chain() {
    let mut s = state_with(Vec::new());
    let suite = CheckSuite { app_name: "CI".to_string(), status: CheckStatus::Queued, conclusion: None, check_runs: vec![] };
    s.show_fetched_suites(vec![suite], pr(5), Some(PrChain { chain: vec![info(4), info(5)], current_index: 1 }));
    assert_eq!(s.cached_suites(5).map(|v| v.len()), Some(1));
    assert_eq!(s.check_suites.len(), 1);
    s.show_chain_suites(4, vec![], 0);
    s.mode = SidebarMode::Actions;
    assert_eq!(s.render_lines(NOW)[1], "PR Chain: main ← #4 (viewing) ← #5");
    assert_eq!(s.cached_suites(4).map(|v| v.len()), Some(0));
    assert_eq!(s.pr_chain.as_ref().map(|c| c.current_index), Some(0));
    assert!(s.actions_navigator.is_empty());
}

#[test]
fn refresh_drops_cache_entry() {
    let mut s = state_with(Vec::new());
    assert!(matches!(s.refresh_target(), Outcome::Warn(ref m) if m == "No PR loaded"));
    s.show_fetched_threads(sample_threads(), pr(3), None);
    match s.refresh_target() {
        Outcome::Proceed((mode, p)) => assert_eq!((mode, p.number), (SidebarMode::Comments, 3)),
        _ => panic!("expected a refresh"),
    }
    assert!(s.cached_threads(3).is_none());
    s.is_loading = true;
    assert_eq!(info_text(&s.refresh_target()), Some("Still loading..."));
}

#[test]
fn pending_threads_replace_chain() {
    let mut s = state_with(Vec::new());
    s.pr_chain = Some(PrChain { chain: vec![info(1)], current_index: 0 });
    s.show_pending_threads(sample_threads(), pr(1));
    assert!(s.pr_chain.is_none());
    assert_eq!(s.threads.len(), 3);
    assert!(s.cached_threads(1).is_none());
}

#[test]
fn edit_and_delete_targets() {
    let mut s = state_with(sample_threads());
    assert!(matches!(s.comment_precheck(CommentAction::Edit), Outcome::Proceed(true)));
    match s.comment_target(CommentAction::Edit, Some("alice")) {
        Outcome::Proceed(t) => {
            assert_eq!((t.node_id.as_str(), t.body.as_str()), ("RC1", "review body"));
            assert_eq!(t.kind, EditableCommentKind::Review);
        }
        _ => panic!("expected a target"),
    }
    assert_eq!(info_text(&s.comment_target(CommentAction::Edit, Some("bob"))), Some("You can only edit your own comments"));
    assert_eq!(info_text(&s.comment_target(CommentAction::Delete, Some("bob"))), Some("You can only delete your own comments"));
    s.navigator.set_index(1);
    match s.comment_target(CommentAction::Delete, Some("alice")) {
        Outcome::Proceed(t) => assert_eq!(t.kind, EditableCommentKind::Issue),
        _ => panic!("expected a target"),
    }
    s.navigator.set_index(2);
    assert!(matches!(s.comment_target(CommentAction::Edit, Some("carol")), Outcome::Fail(ref m) if m == "Review comment node ID is missing"));
    s.mode = SidebarMode::PendingReview;
    assert!(matches!(s.comment_precheck(CommentAction::Edit), Outcome::Proceed(false)));
    s.navigator.set_index(1);
    assert_eq!(info_text(&s.comment_target(CommentAction::Edit, None)), Some("Selected item is not editable in this mode"));
    s.mode = SidebarMode::Actions;
    assert_eq!(info_text(&s.comment_precheck(CommentAction::Delete)), Some("Delete comment works in Comments and Pending Review sidebars"));
    let e = state_with(Vec::new());
    assert!(matches!(e.comment_precheck(CommentAction::Edit), Outcome::Warn(ref m) if m == "No comment selected"));
    assert!(matches!(e.comment_precheck(CommentAction::Delete), Outcome::Fail(ref m) if m == "No comment selected"));
}

#[test]
fn reply_targets_and_commands() {
    let mut s = state_with(sample_threads());
    assert!(matches!(s.reply_target(), Outcome::Proceed(ref id) if id == "T1"));
    s.navigator.set_index(1);
    assert_eq!(info_text(&s.reply_target()), Some("Cannot reply to issue comments or threads without thread ID"));
    s.mode = SidebarMode::Actions;
    assert_eq!(info_text(&s.reply_target()), Some("Thread reply only works in Comments mode"));
    assert_eq!(thread_reply_command("PRRT_a'b\\c"), "lua require('neogh.thread_reply').open('PRRT_a\\'b\\\\c')");
    assert_eq!(review_submit_command("APPROVE"), "lua require('neogh.review_submit').open('APPROVE')");
}

#[test]
fn edit_bodies() {
    let lines = vec!["first".to_string(), "".to_string(), "third".to_string()];
    assert_eq!(edit_body_from_lines(&lines), Ok("first\n\nthird".to_string()));
    let blank = vec![" ".to_string(), "\t".to_string()];
    assert_eq!(edit_body_from_lines(&blank), Err("Comment body cannot be empty".to_string()));
    assert_eq!(edit_lines(""), vec![String::new()]);
    assert_eq!(edit_lines("a\nb"), vec!["a".to_string(), "b".to_string()]);
}

#[test]
fn loading_lines_and_messages() {
    let lines = render_loading_lines(SidebarMode::Actions);
    assert_eq!(lines.len(), 4);
    assert_eq!(lines[0], "━".repeat(47));
    assert_eq!(lines[1], "Loading workflow status...");
    assert_eq!(lines[2], "Fetching from GitHub...");
    assert_eq!(render_loading_lines(SidebarMode::PendingReview)[1], "Loading pending review comments...");
    assert_eq!(threads_loaded_message(false, 3, 12, "Fix"), "Loaded 3 thread(s) for PR #12: Fix");
    assert_eq!(threads_loaded_message(true, 0, 1, ""), "Refreshed 0 thread(s) for PR #1: ");
    assert_eq!(pending_loaded_message(false, 2, 9), "Loaded 2 pending review comment(s) for PR #9");
    assert_eq!(suites_loaded_message(4, 10), "Loaded 4 workflow suite(s) for PR #10");
    assert_eq!(chain_loaded_message(7, false, Some("T")), "Loaded PR #7 (cached): T");
    assert_eq!(chain_loaded_message(7, true, None), "Loaded PR #7 workflow");
    assert_eq!(chain_loaded_message(7, true, Some("T")), "Loaded PR #7 workflow (cached): T");
}

#[test]
fn review_signs() {
    let threads = vec![
        thread(Some("A"), review("a", " src/a.rs ", Some(3), None, None), vec![review("b", "src/a.rs", None, Some(3), None)], false),
        thread(Some("B"), review("a", "src/b.rs", None, None, None), vec![review("b", "  ", Some(5), None, None)], false),
        thread(None, issue("c", None), vec![review("d", "src/c.rs", Some(0), None, None), review("d", "src/c.rs", Some(9), None, None)], false),
    ];
    let marks = review_comment_lines(&threads);
    assert_eq!(marks, vec![("src/a.rs".to_string(), 3), ("src/c.rs".to_string(), 9)]);
}
